use inventory_circuits::export::format_as_move_vector;
use inventory_circuits::handlers::{parse_inventory, SlotRequest};

#[test]
fn bytes_become_a_move_vector() {
    assert_eq!(format_as_move_vector(&[]), "vector[]");
    assert_eq!(format_as_move_vector(&[0]), "vector[0x00]");
    assert_eq!(format_as_move_vector(&[1, 255]), "vector[0x01, 0xff]");
    assert_eq!(
        format_as_move_vector(&[0x0a, 0x9f, 0xa0, 0x10]),
        "vector[0x0a, 0x9f, 0xa0, 0x10]"
    );
}

#[test]
fn every_byte_is_written_as_the_standard_library_writes_it() {
    let bytes: Vec<u8> = (0..=255u8).collect();
    let parts: Vec<String> = bytes.iter().map(|b| format!("0x{:02x}", b)).collect();
    assert_eq!(format_as_move_vector(&bytes), format!("vector[{}]", parts.join(", ")));
}

#[test]
fn slots_become_pairs_in_their_order() {
    let slots = vec![
        SlotRequest { item_id: 3, quantity: 9 },
        SlotRequest { item_id: 1, quantity: 0 },
        SlotRequest { item_id: u32::MAX, quantity: u64::MAX },
    ];
    assert_eq!(parse_inventory(&slots), vec![(3, 9), (1, 0), (u32::MAX as u64, u64::MAX)]);
    assert_eq!(parse_inventory(&[]), vec![]);
}
