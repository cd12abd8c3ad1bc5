use inventory_circuits::field::FieldElement;
use inventory_circuits::handlers::{field_from_bytes, parse_fr, serialize_fr};

fn fe(x: u64) -> FieldElement {
    FieldElement::from_u64(x)
}

const ONE: &str = "0100000000000000000000000000000000000000000000000000000000000000";

#[test]
fn a_field_element_is_written_least_significant_byte_first() {
    assert_eq!(serialize_fr(&fe(1)), format!("0x{}", ONE));
    assert_eq!(
        serialize_fr(&fe(0x0102)),
        "0x0201000000000000000000000000000000000000000000000000000000000000"
    );
    assert_eq!(
        serialize_fr(&fe(1).neg()),
        "0x000000f093f5e1439170b97948e833285d588181b64550b829a031e1724e6430"
    );
    assert_eq!(fe(0x0102).to_bytes_le()[..3], [2, 1, 0]);
    assert_eq!(fe(7).to_bytes_le().len(), 32);
}

#[test]
fn a_field_element_is_read_with_or_without_its_prefix() {
    assert_eq!(parse_fr(ONE), Ok(fe(1)));
    assert_eq!(parse_fr(&format!("0x{}", ONE)), Ok(fe(1)));
    assert_eq!(parse_fr(&format!("0x0x{}", ONE)), Ok(fe(1)));
    let upper = "AB00000000000000000000000000000000000000000000000000000000000000";
    assert_eq!(parse_fr(upper), Ok(fe(0xab)));
}

#[test]
fn what_is_written_is_read_back() {
    for x in [fe(0), fe(1), fe(u64::MAX), fe(1).neg(), fe(12345).mul(&fe(u64::MAX))] {
        assert_eq!(parse_fr(&serialize_fr(&x)), Ok(x));
    }
}

#[test]
fn a_number_above_the_order_is_reduced() {
    let all_ones = "ff".repeat(32);
    let expected = FieldElement::from_le_bytes_mod_order(&[0xff; 32]);
    assert_eq!(parse_fr(&all_ones), Ok(expected));
    // two to the 256 less one, modulo the order
    assert_eq!(
        serialize_fr(&expected),
        "0xfaffff4f1c3496ac29cd609f9576fc362e4679786fa36e662fdf079ac1770a0e"
    );
    // the order itself is zero
    let order = "010000f093f5e1439170b97948e833285d588181b64550b829a031e1724e6430";
    assert_eq!(parse_fr(order), Ok(fe(0)));
}

#[test]
fn a_text_of_another_length_is_no_field_element() {
    assert_eq!(parse_fr("0x01"), Err("Field element must be 32 bytes".to_string()));
    assert_eq!(parse_fr(""), Err("Field element must be 32 bytes".to_string()));
    assert_eq!(
        parse_fr(&format!("{}00", ONE)),
        Err("Field element must be 32 bytes".to_string())
    );
    assert_eq!(field_from_bytes(&[1; 31]), Err("Field element must be 32 bytes".to_string()));
    let mut bytes = [0u8; 32];
    bytes[1] = 1;
    assert_eq!(field_from_bytes(&bytes), Ok(fe(256)));
}

#[test]
fn a_text_that_is_no_hexadecimal_is_an_error() {
    assert_eq!(parse_fr("0x123"), Err("Invalid hex: Odd number of digits".to_string()));
    assert_eq!(
        parse_fr("0xzz"),
        Err("Invalid hex: Invalid character 'z' at position 0".to_string())
    );
    assert_eq!(
        parse_fr("1x"),
        Err("Invalid hex: Invalid character 'x' at position 1".to_string())
    );
}
