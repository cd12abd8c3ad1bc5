//! The shapes of the requests and responses of the proof service.

use crate::export::hex_digit_spec;
use crate::field::{le_bytes32_spec, le_bytes_value, modulus, FieldElement};
use vstd::prelude::*;
use vstd::string::StringExecFns;

verus! {

/// What `hex::decode` makes of a text: the bytes that its hexadecimal digits
/// stand for, or the words of the error that says why it stands for none.
pub uninterp spec fn hex_decoded(text: Seq<char>) -> Result<Seq<u8>, Seq<char>>;

/// A text without every leading repetition of a pattern that is not empty.
pub open spec fn trim_start_spec(text: Seq<char>, pattern: Seq<char>) -> Seq<char>
    decreases text.len(),
{
    if pattern.len() > 0 && pattern.is_prefix_of(text) {
        trim_start_spec(text.skip(pattern.len() as int), pattern)
    } else {
        text
    }
}

/// The lower-case hexadecimal text of bytes: two digits for each.
pub open spec fn hex_text_spec(bytes: Seq<u8>) -> Seq<char> {
    Seq::new(
        2 * bytes.len(),
        |i: int|
            if i % 2 == 0 {
                hex_digit_spec(bytes[i / 2] / 16)
            } else {
                hex_digit_spec(bytes[i / 2] % 16)
            },
    )
}

/// What a text stands for as a field element: after its leading `0x`, 32
/// bytes in hexadecimal, least significant first, taken modulo the field
/// order; or the words of the error.
pub open spec fn parse_fr_spec(text: Seq<char>) -> Result<nat, Seq<char>> {
    match hex_decoded(trim_start_spec(text, "0x"@)) {
        Err(e) => Err("Invalid hex: "@ + e),
        Ok(bytes) => field_from_bytes_spec(bytes),
    }
}

/// What bytes stand for as a field element: 32 of them, least significant
/// first, taken modulo the field order; or the words of the error.
pub open spec fn field_from_bytes_spec(bytes: Seq<u8>) -> Result<nat, Seq<char>> {
    if bytes.len() != 32 {
        Err("Field element must be 32 bytes"@)
    } else {
        Ok(le_bytes_value(bytes) % modulus())
    }
}

/// Whether a result of parsing is the expected one: the same element, or an
/// error with the same words.
pub open spec fn parsed_as(r: Result<FieldElement, String>, expected: Result<nat, Seq<char>>) -> bool {
    match expected {
        Ok(v) => r is Ok && r->Ok_0@ == v,
        Err(e) => r is Err && r->Err_0@ == e,
    }
}

/// `str::trim_start_matches` with a pattern that is not empty: the text
/// without every leading repetition of the pattern.
#[verifier::external_body]
fn trim_start_matches<'a>(text: &'a str, pattern: &str) -> (r: &'a str)
    requires
        pattern@.len() > 0,
    ensures
        r@ == trim_start_spec(text@, pattern@),
{
    text.trim_start_matches(pattern)
}

/// `hex::decode`: the bytes that the hexadecimal digits of a text stand for,
/// or the words of its error.
#[verifier::external_body]
fn hex_decode(text: &str) -> (r: Result<Vec<u8>, String>)
    ensures
        match r {
            Ok(bytes) => hex_decoded(text@) == Ok::<Seq<u8>, Seq<char>>(bytes@),
            Err(e) => hex_decoded(text@) == Err::<Seq<u8>, Seq<char>>(e@),
        },
{
    hex::decode(text).map_err(|e| e.to_string())
}

/// `hex::encode`: two lower-case hexadecimal digits for each byte.
#[verifier::external_body]
fn hex_encode(bytes: &[u8]) -> (r: String)
    ensures
        r@ == hex_text_spec(bytes@),
{
    hex::encode(bytes)
}

/// The field element that 32 bytes stand for, least significant first and
/// taken modulo the field order; or the error that says that they are not
/// 32.
pub fn field_from_bytes(bytes: &[u8]) -> (r: Result<FieldElement, String>)
    ensures
        parsed_as(r, field_from_bytes_spec(bytes@)),
{
    if bytes.len() != 32 {
        return Err(String::from_str("Field element must be 32 bytes"));
    }
    Ok(FieldElement::from_le_bytes_mod_order(bytes))
}

/// Reads a field element from hexadecimal text, with or without a leading
/// `0x`.
pub fn parse_fr(text: &str) -> (r: Result<FieldElement, String>)
    ensures
        parsed_as(r, parse_fr_spec(text@)),
{
    proof {
        reveal_strlit("0x");
    }
    match hex_decode(trim_start_matches(text, "0x")) {
        Ok(bytes) => field_from_bytes(bytes.as_slice()),
        Err(e) => Err(String::from_str("Invalid hex: ").concat(e.as_str())),
    }
}

/// Writes a field element as hexadecimal text: `0x` and the 32 bytes of its
/// residue, least significant first.
pub fn serialize_fr(f: &FieldElement) -> (r: String)
    ensures
        r@ == "0x"@ + hex_text_spec(le_bytes32_spec(f@)),
{
    let bytes = f.to_bytes_le();
    String::from_str("0x").concat(hex_encode(bytes.as_slice()).as_str())
}

/// The answer to a health check.
pub struct HealthResponse {
    pub status: &'static str,
}

/// One slot of an inventory in a request: an item and how many of it.
#[derive(Debug)]
pub struct SlotRequest {
    pub item_id: u32,
    pub quantity: u64,
}

/// A proof and its public inputs, each as hexadecimal text.
pub struct ProofResponse {
    pub proof: String,
    pub public_inputs: Vec<String>,
}

/// The answer to a request that failed.
pub struct ErrorResponse {
    pub error: String,
}

/// A request to prove that an inventory holds at least `min_quantity` of an
/// item.
pub struct ItemExistsRequest {
    pub inventory: Vec<SlotRequest>,
    pub blinding: String,
    pub item_id: u32,
    pub min_quantity: u64,
}

/// A request to prove a withdrawal.
pub struct WithdrawRequest {
    pub old_inventory: Vec<SlotRequest>,
    pub old_blinding: String,
    pub new_blinding: String,
    pub item_id: u32,
    pub amount: u64,
}

/// A withdrawal proof with the commitment to the new inventory.
pub struct WithdrawResponse {
    pub proof: String,
    pub public_inputs: Vec<String>,
    pub new_commitment: String,
}

/// A request to prove a deposit.
pub struct DepositRequest {
    pub old_inventory: Vec<SlotRequest>,
    pub old_blinding: String,
    pub new_blinding: String,
    pub item_id: u32,
    pub amount: u64,
}

/// A deposit proof with the commitment to the new inventory.
pub struct DepositResponse {
    pub proof: String,
    pub public_inputs: Vec<String>,
    pub new_commitment: String,
}

/// A request to prove a transfer from one inventory to another.
pub struct TransferRequest {
    pub src_old_inventory: Vec<SlotRequest>,
    pub src_old_blinding: String,
    pub src_new_blinding: String,
    pub dst_old_inventory: Vec<SlotRequest>,
    pub dst_old_blinding: String,
    pub dst_new_blinding: String,
    pub item_id: u32,
    pub amount: u64,
}

/// A transfer proof with the commitments to both new inventories.
pub struct TransferResponse {
    pub proof: String,
    pub public_inputs: Vec<String>,
    pub src_new_commitment: String,
    pub dst_new_commitment: String,
}

/// A request for the commitment to an inventory.
pub struct CreateCommitmentRequest {
    pub inventory: Vec<SlotRequest>,
    pub blinding: String,
}

/// A commitment as hexadecimal text.
pub struct CreateCommitmentResponse {
    pub commitment: String,
}

/// A fresh blinding factor as hexadecimal text.
pub struct GenerateBlindingResponse {
    pub blinding: String,
}

/// The hash of a volume registry as hexadecimal text.
pub struct RegistryHashResponse {
    pub registry_hash: String,
}

/// The items and quantities of the slots of a request, in their order.
pub open spec fn slots_spec(slots: Seq<SlotRequest>) -> Seq<(u64, u64)> {
    slots.map_values(|s: SlotRequest| (s.item_id as u64, s.quantity))
}

/// Turns the slots of a request into pairs of item and quantity.
pub fn parse_inventory(slots: &[SlotRequest]) -> (items: Vec<(u64, u64)>)
    ensures
        items@ == slots_spec(slots@),
{
    let mut items: Vec<(u64, u64)> = Vec::new();
    let mut i: usize = 0;
    while i < slots.len()
        invariant
            i <= slots.len(),
            items@ == slots_spec(slots@.subrange(0, i as int)),
        decreases slots.len() - i,
    {
        items.push((slots[i].item_id as u64, slots[i].quantity));
        i += 1;
        assert(items@ =~= slots_spec(slots@.subrange(0, i as int)));
    }
    assert(slots@.subrange(0, i as int) =~= slots@);
    items
}

} // verus!
