//! Helpers shared by the command surfaces: hex parsing of contract
//! identifiers, canonical ledger-key construction, and deploying contract
//! code into a snapshot.

use vstd::prelude::*;

use crate::snapshot::{LedgerEntry, LedgerEntryV, Snapshot};

verus! {

/// A hexadecimal digit, either case.
pub open spec fn is_hex_digit(c: char) -> bool {
    ('0' <= c && c <= '9') || ('a' <= c && c <= 'f') || ('A' <= c && c <= 'F')
}

/// The value of one hexadecimal digit.
pub open spec fn hex_digit_val(c: char) -> u8 {
    match c {
        '0' => 0,
        '1' => 1,
        '2' => 2,
        '3' => 3,
        '4' => 4,
        '5' => 5,
        '6' => 6,
        '7' => 7,
        '8' => 8,
        '9' => 9,
        'a' => 10,
        'b' => 11,
        'c' => 12,
        'd' => 13,
        'e' => 14,
        'f' => 15,
        'A' => 10,
        'B' => 11,
        'C' => 12,
        'D' => 13,
        'E' => 14,
        'F' => 15,
        _ => 0,
    }
}

/// A well-formed hex string: even length, hex digits throughout.
pub open spec fn valid_hex(s: Seq<char>) -> bool {
    &&& s.len() % 2 == 0
    &&& forall|i: int| 0 <= i < s.len() ==> is_hex_digit(s[i])
}

/// The bytes a hex string denotes, two digits per byte.
pub open spec fn hex_decode_spec(s: Seq<char>) -> Seq<u8>
    decreases s.len(),
{
    if s.len() < 2 {
        Seq::empty()
    } else {
        seq![(hex_digit_val(s[0]) * 16 + hex_digit_val(s[1])) as u8] + hex_decode_spec(s.skip(2))
    }
}

/// The lowercase hex digit of a nibble.
pub open spec fn hex_digit_char(n: u8) -> char {
    match n {
        0 => '0',
        1 => '1',
        2 => '2',
        3 => '3',
        4 => '4',
        5 => '5',
        6 => '6',
        7 => '7',
        8 => '8',
        9 => '9',
        10 => 'a',
        11 => 'b',
        12 => 'c',
        13 => 'd',
        14 => 'e',
        15 => 'f',
        _ => '0',
    }
}

/// The lowercase hex string of a byte sequence, two digits per byte.
pub open spec fn hex_of(b: Seq<u8>) -> Seq<char>
    decreases b.len(),
{
    if b.len() == 0 {
        Seq::empty()
    } else {
        seq![hex_digit_char(b[0] >> 4), hex_digit_char(b[0] & 0xf)] + hex_of(b.skip(1))
    }
}

/// Relies on hex::decode: succeeds exactly on even-length strings of hex
/// digits (either case) and yields one byte per digit pair.
#[verifier::external_body]
fn hex_decode(s: &String) -> (r: Option<Vec<u8>>)
    ensures
        r is Some <==> valid_hex(s@),
        r matches Some(b) ==> b@ == hex_decode_spec(s@),
{
    match hex::decode(s.as_str()) {
        Ok(v) => Option::Some(v),
        Err(_) => Option::None,
    }
}

/// Relies on hex::encode: two lowercase hex digits per input byte, in order.
#[verifier::external_body]
pub fn hex_encode(b: &Vec<u8>) -> (r: String)
    ensures
        r@ == hex_of(b@),
{
    hex::encode(b.as_slice())
}

/// Parses a contract identifier from its hex form; it must denote exactly
/// 32 bytes.
pub fn contract_id_from_str(contract_id: &String) -> (r: Option<Vec<u8>>)
    ensures
        r is Some <==> valid_hex(contract_id@) && hex_decode_spec(contract_id@).len() == 32,
        r matches Some(b) ==> b@ == hex_decode_spec(contract_id@) && b@.len() == 32,
{
    match hex_decode(contract_id) {
        Option::Some(b) => {
            if b.len() == 32 {
                Option::Some(b)
            } else {
                Option::None
            }
        }
        Option::None => Option::None,
    }
}

/// The canonical ledger key of a contract's stored datum.
pub open spec fn contract_data_key(id: Seq<u8>, key: Seq<u8>) -> Seq<u8> {
    seq![0u8] + id + key
}

/// The canonical ledger key of a contract's code.
pub open spec fn contract_code_key(id: Seq<u8>) -> Seq<u8> {
    seq![1u8] + id
}

/// Builds the canonical ledger key of a contract's stored datum.
pub fn make_contract_data_key(id: &Vec<u8>, key: &Vec<u8>) -> (r: Vec<u8>)
    ensures
        r@ == contract_data_key(id@, key@),
{
    let mut out: Vec<u8> = Vec::new();
    out.push(0);
    crate::bytes::write_raw(&mut out, id);
    crate::bytes::write_raw(&mut out, key);
    proof {
        assert(out@ =~= contract_data_key(id@, key@));
    }
    out
}

/// Builds the canonical ledger key of a contract's code.
pub fn make_contract_code_key(id: &Vec<u8>) -> (r: Vec<u8>)
    ensures
        r@ == contract_code_key(id@),
{
    let mut out: Vec<u8> = Vec::new();
    out.push(1);
    crate::bytes::write_raw(&mut out, id);
    proof {
        assert(out@ =~= contract_code_key(id@));
    }
    out
}

/// Deploys contract code into a snapshot: binds the contract's code key to
/// a fresh entry holding the code bytes.
pub fn add_contract_to_ledger_entries(entries: &mut Snapshot, contract_id: &Vec<u8>, contract: Vec<u8>)
    requires
        old(entries).wf(),
    ensures
        final(entries).wf(),
        final(entries)@ == old(entries)@.insert(
            contract_code_key(contract_id@),
            LedgerEntryV { data: contract@, last_modified: 0 },
        ),
{
    let key = make_contract_code_key(contract_id);
    entries.insert(key, LedgerEntry { data: contract, last_modified: 0 });
}

} // verus!
