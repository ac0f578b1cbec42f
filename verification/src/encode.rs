//! Encoding order identifiers for the settlement call.
//!
//! The settlement layer takes each batch as a flat list of 32-byte words:
//! for every fill, the buy order's identifier followed by the sell order's
//! identifier, each a 64-digit hex string (optionally "0x"-prefixed).

use vstd::prelude::*;

use crate::order::Fill;

verus! {

/// Whether `c` is a hex digit (either case).
pub open spec fn is_hex_digit(c: char) -> bool {
    ('0' as u32 <= c as u32 && c as u32 <= '9' as u32) || ('a' as u32 <= c as u32 && c as u32
        <= 'f' as u32) || ('A' as u32 <= c as u32 && c as u32 <= 'F' as u32)
}

/// The value of the hex digit `c`.
pub open spec fn hex_val(c: char) -> int {
    if '0' as u32 <= c as u32 && c as u32 <= '9' as u32 {
        c as u32 - '0' as u32
    } else if 'a' as u32 <= c as u32 && c as u32 <= 'f' as u32 {
        c as u32 - 'a' as u32 + 10
    } else {
        c as u32 - 'A' as u32 + 10
    }
}

/// `s` without a leading "0x", when it has one.
pub open spec fn strip_0x(s: Seq<char>) -> Seq<char> {
    if s.len() >= 2 && s[0] == '0' && s[1] == 'x' {
        s.skip(2)
    } else {
        s
    }
}

/// Exactly 64 hex digits.
pub open spec fn valid_hex64(s: Seq<char>) -> bool {
    s.len() == 64 && forall|i: int| 0 <= i < 64 ==> is_hex_digit(#[trigger] s[i])
}

/// The 32 bytes a 64-digit hex string spells, two digits to a byte, the
/// first digit of each pair the high half.
pub open spec fn hex_bytes32(s: Seq<char>) -> Seq<u8> {
    Seq::new(32, |k: int| (16 * hex_val(s[2 * k]) + hex_val(s[2 * k + 1])) as u8)
}

/// Whether an identifier parses as a settlement word: an optional "0x"
/// prefix and then 64 hex digits.
pub open spec fn wellformed_id(s: Seq<char>) -> bool {
    valid_hex64(strip_0x(s))
}

/// Relies on fuels' `Bits256::from_hex_str` (and the hex crate's
/// `decode_to_slice` under it): an optional "0x" prefix is stripped and the
/// rest must be exactly 64 hex digits of either case, two digits to a byte,
/// high half first; any other input is an error.
#[verifier::external_body]
fn parse_order_id(id: &str) -> (r: Option<[u8; 32]>)
    ensures
        (r is Some) <==> wellformed_id(id@),
        (r matches Some(b) ==> b@ == hex_bytes32(strip_0x(id@))),
{
    fuels::types::Bits256::from_hex_str(id).ok().map(|b| b.0)
}

/// Every identifier a batch names is well-formed.
pub open spec fn batch_ids_wellformed(s: Seq<Fill>) -> bool {
    forall|k: int|
        0 <= k < s.len() ==> wellformed_id(#[trigger] s[k].buy_id@) && wellformed_id(
            s[k].sell_id@,
        )
}

/// Turns one batch into the flat word list the settlement call takes: for
/// each fill in order, the buy identifier's 32 bytes, then the sell
/// identifier's. Nothing is returned when any identifier of the batch fails
/// to parse.
pub fn encode_batch_ids(batch: &Vec<Fill>) -> (r: Option<Vec<[u8; 32]>>)
    ensures
        (r is Some) <==> batch_ids_wellformed(batch@),
        (r matches Some(v) ==> v@.len() == 2 * batch@.len() && forall|k: int|
            0 <= k < batch@.len() ==> v@[2 * k]@ == hex_bytes32(strip_0x(#[trigger] batch@[k].buy_id@))
                && v@[2 * k + 1]@ == hex_bytes32(strip_0x(batch@[k].sell_id@))),
{
    let mut out: Vec<[u8; 32]> = Vec::new();
    let mut i: usize = 0;
    while i < batch.len()
        invariant
            i <= batch@.len(),
            out@.len() == 2 * i,
            forall|k: int|
                0 <= k < i ==> wellformed_id(#[trigger] batch@[k].buy_id@) && wellformed_id(
                    batch@[k].sell_id@,
                ),
            forall|k: int|
                0 <= k < i ==> out@[2 * k]@ == hex_bytes32(
                    strip_0x(#[trigger] batch@[k].buy_id@),
                ) && out@[2 * k + 1]@ == hex_bytes32(strip_0x(batch@[k].sell_id@)),
        decreases batch@.len() - i,
    {
        let ghost out0 = out@;
        let buy = match parse_order_id(batch[i].buy_id.as_str()) {
            Some(b) => b,
            None => {
                proof {
                    assert(!wellformed_id(batch@[i as int].buy_id@));
                }
                return None;
            },
        };
        let sell = match parse_order_id(batch[i].sell_id.as_str()) {
            Some(b) => b,
            None => {
                proof {
                    assert(!wellformed_id(batch@[i as int].sell_id@));
                }
                return None;
            },
        };
        out.push(buy);
        out.push(sell);
        proof {
            assert(wellformed_id(batch@[i as int].buy_id@));
            assert(wellformed_id(batch@[i as int].sell_id@));
            assert forall|k: int|
                0 <= k < i as int + 1 implies wellformed_id(#[trigger] batch@[k].buy_id@)
                && wellformed_id(batch@[k].sell_id@) by {
                if k == i as int {
                    assert(wellformed_id(batch@[k].buy_id@));
                    assert(wellformed_id(batch@[k].sell_id@));
                }
            }
            assert(out@[2 * (i as int)] == buy);
            assert(out@[2 * (i as int) + 1] == sell);
            assert forall|k: int| 0 <= k < 2 * (i as int) implies #[trigger] out@[k] == out0[k] by {
                assert(out0.push(buy)[k] == out0[k]);
                assert(out0.push(buy).push(sell)[k] == out0.push(buy)[k]);
            }
        }
        i = i + 1;
    }
    Some(out)
}

} // verus!
