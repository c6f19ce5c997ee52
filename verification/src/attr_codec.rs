//! Decoding of metadata values kept in a voucher file's extended
//! attributes: a little-endian signed 64-bit integer for the ttl and wait
//! columns, and a textual boolean for the transfer flag.

use vstd::prelude::*;

use vstd::bytes::spec_u64_from_le_bytes;
use vstd::bytes::u64_from_le_bytes;

verus! {

/// The integer encoded by eight little-endian bytes, read as two's
/// complement.
pub open spec fn i64_from_le_bytes_spec(s: Seq<u8>) -> i64 {
    let u = spec_u64_from_le_bytes(s);
    if u < 0x8000_0000_0000_0000 {
        u as i64
    } else {
        ((u as int) - 0x1_0000_0000_0000_0000) as i64
    }
}

/// The UTF-8 bytes of the word `true`, the attribute text that stands for
/// a set flag.
pub open spec fn true_attr_bytes() -> Seq<u8> {
    seq![116u8, 114u8, 117u8, 101u8]
}

/// Decodes an attribute value as a little-endian signed 64-bit integer;
/// a value of any other length than eight bytes is rejected.
pub fn i64_from_le_attr(v: &[u8]) -> (r: Option<i64>)
    ensures
        r is Some <==> v@.len() == 8,
        r matches Some(x) ==> x == i64_from_le_bytes_spec(v@),
{
    if v.len() != 8 {
        return None;
    }
    let u = u64_from_le_bytes(v);
    if u < 0x8000_0000_0000_0000u64 {
        Some(u as i64)
    } else {
        let m = u - 0x8000_0000_0000_0000u64;
        Some((m as i64) + i64::MIN)
    }
}

/// Decodes an attribute value as a boolean flag: exactly the text `true`
/// stands for a set flag, anything else for a cleared one.
pub fn bool_from_text_attr(v: &[u8]) -> (r: bool)
    ensures
        r == (v@ == true_attr_bytes()),
{
    let r = v.len() == 4 && v[0] == 116 && v[1] == 114 && v[2] == 117 && v[3] == 101;
    proof {
        if r {
            assert(v@ =~= true_attr_bytes());
        } else {
            if v@ == true_attr_bytes() {
                assert(v@.len() == 4);
                assert(v@[0] == 116 && v@[1] == 114 && v@[2] == 117 && v@[3] == 101);
            }
        }
    }
    r
}

} // verus!
