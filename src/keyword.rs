//! Escaping a search keyword so that it can be matched against stored
//! addresses, which keep such characters percent-encoded.
use vstd::prelude::*;
use vstd::string::StringSliceAdditionalSpecFns;
use vstd::utf8::{
    decode_utf8_encode_utf8, encode_utf8, partial_valid_utf8, partial_valid_utf8_extend_ascii_block,
    valid_utf8,
};

use crate::percent::{str_from_utf8, upper_hex};

verus! {

/// The bytes escaped in an address fragment: controls, space, `"`, `<`, `>`,
/// backquote, and every byte outside ASCII.
pub open spec fn in_fragment_set(b: u8) -> bool {
    b < 0x20 || b == 0x7f || b == 0x20 || b == 0x22 || b == 0x3c || b == 0x3e || b == 0x60 || b >= 0x80
}

/// One byte, escaped as `%XX` when it is in the fragment set.
pub open spec fn fragment_byte(b: u8) -> Seq<u8> {
    if in_fragment_set(b) {
        seq![0x25u8] + upper_hex(b)
    } else {
        seq![b]
    }
}

/// Every byte of `s` in turn, escaped by [`fragment_byte`].
pub open spec fn fragment_encoded(s: Seq<u8>) -> Seq<u8>
    decreases s.len(),
{
    if s.len() == 0 {
        Seq::empty()
    } else {
        fragment_encoded(s.drop_last()) + fragment_byte(s.last())
    }
}

/// Relies on `percent_encoding::percent_encode_byte`: `%` followed by the two
/// upper-case hexadecimal digits of the byte.
#[verifier::external_body]
fn percent_encode_byte(b: u8) -> (r: &'static str)
    ensures
        r.spec_bytes() == seq![0x25u8] + upper_hex(b),
{
    percent_encoding::percent_encode_byte(b)
}

/// `keyword` with every byte of the fragment set percent-encoded; the result
/// is ASCII, and its bytes are [`fragment_encoded`] of the keyword's bytes.
pub fn encode(keyword: &str) -> (r: String)
    ensures
        encode_utf8(r@) == fragment_encoded(keyword.spec_bytes()),
{
    let bytes = keyword.as_bytes();
    let ghost s = bytes@;
    let mut out: Vec<u8> = Vec::new();
    let mut i: usize = 0;
    while i < bytes.len()
        invariant
            bytes@ == s,
            i <= s.len(),
            out@ == fragment_encoded(s.subrange(0, i as int)),
            forall|j: int| 0 <= j < out@.len() ==> out@[j] < 0x80,
        decreases s.len() - i,
    {
        let b = bytes[i];
        let ghost before = out@;
        if b < 0x20 || b == 0x7f || b == 0x20 || b == 0x22 || b == 0x3c || b == 0x3e || b == 0x60
            || b >= 0x80 {
            let e = percent_encode_byte(b).as_bytes();
            out.push(e[0]);
            out.push(e[1]);
            out.push(e[2]);
            assert(out@ =~= before + e@);
        } else {
            out.push(b);
        }
        assert(s.subrange(0, i + 1).drop_last() =~= s.subrange(0, i as int));
        i = i + 1;
    }
    assert(s.subrange(0, s.len() as int) =~= s);
    proof {
        assert(out@.subrange(0, 0) =~= Seq::<u8>::empty());
        assert(partial_valid_utf8(out@, 0));
        partial_valid_utf8_extend_ascii_block(out@, 0, out@.len() as int);
        assert(out@.subrange(0, out@.len() as int) =~= out@);
        assert(valid_utf8(out@));
        decode_utf8_encode_utf8(out@);
    }
    match str_from_utf8(out.as_slice()) {
        Ok(t) => t.to_owned(),
        Err(_) => String::new(),
    }
}

} // verus!
