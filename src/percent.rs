//! Percent-decoding of addresses for display: every `%XX` escape is decoded,
//! except those that stand for a byte with a meaning of its own in an address
//! (`%2F`, `%23`, `%20`, ...), which stay escaped, in upper case.
use vstd::prelude::*;
use vstd::string::StringSliceAdditionalSpecFns;
use vstd::utf8::{decode_utf8, valid_utf8};

verus! {

#[verifier::external_type_specification]
#[verifier::external_body]
pub struct ExUtf8Error(std::str::Utf8Error);

/// Whether `b` is an ASCII hexadecimal digit.
pub open spec fn is_hex(b: u8) -> bool {
    (0x30 <= b <= 0x39) || (0x41 <= b <= 0x46) || (0x61 <= b <= 0x66)
}

/// The value of the hexadecimal digit `b`.
pub open spec fn hex_val(b: u8) -> u8 {
    if b <= 0x39 {
        (b - 0x30) as u8
    } else if b <= 0x46 {
        (b - 0x41 + 10) as u8
    } else {
        (b - 0x61 + 10) as u8
    }
}

/// The byte that the two hexadecimal digits `h` `l` stand for.
pub open spec fn hex_pair(h: u8, l: u8) -> u8 {
    (hex_val(h) * 16 + hex_val(l)) as u8
}

/// The bytes that stay escaped: ` "#$%&'()*+,/:;<=>?@[\]^` and backquote,
/// `{|}`.
pub open spec fn keep_encoded(b: u8) -> bool {
    b == 0x20 || b == 0x22 || b == 0x23 || b == 0x24 || b == 0x25 || b == 0x26 || b == 0x27
        || b == 0x28 || b == 0x29 || b == 0x2a || b == 0x2b || b == 0x2c || b == 0x2f || b
        == 0x3a || b == 0x3b || b == 0x3c || b == 0x3d || b == 0x3e || b == 0x3f || b == 0x40
        || b == 0x5b || b == 0x5c || b == 0x5d || b == 0x5e || b == 0x60 || b == 0x7b || b
        == 0x7c || b == 0x7d
}

/// The upper-case hexadecimal digit for `n < 16`.
pub open spec fn upper_hex_digit(n: u8) -> u8 {
    if n < 10 {
        (0x30 + n) as u8
    } else {
        (0x41 + n - 10) as u8
    }
}

/// The two upper-case hexadecimal digits of `b`.
pub open spec fn upper_hex(b: u8) -> Seq<u8> {
    seq![upper_hex_digit(b / 16), upper_hex_digit(b % 16)]
}

/// Byte by byte decoding: an escape of a byte that stays escaped is written
/// `%` and its upper-case digits; another escape becomes its byte; a `%` not
/// followed by two hexadecimal digits becomes `%25`; any other byte stays.
pub open spec fn percent_decoded(s: Seq<u8>) -> Seq<u8>
    decreases s.len(),
{
    if s.len() == 0 {
        Seq::empty()
    } else if s[0] == 0x25 {
        if s.len() >= 3 && is_hex(s[1]) && is_hex(s[2]) {
            let v = hex_pair(s[1], s[2]);
            if keep_encoded(v) {
                seq![0x25u8] + upper_hex(v) + percent_decoded(s.subrange(3, s.len() as int))
            } else {
                seq![v] + percent_decoded(s.subrange(3, s.len() as int))
            }
        } else {
            seq![0x25u8] + upper_hex(0x25) + percent_decoded(s.subrange(1, s.len() as int))
        }
    } else {
        seq![s[0]] + percent_decoded(s.subrange(1, s.len() as int))
    }
}

/// At `p` stands an escape that decoding changes into its byte.
pub open spec fn real_escape_at(s: Seq<u8>, p: int) -> bool {
    &&& 0 <= p
    &&& p + 2 < s.len()
    &&& s[p] == 0x25
    &&& is_hex(s[p + 1])
    &&& is_hex(s[p + 2])
    &&& !keep_encoded(hex_pair(s[p + 1], s[p + 2]))
}

/// `p` is the first such escape.
pub open spec fn first_real_escape(s: Seq<u8>, p: int) -> bool {
    real_escape_at(s, p) && forall|q: int| 0 <= q < p ==> !real_escape_at(s, q)
}

/// The decoding, when it differs from the input: everything before the first
/// escape that decodes to a byte is kept as it is, that escape becomes its
/// byte, and the rest is decoded by [`percent_decoded`]. `None` when there is
/// no such escape.
pub open spec fn decoded_if_any(s: Seq<u8>) -> Option<Seq<u8>> {
    if exists|p: int| first_real_escape(s, p) {
        let p = choose|p: int| first_real_escape(s, p);
        Some(s.subrange(0, p) + seq![hex_pair(s[p + 1], s[p + 2])] + percent_decoded(
            s.subrange(p + 3, s.len() as int),
        ))
    } else {
        None
    }
}

/// The decoded bytes: [`decoded_if_any`], or the input when that is `None`.
pub open spec fn decoded_bytes(s: Seq<u8>) -> Seq<u8> {
    match decoded_if_any(s) {
        Some(d) => d,
        None => s,
    }
}

/// What `String::from_utf8_lossy` makes of `b`.
pub uninterp spec fn utf8_lossy(b: Seq<u8>) -> Seq<char>;

/// Relies on `std::str::from_utf8`: `Ok` exactly for well-formed UTF-8, with
/// the characters it encodes.
#[verifier::external_body]
pub(crate) fn str_from_utf8(b: &[u8]) -> (r: Result<&str, std::str::Utf8Error>)
    ensures
        r is Ok <==> valid_utf8(b@),
        r matches Ok(s) ==> s@ == decode_utf8(b@),
{
    std::str::from_utf8(b)
}

/// Relies on `String::from_utf8_lossy`: well-formed UTF-8 is decoded as is;
/// other input has its ill-formed sequences replaced by U+FFFD.
#[verifier::external_body]
fn decode_utf8_lossy(b: &[u8]) -> (r: String)
    ensures
        r@ == utf8_lossy(b@),
        valid_utf8(b@) ==> r@ == decode_utf8(b@),
{
    String::from_utf8_lossy(b).into_owned()
}

/// The value of `b` as a hexadecimal digit.
fn hex_digit(b: u8) -> (r: Option<u8>)
    ensures
        r is Some <==> is_hex(b),
        r matches Some(v) ==> v == hex_val(b) && v < 16,
{
    if 0x30 <= b && b <= 0x39 {
        Some(b - 0x30)
    } else if 0x41 <= b && b <= 0x46 {
        Some(b - 0x41 + 10)
    } else if 0x61 <= b && b <= 0x66 {
        Some(b - 0x61 + 10)
    } else {
        None
    }
}

/// The byte escaped by the two hexadecimal digits at `pos`, if there are two.
pub fn after_percent_sign(bytes: &[u8], pos: usize) -> (r: Option<u8>)
    ensures
        r is Some <==> pos + 2 <= bytes@.len() && is_hex(bytes@[pos as int]) && is_hex(bytes@[pos + 1]),
        r matches Some(v) ==> v == hex_pair(bytes@[pos as int], bytes@[pos + 1]),
{
    if pos >= bytes.len() || bytes.len() - pos < 2 {
        return None;
    }
    match (hex_digit(bytes[pos]), hex_digit(bytes[pos + 1])) {
        (Some(h), Some(l)) => Some(h * 16 + l),
        _ => None,
    }
}

/// The two upper-case hexadecimal digits of `byte`.
pub fn encode(byte: u8) -> (r: Vec<u8>)
    ensures
        r@ == upper_hex(byte),
{
    let h = byte / 16;
    let l = byte % 16;
    let hd = if h < 10 { 0x30 + h } else { 0x41 + h - 10 };
    let ld = if l < 10 { 0x30 + l } else { 0x41 + l - 10 };
    let mut v: Vec<u8> = Vec::new();
    v.push(hd);
    v.push(ld);
    assert(v@ =~= upper_hex(byte));
    v
}

/// Whether `b` stays escaped.
fn is_keep_encoded(b: u8) -> (r: bool)
    ensures
        r == keep_encoded(b),
{
    b == 0x20 || b == 0x22 || b == 0x23 || b == 0x24 || b == 0x25 || b == 0x26 || b == 0x27
        || b == 0x28 || b == 0x29 || b == 0x2a || b == 0x2b || b == 0x2c || b == 0x2f || b
        == 0x3a || b == 0x3b || b == 0x3c || b == 0x3d || b == 0x3e || b == 0x3f || b == 0x40
        || b == 0x5b || b == 0x5c || b == 0x5d || b == 0x5e || b == 0x60 || b == 0x7b || b
        == 0x7c || b == 0x7d
}

/// [`percent_decoded`] of `bytes` from position `start` on, appended to `out`.
fn decode_from(bytes: &[u8], start: usize, out: &mut Vec<u8>)
    requires
        start <= bytes@.len(),
    ensures
        final(out)@ == old(out)@ + percent_decoded(bytes@.subrange(start as int, bytes@.len() as int)),
{
    let ghost s = bytes@;
    let ghost n = s.len() as int;
    let mut i: usize = start;
    while i < bytes.len()
        invariant
            bytes@ == s,
            n == s.len(),
            start <= i <= n,
            old(out)@ + percent_decoded(s.subrange(start as int, n)) == out@ + percent_decoded(
                s.subrange(i as int, n),
            ),
        decreases n - i,
    {
        let ghost rest = s.subrange(i as int, n);
        let ghost before = out@;
        let b = bytes[i];
        if b == 0x25 {
            match after_percent_sign(bytes, i + 1) {
                Some(v) => {
                    assert(rest.subrange(3, rest.len() as int) =~= s.subrange(i + 3, n));
                    if is_keep_encoded(v) {
                        out.push(0x25);
                        let e = encode(v);
                        out.push(e[0]);
                        out.push(e[1]);
                        assert(out@ =~= before + (seq![0x25u8] + upper_hex(v)));
                    } else {
                        out.push(v);
                    }
                    i = i + 3;
                },
                None => {
                    assert(rest.subrange(1, rest.len() as int) =~= s.subrange(i + 1, n));
                    out.push(0x25);
                    out.push(0x32);
                    out.push(0x35);
                    assert(upper_hex(0x25) =~= seq![0x32u8, 0x35u8]);
                    assert(out@ =~= before + (seq![0x25u8] + upper_hex(0x25)));
                    i = i + 1;
                },
            }
        } else {
            assert(rest.subrange(1, rest.len() as int) =~= s.subrange(i + 1, n));
            out.push(b);
            i = i + 1;
        }
    }
    assert(s.subrange(i as int, n) =~= Seq::<u8>::empty());
    assert(out@ =~= out@ + Seq::<u8>::empty());
}

/// Bytes to be percent-decoded; see [`percent_decode`].
pub struct PercentDecode {
    bytes: Vec<u8>,
}

impl View for PercentDecode {
    type V = Seq<u8>;

    closed spec fn view(&self) -> Seq<u8> {
        self.bytes@
    }
}

/// Percent-decodes the given string; see [`percent_decode`].
pub fn percent_decode_str(input: &str) -> (r: PercentDecode)
    ensures
        r@ == input.spec_bytes(),
{
    percent_decode(input.as_bytes())
}

/// Percent-decodes the given bytes: every `%` followed by two hexadecimal
/// digits is decoded, except escapes of bytes that keep a meaning in an
/// address, which stay escaped.
pub fn percent_decode(input: &[u8]) -> (r: PercentDecode)
    ensures
        r@ == input@,
{
    let mut bytes: Vec<u8> = Vec::new();
    let mut i: usize = 0;
    while i < input.len()
        invariant
            i <= input@.len(),
            bytes@ == input@.subrange(0, i as int),
        decreases input@.len() - i,
    {
        bytes.push(input[i]);
        i = i + 1;
    }
    assert(bytes@ =~= input@);
    PercentDecode { bytes }
}

impl PercentDecode {
    /// Every byte decoded in turn: [`percent_decoded`].
    pub fn decoded(&self) -> (r: Vec<u8>)
        ensures
            r@ == percent_decoded(self@),
    {
        let mut out: Vec<u8> = Vec::new();
        decode_from(self.bytes.as_slice(), 0, &mut out);
        assert(self.bytes@.subrange(0, self.bytes@.len() as int) =~= self.bytes@);
        assert(out@ =~= Seq::<u8>::empty() + percent_decoded(self@));
        out
    }

    /// The decoding, when it differs from the input; see [`decoded_if_any`].
    pub fn if_any(&self) -> (r: Option<Vec<u8>>)
        ensures
            match r {
                Some(v) => decoded_if_any(self@) == Some(v@),
                None => decoded_if_any(self@) is None,
            },
    {
        let b = self.bytes.as_slice();
        let ghost s = b@;
        let mut i: usize = 0;
        while i < b.len()
            invariant
                b@ == s,
                s == self@,
                i <= s.len(),
                forall|q: int| 0 <= q < i ==> !real_escape_at(s, q),
            decreases s.len() - i,
        {
            if b[i] == 0x25 {
                if let Some(v) = after_percent_sign(b, i + 1) {
                    if !is_keep_encoded(v) {
                        let mut out: Vec<u8> = Vec::new();
                        let mut j: usize = 0;
                        while j < i
                            invariant
                                b@ == s,
                                j <= i,
                                i < s.len(),
                                out@ == s.subrange(0, j as int),
                            decreases i - j,
                        {
                            out.push(b[j]);
                            j = j + 1;
                        }
                        out.push(v);
                        let ghost prefix = out@;
                        decode_from(b, i + 3, &mut out);
                        proof {
                            assert(first_real_escape(s, i as int));
                            let p = choose|p: int| first_real_escape(s, p);
                            if p < i {
                                assert(!real_escape_at(s, p));
                            }
                            if i < p {
                                assert(!real_escape_at(s, i as int));
                            }
                            assert(p == i);
                            assert(prefix =~= s.subrange(0, i as int) + seq![hex_pair(s[i + 1], s[i + 2])]);
                        }
                        return Some(out);
                    }
                }
            }
            i = i + 1;
        }
        proof {
            assert(!exists|p: int| first_real_escape(s, p));
        }
        None
    }

    /// The decoded bytes: [`decoded_bytes`].
    pub fn into_bytes(self) -> (r: Vec<u8>)
        ensures
            r@ == decoded_bytes(self@),
    {
        match self.if_any() {
            Some(v) => v,
            None => self.bytes,
        }
    }

    /// The decoded bytes read as UTF-8; an error when they are not well-formed
    /// UTF-8.
    pub fn decode_utf8(self) -> (r: Result<String, std::str::Utf8Error>)
        ensures
            r is Ok <==> valid_utf8(decoded_bytes(self@)),
            r matches Ok(s) ==> s@ == decode_utf8(decoded_bytes(self@)),
    {
        let bytes = self.into_bytes();
        match str_from_utf8(bytes.as_slice()) {
            Ok(s) => Ok(s.to_owned()),
            Err(e) => Err(e),
        }
    }

    /// The decoded bytes read as UTF-8, ill-formed sequences replaced by
    /// U+FFFD.
    pub fn decode_utf8_lossy(self) -> (r: String)
        ensures
            r@ == utf8_lossy(decoded_bytes(self@)),
            valid_utf8(decoded_bytes(self@)) ==> r@ == decode_utf8(decoded_bytes(self@)),
    {
        let bytes = self.into_bytes();
        decode_utf8_lossy(bytes.as_slice())
    }
}

} // verus!
