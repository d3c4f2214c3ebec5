//! Byte-level building blocks of the wire format: big-endian integers,
//! ASCII decimal rendering, and appending text to a byte buffer.

use vstd::prelude::*;

verus! {

use vstd::string::StringSliceAdditionalSpecFns;

/// The value of two big-endian bytes.
pub open spec fn be16_val(s: Seq<u8>) -> int
    recommends
        s.len() == 2,
{
    s[0] * 0x100 + s[1]
}

/// The value of four big-endian bytes.
pub open spec fn be32_val(s: Seq<u8>) -> int
    recommends
        s.len() == 4,
{
    s[0] * 0x1000000 + s[1] * 0x10000 + s[2] * 0x100 + s[3]
}

/// The value of eight big-endian bytes.
pub open spec fn be64_val(s: Seq<u8>) -> int
    recommends
        s.len() == 8,
{
    be32_val(s.subrange(0, 4)) * 0x100000000 + be32_val(s.subrange(4, 8))
}

/// The four big-endian bytes of a 32-bit value.
pub open spec fn be32_bytes(n: u32) -> Seq<u8> {
    seq![
        (n / 0x1000000) as u8,
        ((n / 0x10000) % 0x100) as u8,
        ((n / 0x100) % 0x100) as u8,
        (n % 0x100) as u8,
    ]
}

/// Reading back the four bytes of a 32-bit value gives the value.
pub proof fn lemma_be32_roundtrip(n: u32)
    ensures
        be32_val(be32_bytes(n)) == n,
{
}

/// Two bytes hold a value below 2^16.
pub proof fn lemma_be16_bound(s: Seq<u8>)
    requires
        s.len() == 2,
    ensures
        0 <= be16_val(s) < 0x10000,
{
}

/// Four bytes hold a value below 2^32.
pub proof fn lemma_be32_bound(s: Seq<u8>)
    requires
        s.len() == 4,
    ensures
        0 <= be32_val(s) < 0x100000000,
{
}

/// Eight bytes hold a value below 2^64.
pub proof fn lemma_be64_bound(s: Seq<u8>)
    requires
        s.len() == 8,
    ensures
        0 <= be64_val(s) < 0x10000000000000000,
{
    lemma_be32_bound(s.subrange(0, 4));
    lemma_be32_bound(s.subrange(4, 8));
}

/// Appends the four big-endian bytes of `n`.
pub fn push_be32(buf: &mut Vec<u8>, n: u32)
    ensures
        final(buf)@ == old(buf)@ + be32_bytes(n),
{
    buf.push((n / 0x1000000) as u8);
    buf.push(((n / 0x10000) % 0x100) as u8);
    buf.push(((n / 0x100) % 0x100) as u8);
    buf.push((n % 0x100) as u8);
    assert(final(buf)@ =~= old(buf)@ + be32_bytes(n));
}

/// Reads a 16-bit big-endian value at `i`.
pub fn read_be16(buf: &Vec<u8>, i: usize) -> (r: u16)
    requires
        i + 2 <= buf@.len(),
    ensures
        r == be16_val(buf@.subrange(i as int, i + 2)),
{
    // Binding the executable length tells the verifier the view's length
    // fits usize, so the index sums below cannot overflow.
    let n: usize = buf.len();
    let r = (buf[i] as u16) * 0x100 + (buf[i + 1] as u16);
    proof {
        let s = buf@.subrange(i as int, i + 2);
        assert(s[0] == buf@[i as int] && s[1] == buf@[i + 1]);
    }
    r
}

/// Reads a 32-bit big-endian value at `i`.
pub fn read_be32(buf: &Vec<u8>, i: usize) -> (r: u32)
    requires
        i + 4 <= buf@.len(),
    ensures
        r == be32_val(buf@.subrange(i as int, i + 4)),
{
    let n: usize = buf.len();
    let r = (buf[i] as u32) * 0x1000000 + (buf[i + 1] as u32) * 0x10000 + (buf[i + 2] as u32)
        * 0x100 + (buf[i + 3] as u32);
    proof {
        let s = buf@.subrange(i as int, i + 4);
        assert(s[0] == buf@[i as int] && s[1] == buf@[i + 1] && s[2] == buf@[i + 2] && s[3]
            == buf@[i + 3]);
    }
    r
}

/// Reads a 64-bit big-endian value at `i`.
pub fn read_be64(buf: &Vec<u8>, i: usize) -> (r: u64)
    requires
        i + 8 <= buf@.len(),
    ensures
        r == be64_val(buf@.subrange(i as int, i + 8)),
{
    let n: usize = buf.len();
    let hi = read_be32(buf, i);
    let lo = read_be32(buf, i + 4);
    let r = (hi as u64) * 0x100000000 + (lo as u64);
    proof {
        let s = buf@.subrange(i as int, i + 8);
        assert(s.subrange(0, 4) =~= buf@.subrange(i as int, i + 4));
        assert(s.subrange(4, 8) =~= buf@.subrange(i + 4, i + 8));
    }
    r
}

/// The ASCII decimal digits of `n`, most significant first.
pub open spec fn dec_bytes(n: nat) -> Seq<u8>
    decreases n,
{
    if n < 10 {
        seq![(0x30 + n) as u8]
    } else {
        dec_bytes(n / 10) + seq![(0x30 + n % 10) as u8]
    }
}

/// Appends the ASCII decimal rendering of `n`.
pub fn push_dec(buf: &mut Vec<u8>, n: u64)
    ensures
        final(buf)@ == old(buf)@ + dec_bytes(n as nat),
    decreases n,
{
    if n >= 10 {
        push_dec(buf, n / 10);
    }
    buf.push(0x30 + (n % 10) as u8);
    assert(final(buf)@ =~= old(buf)@ + dec_bytes(n as nat));
}

/// Appends the UTF-8 bytes of `s`.
pub fn push_str_bytes(buf: &mut Vec<u8>, s: &str)
    ensures
        final(buf)@ == old(buf)@ + s.spec_bytes(),
{
    buf.extend_from_slice(s.as_bytes());
}

/// Appends a copy of `other`.
pub fn push_bytes(buf: &mut Vec<u8>, other: &Vec<u8>)
    ensures
        final(buf)@ == old(buf)@ + other@,
{
    buf.extend_from_slice(other.as_slice());
}

/// Extracts `buf[from..to]` as a fresh vector.
pub fn sub_vec(buf: &Vec<u8>, from: usize, to: usize) -> (r: Vec<u8>)
    requires
        from <= to <= buf@.len(),
    ensures
        r@ == buf@.subrange(from as int, to as int),
{
    let mut r: Vec<u8> = Vec::new();
    let mut i: usize = from;
    while i < to
        invariant
            from <= i <= to <= buf@.len(),
            r@ == buf@.subrange(from as int, i as int),
        decreases to - i,
    {
        r.push(buf[i]);
        i = i + 1;
        assert(r@ =~= buf@.subrange(from as int, i as int));
    }
    r
}

/// The decimal digits of `n` as characters.
pub open spec fn dec_chars(n: nat) -> Seq<char> {
    dec_bytes(n).map_values(|b: u8| b as char)
}

/// Decimal digits are ASCII.
pub proof fn lemma_dec_bytes_ascii(n: nat)
    ensures
        forall|i: int| 0 <= i < dec_bytes(n).len() ==> dec_bytes(n)[i] < 128,
    decreases n,
{
    if n >= 10 {
        lemma_dec_bytes_ascii(n / 10);
        assert forall|i: int| 0 <= i < dec_bytes(n).len() implies dec_bytes(n)[i] < 128 by {
            if i < dec_bytes(n / 10).len() {
                assert(dec_bytes(n)[i] == dec_bytes(n / 10)[i]);
            }
        }
    }
}

/// A sequence of bytes below 128 is valid UTF-8 and decodes to itself,
/// character for byte.
pub proof fn lemma_ascii_bytes(s: Seq<u8>)
    requires
        forall|i: int| 0 <= i < s.len() ==> s[i] < 128,
    ensures
        vstd::utf8::valid_utf8(s),
        vstd::utf8::decode_utf8(s) == s.map_values(|b: u8| b as char),
{
    broadcast use vstd::utf8::char_u32_cast;

    let cs = s.map_values(|b: u8| b as char);
    assert(vstd::utf8::is_ascii_chars(cs)) by {
        assert forall|i: int| 0 <= i < cs.len() implies '\0' <= #[trigger] cs[i] <= '\u{7f}' by {
            assert(cs[i] == s[i] as char);
        }
    }
    vstd::utf8::is_ascii_chars_encode_utf8(cs);
    assert(vstd::utf8::encode_utf8(cs) =~= s) by {
        assert forall|i: int| 0 <= i < s.len() implies vstd::utf8::encode_utf8(cs)[i] == s[i] by {
            assert(cs[i] as u8 == vstd::utf8::encode_utf8(cs)[i]);
            assert(cs[i] == s[i] as char);
        }
    }
    vstd::utf8::encode_utf8_valid_utf8(cs);
    vstd::utf8::encode_utf8_decode_utf8(cs);
}

/// The decimal rendering of `n` as a `String`.
pub fn dec_string(n: u64) -> (r: String)
    ensures
        r@ == dec_chars(n as nat),
{
    let mut buf: Vec<u8> = Vec::new();
    push_dec(&mut buf, n);
    proof {
        lemma_dec_bytes_ascii(n as nat);
        lemma_ascii_bytes(buf@);
    }
    match string_from_utf8(buf) {
        Option::Some(s) => s,
        Option::None => vstd::pervasive::unreached(),
    }
}

/// Relies on String::from_utf8: succeeds exactly on valid UTF-8 input and
/// yields the characters the bytes encode.
#[verifier::external_body]
pub(crate) fn string_from_utf8(v: Vec<u8>) -> (r: Option<String>)
    ensures
        r is Some <==> vstd::utf8::valid_utf8(v@),
        r matches Some(s) ==> s@ == vstd::utf8::decode_utf8(v@),
{
    match String::from_utf8(v) {
        Ok(s) => Some(s),
        Err(_) => None,
    }
}

} // verus!
