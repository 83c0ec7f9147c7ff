//! UTF-16 code-unit modeling: the unit sequence of a text, its big-endian
//! byte serialization, and the lossy decodings used by the decode paths.

use vstd::prelude::*;

verus! {

/// The UTF-16 code units of a single character: one unit for a value in the
/// basic multilingual plane, a surrogate pair for anything above it.
pub open spec fn char_utf16_units(c: char) -> Seq<u16> {
    if (c as u32) < 0x10000 {
        seq![c as u16]
    } else {
        let v = (c as u32) - 0x10000;
        seq![(0xD800 + v / 0x400) as u16, (0xDC00 + v % 0x400) as u16]
    }
}

/// The UTF-16 code units of a character sequence, in order.
pub open spec fn utf16_units(t: Seq<char>) -> Seq<u16>
    decreases t.len(),
{
    if t.len() == 0 {
        Seq::empty()
    } else {
        char_utf16_units(t[0]) + utf16_units(t.drop_first())
    }
}

/// The big-endian serialization of a sequence of 16-bit units.
pub open spec fn be_bytes(units: Seq<u16>) -> Seq<u8>
    decreases units.len(),
{
    if units.len() == 0 {
        Seq::empty()
    } else {
        seq![(units[0] / 256) as u8, (units[0] % 256) as u8] + be_bytes(units.drop_first())
    }
}

/// The text that lossy UTF-16 decoding assigns to a unit sequence: unpaired
/// surrogates become the replacement character, everything else round-trips.
pub uninterp spec fn utf16_lossy(units: Seq<u16>) -> Seq<char>;

/// The text that lossy big-endian UTF-16 decoding assigns to a byte sequence:
/// bytes are paired big-endian, a trailing odd byte and unpaired surrogates
/// become the replacement character.
pub uninterp spec fn utf16be_lossy(bytes: Seq<u8>) -> Seq<char>;

/// Appending a character to a text appends exactly its code units to the
/// text's unit sequence.
pub proof fn lemma_utf16_units_push(t: Seq<char>, c: char)
    ensures
        utf16_units(t.push(c)) == utf16_units(t) + char_utf16_units(c),
    decreases t.len(),
{
    if t.len() == 0 {
        let s = t.push(c);
        assert(s.len() == 1);
        assert(s[0] == c);
        assert(s.drop_first() =~= Seq::<char>::empty());
        assert(utf16_units(s.drop_first()) =~= Seq::<u16>::empty());
        assert(utf16_units(s) == char_utf16_units(s[0]) + utf16_units(s.drop_first()));
        assert(utf16_units(s) =~= char_utf16_units(c));
        assert(utf16_units(t) + char_utf16_units(c) =~= char_utf16_units(c));
    } else {
        assert(t.push(c).drop_first() =~= t.drop_first().push(c));
        lemma_utf16_units_push(t.drop_first(), c);
        assert(utf16_units(t.push(c)) =~= utf16_units(t) + char_utf16_units(c));
    }
}

/// Appending a unit to a unit sequence appends exactly its two big-endian
/// bytes to the serialization.
pub proof fn lemma_be_bytes_push(units: Seq<u16>, x: u16)
    ensures
        be_bytes(units.push(x)) == be_bytes(units) + seq![(x / 256) as u8, (x % 256) as u8],
    decreases units.len(),
{
    if units.len() == 0 {
        let s = units.push(x);
        assert(s.len() == 1);
        assert(s[0] == x);
        assert(s.drop_first() =~= Seq::<u16>::empty());
        assert(be_bytes(s.drop_first()) =~= Seq::<u8>::empty());
        assert(be_bytes(s) == seq![(s[0] / 256) as u8, (s[0] % 256) as u8] + be_bytes(
            s.drop_first(),
        ));
        assert(be_bytes(s) =~= seq![(x / 256) as u8, (x % 256) as u8]);
        assert(be_bytes(units) + seq![(x / 256) as u8, (x % 256) as u8] =~= seq![
            (x / 256) as u8,
            (x % 256) as u8,
        ]);
    } else {
        assert(units.push(x).drop_first() =~= units.drop_first().push(x));
        lemma_be_bytes_push(units.drop_first(), x);
        assert(be_bytes(units.push(x)) =~= be_bytes(units) + seq![
            (x / 256) as u8,
            (x % 256) as u8,
        ]);
    }
}

/// The UTF-16 code units of a text, computed character by character.
pub fn encode_utf16_units(text: &str) -> (r: Vec<u16>)
    ensures
        r@ == utf16_units(text@),
{
    let n = text.unicode_len();
    let mut out: Vec<u16> = Vec::new();
    let mut i: usize = 0;
    while i < n
        invariant
            n == text@.len(),
            i <= n,
            out@ == utf16_units(text@.take(i as int)),
        decreases n - i,
    {
        let c = text.get_char(i);
        let u = c as u32;
        proof {
            vstd::utf8::char_is_scalar(c);
        }
        if u < 0x10000 {
            out.push(u as u16);
        } else {
            let v = u - 0x10000;
            out.push((0xD800 + v / 0x400) as u16);
            out.push((0xDC00 + v % 0x400) as u16);
        }
        proof {
            assert(text@.take(i + 1) =~= text@.take(i as int).push(text@[i as int]));
            lemma_utf16_units_push(text@.take(i as int), text@[i as int]);
            assert(out@ =~= utf16_units(text@.take(i + 1)));
        }
        i = i + 1;
    }
    proof {
        assert(text@.take(n as int) =~= text@);
    }
    out
}

/// Appends the UTF-16 code units of one character.
pub fn push_char_units(out: &mut Vec<u16>, c: char)
    ensures
        final(out)@ == old(out)@ + char_utf16_units(c),
{
    let u = c as u32;
    proof {
        vstd::utf8::char_is_scalar(c);
    }
    if u < 0x10000 {
        out.push(u as u16);
    } else {
        let v = u - 0x10000;
        out.push((0xD800 + v / 0x400) as u16);
        out.push((0xDC00 + v % 0x400) as u16);
    }
    proof {
        assert(out@ =~= old(out)@ + char_utf16_units(c));
    }
}

/// The big-endian serialization of a unit sequence, two bytes per unit.
pub fn units_to_be_bytes(units: &Vec<u16>) -> (r: Vec<u8>)
    ensures
        r@ == be_bytes(units@),
{
    let mut out: Vec<u8> = Vec::new();
    let mut i: usize = 0;
    while i < units.len()
        invariant
            i <= units@.len(),
            out@ == be_bytes(units@.take(i as int)),
        decreases units@.len() - i,
    {
        let x = units[i];
        out.push((x / 256) as u8);
        out.push((x % 256) as u8);
        proof {
            assert(units@.take(i + 1) =~= units@.take(i as int).push(units@[i as int]));
            lemma_be_bytes_push(units@.take(i as int), units@[i as int]);
            assert(out@ =~= be_bytes(units@.take(i + 1)));
        }
        i = i + 1;
    }
    proof {
        assert(units@.take(units@.len() as int) =~= units@);
    }
    out
}

/// Relies on `String::from_utf16_lossy`: it decodes a UTF-16 unit slice,
/// replacing invalid data with the replacement character, so its result is a
/// function of the units alone, each unit yields at most one character, and
/// on the exact unit sequence of a text it returns that text.
#[verifier::external_body]
pub fn from_utf16_lossy(units: &[u16]) -> (r: String)
    ensures
        r@ == utf16_lossy(units@),
        forall|t: Seq<char>| units@ == utf16_units(t) ==> r@ == t,
        r@.len() <= units@.len(),
{
    String::from_utf16_lossy(units)
}

/// Relies on `encoding_rs::UTF_16BE::decode_without_bom_handling`: it decodes
/// the whole buffer as big-endian UTF-16 with malformed sequences replaced by
/// the replacement character, so its result is a function of the bytes alone,
/// and on the exact big-endian serialization of a text's units it returns
/// that text. Its internal buffer-size arithmetic cannot overflow for any
/// slice length a Rust program can hold.
#[verifier::external_body]
pub fn decode_utf16be(bytes: &[u8]) -> (r: String)
    ensures
        r@ == utf16be_lossy(bytes@),
        forall|t: Seq<char>| bytes@ == be_bytes(utf16_units(t)) ==> r@ == t,
        bytes@.len() == 0 ==> r@.len() == 0,
{
    let (cow, _had_errors) = encoding_rs::UTF_16BE.decode_without_bom_handling(bytes);
    cow.into_owned()
}

} // verus!
