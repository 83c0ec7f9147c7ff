//! Conversion between raw byte strings from a document's text-showing
//! operations and their Unicode text content: one-byte glyph tables, two
//! recognized big-endian two-byte named encodings, and a CMap-based mapping,
//! with the dispatch that selects among them.

pub mod cmap;
pub mod mappings;
pub mod utf16;

use vstd::prelude::*;

use crate::cmap::ToUnicodeCMap;
use crate::mappings::ByteToGlyphMap;

verus! {

/// The failures this layer signals: a decode dispatched on an encoding with
/// no known decode path, and an encode requested from the CMap strategy,
/// which does not support it.
#[derive(Debug, PartialEq, Eq, Structural)]
pub enum Error {
    ContentDecode,
    Unsupported,
}

/// Character-by-character equality of two string slices.
fn str_eq(a: &str, b: &str) -> (r: bool)
    ensures
        r == (a@ == b@),
{
    let na = a.unicode_len();
    let nb = b.unicode_len();
    if na != nb {
        return false;
    }
    let mut i: usize = 0;
    while i < na
        invariant
            na == a@.len(),
            na == b@.len(),
            i <= na,
            forall|j: int| 0 <= j < i ==> a@[j] == b@[j],
        decreases na - i,
    {
        if a.get_char(i) != b.get_char(i) {
            return false;
        }
        i = i + 1;
    }
    proof {
        assert(a@ =~= b@);
    }
    true
}

/// The two recognized named encodings, both treated as raw big-endian
/// two-byte Unicode text.
pub open spec fn recognized_simple(name: Seq<char>) -> bool {
    name == "UniGB-UCS2-H"@ || name == "UniGB-UTF16-H"@
}

fn is_recognized_simple(name: &str) -> (r: bool)
    ensures
        r == recognized_simple(name@),
{
    if str_eq(name, "UniGB-UCS2-H") {
        true
    } else {
        str_eq(name, "UniGB-UTF16-H")
    }
}

/// Decodes a byte sequence through a one-byte glyph table: each byte's code
/// unit is looked up, unmapped bytes are dropped, and the resulting unit
/// sequence is decoded as lossy UTF-16. Total; never fails; the output never
/// has more characters than the input has bytes.
pub fn bytes_to_string(encoding: &ByteToGlyphMap, bytes: &[u8]) -> (r: String)
    ensures
        r@ == utf16::utf16_lossy(mappings::glyph_units(encoding@, bytes@)),
        forall|t: Seq<char>|
            mappings::glyph_units(encoding@, bytes@) == utf16::utf16_units(t) ==> r@ == t,
        r@.len() <= bytes@.len(),
{
    proof {
        mappings::lemma_glyph_units_len(encoding@, bytes@);
    }
    let n = bytes.len();
    let mut units: Vec<u16> = Vec::new();
    let mut i: usize = 0;
    while i < n
        invariant
            n == bytes@.len(),
            i <= n,
            units@ == mappings::glyph_units(encoding@, bytes@.take(i as int)),
        decreases n - i,
    {
        if let Some(u) = encoding[bytes[i] as usize] {
            units.push(u);
        }
        proof {
            assert(bytes@.take(i + 1) =~= bytes@.take(i as int).push(bytes@[i as int]));
            mappings::lemma_glyph_units_push(encoding@, bytes@.take(i as int), bytes@[i as int]);
            assert(units@ =~= mappings::glyph_units(encoding@, bytes@.take(i + 1)));
        }
        i = i + 1;
    }
    proof {
        assert(bytes@.take(n as int) =~= bytes@);
    }
    utf16::from_utf16_lossy(units.as_slice())
}

/// Encodes text through a one-byte glyph table: each UTF-16 code unit of the
/// text becomes the lowest byte value the table maps to it, and units with no
/// matching byte are dropped. Total; never fails.
pub fn string_to_bytes(encoding: &ByteToGlyphMap, text: &str) -> (r: Vec<u8>)
    ensures
        r@ == mappings::glyph_bytes(encoding@, utf16::utf16_units(text@)),
{
    let units = utf16::encode_utf16_units(text);
    let n = units.len();
    let mut out: Vec<u8> = Vec::new();
    let mut i: usize = 0;
    while i < n
        invariant
            n == units@.len(),
            units@ == utf16::utf16_units(text@),
            i <= n,
            out@ == mappings::glyph_bytes(encoding@, units@.take(i as int)),
        decreases n - i,
    {
        if let Some(b) = mappings::find_glyph_byte(encoding, units[i]) {
            out.push(b);
        }
        proof {
            assert(units@.take(i + 1) =~= units@.take(i as int).push(units@[i as int]));
            mappings::lemma_glyph_bytes_push(encoding@, units@.take(i as int), units@[i as int]);
            assert(out@ =~= mappings::glyph_bytes(encoding@, units@.take(i + 1)));
        }
        i = i + 1;
    }
    proof {
        assert(units@.take(n as int) =~= units@);
    }
    out
}

/// The closed set of strategies an encoding resource selects from: exactly
/// one is active per instance.
#[derive(Debug)]
pub enum Encoding<'a> {
    /// A shared one-byte glyph table, owned by the font resource.
    OneByteEncoding(&'a ByteToGlyphMap),
    /// An encoding referenced by a fixed name; only the two recognized names
    /// have a decode path.
    SimpleEncoding(&'a str),
    /// A CMap built for the resource and owned by this instance.
    UnicodeMapEncoding(ToUnicodeCMap),
}

impl<'a> Encoding<'a> {
    /// Decodes a byte sequence under the active strategy. The one-byte,
    /// recognized-named and CMap strategies are total and lossy; only an
    /// unrecognized named encoding is rejected, with a content-decode error.
    pub fn bytes_to_string(&self, bytes: &[u8]) -> (r: Result<String, Error>)
        ensures
            match *self {
                Encoding::OneByteEncoding(map) => {
                    &&& r is Ok
                    &&& r->Ok_0@ == utf16::utf16_lossy(mappings::glyph_units(map@, bytes@))
                    &&& forall|t: Seq<char>|
                        mappings::glyph_units(map@, bytes@) == utf16::utf16_units(t)
                            ==> r->Ok_0@ == t
                    &&& r->Ok_0@.len() <= bytes@.len()
                },
                Encoding::SimpleEncoding(name) => {
                    if recognized_simple(name@) {
                        &&& r is Ok
                        &&& r->Ok_0@ == utf16::utf16be_lossy(bytes@)
                        &&& forall|t: Seq<char>|
                            bytes@ == utf16::be_bytes(utf16::utf16_units(t)) ==> r->Ok_0@ == t
                    } else {
                        &&& r is Err
                        &&& r->Err_0 == Error::ContentDecode
                    }
                },
                Encoding::UnicodeMapEncoding(unicode_map) => {
                    &&& r is Ok
                    &&& r->Ok_0@ == cmap::cmap_chars(unicode_map@, cmap::be_codes(bytes@))
                },
            },
    {
        match self {
            Encoding::OneByteEncoding(map) => Ok(bytes_to_string(map, bytes)),
            Encoding::SimpleEncoding(name) => {
                if is_recognized_simple(name) {
                    Ok(utf16::decode_utf16be(bytes))
                } else {
                    Err(Error::ContentDecode)
                }
            },
            Encoding::UnicodeMapEncoding(unicode_map) => {
                let codes = cmap::bytes_to_codes(bytes);
                let ncodes = codes.len();
                let ghost target = cmap::cmap_chars(unicode_map@, codes@);
                let mut chars: Vec<char> = Vec::new();
                let mut i: usize = 0;
                while i < ncodes
                    invariant
                        ncodes == codes@.len(),
                        i <= ncodes,
                        chars@ == cmap::cmap_chars(unicode_map@, codes@.take(i as int)),
                    decreases ncodes - i,
                {
                    let cs = unicode_map.get_or_replacement_char(codes[i]);
                    let ncs = cs.len();
                    let mut j: usize = 0;
                    while j < ncs
                        invariant
                            ncs == cs@.len(),
                            j <= ncs,
                            chars@ == cmap::cmap_chars(unicode_map@, codes@.take(i as int))
                                + cs@.take(j as int),
                        decreases ncs - j,
                    {
                        chars.push(cs[j]);
                        proof {
                            assert(cs@.take(j + 1) =~= cs@.take(j as int).push(cs@[j as int]));
                            assert(chars@ =~= cmap::cmap_chars(unicode_map@, codes@.take(i as int))
                                + cs@.take(j + 1));
                        }
                        j = j + 1;
                    }
                    proof {
                        assert(cs@.take(ncs as int) =~= cs@);
                        assert(codes@.take(i + 1) =~= codes@.take(i as int).push(codes@[i as int]));
                        cmap::lemma_cmap_chars_push(
                            unicode_map@,
                            codes@.take(i as int),
                            codes@[i as int],
                        );
                        assert(chars@ =~= cmap::cmap_chars(unicode_map@, codes@.take(i + 1)));
                    }
                    i = i + 1;
                }
                proof {
                    assert(codes@.take(ncodes as int) =~= codes@);
                }
                let nchars = chars.len();
                let mut units: Vec<u16> = Vec::new();
                let mut k: usize = 0;
                while k < nchars
                    invariant
                        nchars == chars@.len(),
                        k <= nchars,
                        chars@ == target,
                        units@ == utf16::utf16_units(chars@.take(k as int)),
                    decreases nchars - k,
                {
                    utf16::push_char_units(&mut units, chars[k]);
                    proof {
                        assert(chars@.take(k + 1) =~= chars@.take(k as int).push(chars@[k as int]));
                        utf16::lemma_utf16_units_push(chars@.take(k as int), chars@[k as int]);
                        assert(units@ =~= utf16::utf16_units(chars@.take(k + 1)));
                    }
                    k = k + 1;
                }
                proof {
                    assert(chars@.take(nchars as int) =~= chars@);
                }
                let buffer = utf16::units_to_be_bytes(&units);
                let text = utf16::decode_utf16be(buffer.as_slice());
                proof { assert(text@ == target); }
                Ok(text)
            },
        }
    }

    /// Encodes text under the active strategy: through the table for the
    /// one-byte strategy, as raw big-endian two-byte Unicode for a recognized
    /// name, and through the fixed default table for any other name. The
    /// CMap strategy does not support encoding and is rejected as such.
    pub fn string_to_bytes(&self, text: &str) -> (r: Result<Vec<u8>, Error>)
        ensures
            match *self {
                Encoding::OneByteEncoding(map) => {
                    &&& r is Ok
                    &&& r->Ok_0@ == mappings::glyph_bytes(map@, utf16::utf16_units(text@))
                },
                Encoding::SimpleEncoding(name) => {
                    if recognized_simple(name@) {
                        &&& r is Ok
                        &&& r->Ok_0@ == utf16::be_bytes(utf16::utf16_units(text@))
                    } else {
                        &&& r is Ok
                        &&& r->Ok_0@ == mappings::glyph_bytes(
                            mappings::standard_table(),
                            utf16::utf16_units(text@),
                        )
                    }
                },
                Encoding::UnicodeMapEncoding(unicode_map) => {
                    &&& r is Err
                    &&& r->Err_0 == Error::Unsupported
                },
            },
    {
        match self {
            Encoding::OneByteEncoding(map) => Ok(string_to_bytes(map, text)),
            Encoding::SimpleEncoding(name) => {
                if is_recognized_simple(name) {
                    let units = utf16::encode_utf16_units(text);
                    Ok(utf16::units_to_be_bytes(&units))
                } else {
                    let table = mappings::standard_encoding();
                    Ok(string_to_bytes(&table, text))
                }
            },
            Encoding::UnicodeMapEncoding(_unicode_map) => Err(Error::Unsupported),
        }
    }
}

} // verus!
