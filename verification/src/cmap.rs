//! CMap-based Unicode mapping: a read-only map from 16-bit character codes
//! to Unicode characters, with a replacement-character fallback so that a
//! lookup always yields usable text.

use vstd::prelude::*;

verus! {

/// One entry of a CMap: a 16-bit character code and the characters it maps to.
#[derive(Debug)]
pub struct CMapEntry {
    pub code: u16,
    pub targets: Vec<char>,
}

/// A mapping from 16-bit character codes to Unicode characters, built once
/// per resource from parsed CMap data and read-only afterwards. When several
/// entries carry the same code, the first one wins.
#[derive(Debug)]
pub struct ToUnicodeCMap {
    pub entries: Vec<CMapEntry>,
}

impl View for CMapEntry {
    type V = (u16, Seq<char>);

    open spec fn view(&self) -> (u16, Seq<char>) {
        (self.code, self.targets@)
    }
}

impl View for ToUnicodeCMap {
    type V = Seq<(u16, Seq<char>)>;

    open spec fn view(&self) -> Seq<(u16, Seq<char>)> {
        self.entries@.map(|i: int, e: CMapEntry| e@)
    }
}

/// The characters the first entry with the given code maps to, if any.
pub open spec fn cmap_lookup(entries: Seq<(u16, Seq<char>)>, code: u16) -> Option<Seq<char>>
    decreases entries.len(),
{
    if entries.len() == 0 {
        None
    } else if entries[0].0 == code {
        Some(entries[0].1)
    } else {
        cmap_lookup(entries.drop_first(), code)
    }
}

/// What a lookup yields: the mapped characters, or the replacement character
/// when the map has no entry for the code.
pub open spec fn mapped_chars(entries: Seq<(u16, Seq<char>)>, code: u16) -> Seq<char> {
    match cmap_lookup(entries, code) {
        Some(cs) => cs,
        None => seq!['\u{FFFD}'],
    }
}

/// The text a sequence of character codes maps to: the lookups' results, in
/// order, concatenated.
pub open spec fn cmap_chars(entries: Seq<(u16, Seq<char>)>, codes: Seq<u16>) -> Seq<char>
    decreases codes.len(),
{
    if codes.len() == 0 {
        Seq::empty()
    } else {
        mapped_chars(entries, codes[0]) + cmap_chars(entries, codes.drop_first())
    }
}

/// The 16-bit character codes read big-endian from consecutive 2-byte chunks
/// of a byte sequence; an unpaired trailing byte is dropped.
pub open spec fn be_codes(bytes: Seq<u8>) -> Seq<u16>
    decreases bytes.len(),
{
    if bytes.len() < 2 {
        Seq::empty()
    } else {
        seq![(bytes[0] * 256 + bytes[1]) as u16] + be_codes(bytes.skip(2))
    }
}

/// Appending a character code appends exactly the characters its lookup
/// yields to the mapped text.
pub proof fn lemma_cmap_chars_push(entries: Seq<(u16, Seq<char>)>, codes: Seq<u16>, c: u16)
    ensures
        cmap_chars(entries, codes.push(c)) == cmap_chars(entries, codes) + mapped_chars(entries, c),
    decreases codes.len(),
{
    if codes.len() == 0 {
        let s = codes.push(c);
        assert(s.len() == 1);
        assert(s[0] == c);
        assert(s.drop_first() =~= Seq::<u16>::empty());
        assert(cmap_chars(entries, s.drop_first()) =~= Seq::<char>::empty());
        assert(cmap_chars(entries, s) == mapped_chars(entries, s[0]) + cmap_chars(
            entries,
            s.drop_first(),
        ));
        assert(cmap_chars(entries, s) =~= cmap_chars(entries, codes) + mapped_chars(entries, c));
    } else {
        assert(codes.push(c).drop_first() =~= codes.drop_first().push(c));
        lemma_cmap_chars_push(entries, codes.drop_first(), c);
        assert(cmap_chars(entries, codes.push(c)) =~= cmap_chars(entries, codes) + mapped_chars(
            entries,
            c,
        ));
    }
}

impl ToUnicodeCMap {
    /// The characters the given character code maps to, or the replacement
    /// character when the map has no entry for it.
    pub fn get_or_replacement_char(&self, code: u16) -> (r: Vec<char>)
        ensures
            r@ == mapped_chars(self@, code),
    {
        let n = self.entries.len();
        let mut i: usize = 0;
        proof {
            assert(self@.skip(0) =~= self@);
        }
        while i < n
            invariant
                n == self.entries@.len(),
                self@.len() == n,
                i <= n,
                cmap_lookup(self@, code) == cmap_lookup(self@.skip(i as int), code),
            decreases n - i,
        {
            proof {
                assert(self@.skip(i as int)[0] == self@[i as int]);
                assert(self@.skip(i as int).drop_first() =~= self@.skip(i + 1));
            }
            if self.entries[i].code == code {
                assert(cmap_lookup(self@, code) == Some(self@[i as int].1));
                let src = &self.entries[i].targets;
                let mut out: Vec<char> = Vec::new();
                let mut j: usize = 0;
                while j < src.len()
                    invariant
                        j <= src@.len(),
                        out@ == src@.take(j as int),
                    decreases src@.len() - j,
                {
                    out.push(src[j]);
                    proof {
                        assert(out@ =~= src@.take(j + 1));
                    }
                    j = j + 1;
                }
                proof {
                    assert(src@.take(src@.len() as int) =~= src@);
                }
                return out;
            }
            i = i + 1;
        }
        proof {
            assert(self@.skip(n as int) =~= Seq::<(u16, Seq<char>)>::empty());
        }
        let mut out: Vec<char> = Vec::new();
        out.push('\u{FFFD}');
        proof {
            assert(out@ =~= seq!['\u{FFFD}']);
        }
        out
    }
}

/// Splits a byte sequence into big-endian 16-bit character codes, dropping
/// an unpaired trailing byte.
pub fn bytes_to_codes(bytes: &[u8]) -> (r: Vec<u16>)
    ensures
        r@ == be_codes(bytes@),
{
    let n = bytes.len();
    let mut out: Vec<u16> = Vec::new();
    let mut i: usize = 0;
    proof {
        assert(bytes@.skip(0) =~= bytes@);
        assert(Seq::<u16>::empty() + be_codes(bytes@) =~= be_codes(bytes@));
    }
    while i + 1 < n
        invariant
            n == bytes@.len(),
            i <= n,
            i % 2 == 0,
            be_codes(bytes@) == out@ + be_codes(bytes@.skip(i as int)),
        decreases n - i,
    {
        let hi = bytes[i];
        let lo = bytes[i + 1];
        let code: u16 = (hi as u16) * 256 + (lo as u16);
        proof {
            assert(bytes@.skip(i as int)[0] == bytes@[i as int]);
            assert(bytes@.skip(i as int)[1] == bytes@[i + 1]);
            assert(bytes@.skip(i as int).skip(2) =~= bytes@.skip(i + 2));
            assert(be_codes(bytes@.skip(i as int)) == seq![code] + be_codes(bytes@.skip(i + 2)));
        }
        out.push(code);
        proof {
            assert(be_codes(bytes@) =~= out@ + be_codes(bytes@.skip(i + 2)));
        }
        i = i + 2;
    }
    proof {
        assert(be_codes(bytes@.skip(i as int)) =~= Seq::<u16>::empty());
        assert(out@ =~= be_codes(bytes@));
    }
    out
}

} // verus!
