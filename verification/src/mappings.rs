//! One-byte glyph tables: a fixed 256-entry mapping from byte value to
//! optional UTF-16 code unit, with the lookup and reverse-lookup functions
//! the one-byte conversion routines are specified over.

use vstd::prelude::*;

verus! {

/// A fixed mapping from each byte value to an optional UTF-16 code unit.
pub type ByteToGlyphMap = [Option<u16>; 256];

/// The code units a byte sequence maps to under a table: each byte is looked
/// up, bytes with no mapping are dropped.
pub open spec fn glyph_units(table: Seq<Option<u16>>, bytes: Seq<u8>) -> Seq<u16>
    decreases bytes.len(),
{
    if bytes.len() == 0 {
        Seq::empty()
    } else {
        match table[bytes[0] as int] {
            Some(u) => seq![u] + glyph_units(table, bytes.drop_first()),
            None => glyph_units(table, bytes.drop_first()),
        }
    }
}

/// The first byte value at or above `i` whose table entry is the given unit.
pub open spec fn first_glyph_byte_from(table: Seq<Option<u16>>, unit: u16, i: int) -> Option<u8>
    recommends
        table.len() <= 256,
    decreases table.len() - i,
{
    if i < 0 || i >= table.len() {
        None
    } else if table[i] == Some(unit) {
        Some(i as u8)
    } else {
        first_glyph_byte_from(table, unit, i + 1)
    }
}

/// The lowest byte value whose table entry is the given unit, if any: when
/// several bytes share a code unit the lowest byte value wins.
pub open spec fn first_glyph_byte(table: Seq<Option<u16>>, unit: u16) -> Option<u8> {
    first_glyph_byte_from(table, unit, 0)
}

/// The bytes a unit sequence maps to under a table: each unit becomes the
/// lowest byte value mapped to it, units with no matching byte are dropped.
pub open spec fn glyph_bytes(table: Seq<Option<u16>>, units: Seq<u16>) -> Seq<u8>
    decreases units.len(),
{
    if units.len() == 0 {
        Seq::empty()
    } else {
        match first_glyph_byte(table, units[0]) {
            Some(b) => seq![b] + glyph_bytes(table, units.drop_first()),
            None => glyph_bytes(table, units.drop_first()),
        }
    }
}

/// The default table used as the encode fallback: it maps each byte in the
/// printable ASCII range to the code unit of the same value and leaves every
/// other byte unmapped.
pub open spec fn standard_table() -> Seq<Option<u16>> {
    Seq::new(256, |i: int| if 0x20 <= i <= 0x7E { Some(i as u16) } else { None })
}

/// Builds the default fallback table.
pub fn standard_encoding() -> (t: ByteToGlyphMap)
    ensures
        t@ == standard_table(),
{
    let mut t: ByteToGlyphMap = [None; 256];
    let mut i: usize = 0x20;
    while i <= 0x7E
        invariant
            0x20 <= i <= 0x7F,
            forall|j: int|
                0 <= j < 256 ==> t@[j] == (if 0x20 <= j < i {
                    Some(j as u16)
                } else {
                    None::<u16>
                }),
        decreases 0x7F - i,
    {
        t[i] = Some(i as u16);
        i = i + 1;
    }
    proof {
        assert(t@ =~= standard_table());
    }
    t
}

/// Scans a table for the lowest byte value mapped to the given unit.
pub fn find_glyph_byte(table: &ByteToGlyphMap, unit: u16) -> (r: Option<u8>)
    ensures
        r == first_glyph_byte(table@, unit),
{
    let mut k: usize = 0;
    while k < 256
        invariant
            k <= 256,
            first_glyph_byte(table@, unit) == first_glyph_byte_from(table@, unit, k as int),
        decreases 256 - k,
    {
        if let Some(u) = table[k] {
            if u == unit {
                assert(first_glyph_byte_from(table@, unit, k as int) == Some(k as u8));
                return Some(k as u8);
            }
        }
        assert(first_glyph_byte_from(table@, unit, k as int) == first_glyph_byte_from(
            table@,
            unit,
            k as int + 1,
        ));
        k = k + 1;
    }
    None
}

/// Appending a byte appends its mapped unit, or nothing, to the mapped units.
pub proof fn lemma_glyph_units_push(table: Seq<Option<u16>>, bytes: Seq<u8>, b: u8)
    ensures
        glyph_units(table, bytes.push(b)) == glyph_units(table, bytes) + (match table[b as int] {
            Some(u) => seq![u],
            None => Seq::<u16>::empty(),
        }),
    decreases bytes.len(),
{
    let tail = (match table[b as int] {
        Some(u) => seq![u],
        None => Seq::<u16>::empty(),
    });
    if bytes.len() == 0 {
        let s = bytes.push(b);
        assert(s.len() == 1);
        assert(s[0] == b);
        assert(s.drop_first() =~= Seq::<u8>::empty());
        assert(glyph_units(table, s.drop_first()) =~= Seq::<u16>::empty());
        assert(glyph_units(table, s) =~= glyph_units(table, bytes) + tail);
    } else {
        assert(bytes.push(b).drop_first() =~= bytes.drop_first().push(b));
        lemma_glyph_units_push(table, bytes.drop_first(), b);
        assert(glyph_units(table, bytes.push(b)) =~= glyph_units(table, bytes) + tail);
    }
}

/// Appending a unit appends its lowest mapped byte, or nothing, to the
/// encoded bytes.
pub proof fn lemma_glyph_bytes_push(table: Seq<Option<u16>>, units: Seq<u16>, x: u16)
    ensures
        glyph_bytes(table, units.push(x)) == glyph_bytes(table, units) + (match first_glyph_byte(
            table,
            x,
        ) {
            Some(b) => seq![b],
            None => Seq::<u8>::empty(),
        }),
    decreases units.len(),
{
    let tail = (match first_glyph_byte(table, x) {
        Some(b) => seq![b],
        None => Seq::<u8>::empty(),
    });
    if units.len() == 0 {
        let s = units.push(x);
        assert(s.len() == 1);
        assert(s[0] == x);
        assert(s.drop_first() =~= Seq::<u16>::empty());
        assert(glyph_bytes(table, s.drop_first()) =~= Seq::<u8>::empty());
        assert(glyph_bytes(table, s) =~= glyph_bytes(table, units) + tail);
    } else {
        assert(units.push(x).drop_first() =~= units.drop_first().push(x));
        lemma_glyph_bytes_push(table, units.drop_first(), x);
        assert(glyph_bytes(table, units.push(x)) =~= glyph_bytes(table, units) + tail);
    }
}

/// A table lookup yields at most one unit per byte, so the mapped units are
/// never more numerous than the bytes.
pub proof fn lemma_glyph_units_len(table: Seq<Option<u16>>, bytes: Seq<u8>)
    ensures
        glyph_units(table, bytes).len() <= bytes.len(),
    decreases bytes.len(),
{
    if bytes.len() > 0 {
        lemma_glyph_units_len(table, bytes.drop_first());
    }
}

/// A successful reverse lookup really finds the unit: the byte it returns is
/// at or above the scan start and its table entry is the unit.
pub proof fn lemma_first_glyph_byte_from_some(
    table: Seq<Option<u16>>,
    unit: u16,
    i: int,
    b: u8,
)
    requires
        table.len() <= 256,
        first_glyph_byte_from(table, unit, i) == Some(b),
    ensures
        i <= b < table.len(),
        table[b as int] == Some(unit),
    decreases table.len() - i,
{
    if i < 0 || i >= table.len() {
    } else if table[i] == Some(unit) {
    } else {
        lemma_first_glyph_byte_from_some(table, unit, i + 1, b);
    }
}

/// Mapping a unit sequence to bytes and the bytes back to units recovers the
/// sequence, provided every unit has a matching byte: the byte chosen for a
/// unit always maps back to that unit.
pub proof fn lemma_glyph_unit_round_trip(table: Seq<Option<u16>>, units: Seq<u16>)
    requires
        table.len() == 256,
        forall|k: int| 0 <= k < units.len() ==> first_glyph_byte(table, #[trigger] units[k]) is Some,
    ensures
        glyph_units(table, glyph_bytes(table, units)) == units,
    decreases units.len(),
{
    if units.len() == 0 {
        assert(glyph_bytes(table, units) =~= Seq::<u8>::empty());
        assert(glyph_units(table, glyph_bytes(table, units)) =~= units);
    } else {
        let u = units[0];
        let b = first_glyph_byte(table, u)->Some_0;
        lemma_first_glyph_byte_from_some(table, u, 0, b);
        let rest = units.drop_first();
        assert(forall|k: int| 0 <= k < rest.len() ==> rest[k] == units[k + 1]);
        lemma_glyph_unit_round_trip(table, rest);
        let bs = glyph_bytes(table, units);
        assert(bs == seq![b] + glyph_bytes(table, rest));
        assert(bs[0] == b);
        assert(bs.drop_first() =~= glyph_bytes(table, rest));
        assert(glyph_units(table, bs) == seq![u] + glyph_units(table, bs.drop_first()));
        assert(glyph_units(table, glyph_bytes(table, units)) =~= units);
    }
}

/// For a glyph table with no unmapped byte and no two bytes sharing a code
/// unit, encoding a text whose code units all appear in the table and mapping
/// the resulting bytes back through the table yields exactly the text's code
/// unit sequence, so decoding those units reproduces the text.
pub proof fn lemma_one_byte_round_trip(table: Seq<Option<u16>>, text: Seq<char>)
    requires
        table.len() == 256,
        forall|i: int| 0 <= i < 256 ==> table[i] is Some,
        forall|i: int, j: int| 0 <= i < j < 256 ==> table[i] != table[j],
        forall|k: int|
            0 <= k < crate::utf16::utf16_units(text).len() ==> first_glyph_byte(
                table,
                #[trigger] crate::utf16::utf16_units(text)[k],
            ) is Some,
    ensures
        glyph_units(table, glyph_bytes(table, crate::utf16::utf16_units(text)))
            == crate::utf16::utf16_units(text),
{
    lemma_glyph_unit_round_trip(table, crate::utf16::utf16_units(text));
}

} // verus!
