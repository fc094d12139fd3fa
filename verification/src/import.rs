//! Import of plant lists from tab-separated text: a verified parser whose
//! result is pinned to a mathematical reading of the text, and the store
//! import built on it.

use vstd::prelude::*;

use crate::error::StoreError;
use crate::models::Plant;
use crate::order::lemma_filter_push;
use crate::periods::{PeriodMask, slot_set};
use crate::plants::create_plant;
use crate::storage::{db_activities, db_photos, db_plants, db_version};

verus! {

broadcast use vstd::string::group_string_axioms;

/// The least index of the character in the sequence, or -1 if it is absent.
pub open spec fn find_char(s: Seq<char>, c: char) -> int
    decreases s.len(),
{
    if s.len() == 0 {
        -1
    } else if s[0] == c {
        0
    } else {
        let r = find_char(s.drop_first(), c);
        if r < 0 {
            -1
        } else {
            r + 1
        }
    }
}

/// `find_char` names the first occurrence: in range, the separator there,
/// none before it; -1 exactly when the character is absent.
pub proof fn lemma_find_char(s: Seq<char>, c: char)
    ensures
        -1 <= find_char(s, c) < s.len(),
        find_char(s, c) >= 0 ==> s[find_char(s, c)] == c,
        forall|j: int| 0 <= j < s.len() && (find_char(s, c) < 0 || j < find_char(s, c)) ==> s[j]
            != c,
    decreases s.len(),
{
    if s.len() > 0 && s[0] != c {
        lemma_find_char(s.drop_first(), c);
        assert forall|j: int|
            0 <= j < s.len() && (find_char(s, c) < 0 || j < find_char(s, c)) implies s[j] != c by {
            if j > 0 {
                assert(s.drop_first()[j - 1] == s[j]);
            }
        }
    }
}

/// The sequence split at every occurrence of the separator: one piece more
/// than there are separators, each piece free of it, in order.
pub open spec fn split_char(s: Seq<char>, sep: char) -> Seq<Seq<char>>
    decreases s.len(),
{
    if s.len() == 0 {
        seq![s]
    } else if s[0] == sep {
        seq![Seq::empty()] + split_char(s.drop_first(), sep)
    } else {
        let rest = split_char(s.drop_first(), sep);
        seq![seq![s[0]] + rest[0]] + rest.skip(1)
    }
}

/// Splitting yields at least one piece.
pub proof fn lemma_split_char_len(s: Seq<char>, sep: char)
    ensures
        split_char(s, sep).len() >= 1,
    decreases s.len(),
{
    if s.len() > 0 {
        lemma_split_char_len(s.drop_first(), sep);
    }
}

/// Splitting takes everything up to the first separator as the first piece
/// and splits the remainder; with no separator, the one piece is the whole.
pub proof fn lemma_split_char_head(s: Seq<char>, sep: char)
    ensures
        find_char(s, sep) < 0 ==> split_char(s, sep) == seq![s],
        find_char(s, sep) >= 0 ==> split_char(s, sep) == seq![s.take(find_char(s, sep))]
            + split_char(s.skip(find_char(s, sep) + 1), sep),
    decreases s.len(),
{
    lemma_find_char(s, sep);
    if s.len() == 0 {
    } else if s[0] == sep {
        assert(s.take(0) =~= Seq::<char>::empty());
        assert(s.skip(1) =~= s.drop_first());
        assert(split_char(s, sep) =~= seq![s.take(0)] + split_char(s.skip(1), sep));
    } else {
        let rest = s.drop_first();
        lemma_split_char_head(rest, sep);
        lemma_split_char_len(rest, sep);
        let fr = find_char(rest, sep);
        let f = find_char(s, sep);
        if fr < 0 {
            assert(f < 0);
            assert(split_char(rest, sep) == seq![rest]);
            assert(seq![s[0]] + rest =~= s);
            assert(split_char(rest, sep).skip(1) =~= Seq::<Seq<char>>::empty());
            assert(split_char(s, sep) =~= seq![s]);
        } else {
            assert(f == fr + 1);
            let sr = split_char(rest, sep);
            assert(sr == seq![rest.take(fr)] + split_char(rest.skip(fr + 1), sep));
            assert(sr[0] == rest.take(fr));
            assert(seq![s[0]] + rest.take(fr) =~= s.take(f));
            assert(sr.skip(1) =~= split_char(rest.skip(fr + 1), sep));
            assert(rest.skip(fr + 1) =~= s.skip(f + 1));
            assert(split_char(s, sep) =~= seq![s.take(f)] + split_char(s.skip(f + 1), sep));
        }
    }
}

/// A line with a trailing carriage return loses it.
pub open spec fn strip_cr(s: Seq<char>) -> Seq<char> {
    if s.len() > 0 && s.last() == '\r' {
        s.drop_last()
    } else {
        s
    }
}

/// The lines of a text: split at every line feed, trailing carriage returns
/// stripped. A trailing line feed yields a final empty line, which no row
/// ever comes from.
pub open spec fn lines_of(text: Seq<char>) -> Seq<Seq<char>> {
    split_char(text, '\n').map_values(|l: Seq<char>| strip_cr(l))
}

/// Whether a character counts as trimmable whitespace: the Unicode
/// white-space code points, the set `str::trim` removes.
pub open spec fn is_space(c: char) -> bool {
    let u = c as u32;
    ||| 0x09 <= u <= 0x0D
    ||| u == 0x20
    ||| u == 0x85
    ||| u == 0xA0
    ||| u == 0x1680
    ||| 0x2000 <= u <= 0x200A
    ||| u == 0x2028
    ||| u == 0x2029
    ||| u == 0x202F
    ||| u == 0x205F
    ||| u == 0x3000
}

/// The sequence with leading and trailing whitespace removed.
pub open spec fn trim_of(s: Seq<char>) -> Seq<char>
    decreases s.len(),
{
    if s.len() == 0 {
        s
    } else if is_space(s[0]) {
        trim_of(s.drop_first())
    } else if is_space(s.last()) {
        trim_of(s.drop_last())
    } else {
        s
    }
}

/// The characters of a text, in order.
fn text_chars(s: &str) -> (r: Vec<char>)
    ensures
        r@ == s@,
{
    let mut it = s.chars();
    let mut out: Vec<char> = Vec::new();
    loop
        invariant
            out@ + vstd::std_specs::iter::IteratorSpec::remaining(&it) == s@,
            vstd::std_specs::iter::IteratorSpec::obeys_prophetic_iter_laws(&it),
        decreases s@.len() - out@.len(),
    {
        match it.next() {
            Some(c) => {
                out.push(c);
            },
            None => {
                proof {
                    assert(out@ =~= s@);
                }
                return out;
            },
        }
    }
}

/// The pieces of `cs[start..end]` split at the separator, as index ranges:
/// range `c` delimits piece `c` of the split.
fn split_ranges(cs: &Vec<char>, start: usize, end: usize, sep: char) -> (r: Vec<(usize, usize)>)
    requires
        start <= end <= cs@.len(),
    ensures
        ({
            let cols = split_char(cs@.subrange(start as int, end as int), sep);
            &&& r@.len() == cols.len()
            &&& forall|c: int|
                0 <= c < cols.len() ==> start <= #[trigger] r@[c].0 <= r@[c].1 <= end
                    && cs@.subrange(r@[c].0 as int, r@[c].1 as int) == cols[c]
        }),
{
    let ghost line = cs@.subrange(start as int, end as int);
    let ghost cols = split_char(line, sep);
    let mut r: Vec<(usize, usize)> = Vec::new();
    let mut pos: usize = start;
    let mut j: usize = start;
    proof {
        lemma_split_char_len(line, sep);
    }
    loop
        invariant
            start <= pos <= j <= end <= cs@.len(),
            line == cs@.subrange(start as int, end as int),
            cols == split_char(line, sep),
            cols =~= r@.map_values(
                |t: (usize, usize)| cs@.subrange(t.0 as int, t.1 as int),
            ) + split_char(cs@.subrange(pos as int, end as int), sep),
            forall|c: int|
                0 <= c < r@.len() ==> start <= #[trigger] r@[c].0 <= r@[c].1 <= end
                    && cs@.subrange(r@[c].0 as int, r@[c].1 as int) == cols[c],
            forall|t: int| pos <= t < j ==> cs@[t] != sep,
        decreases end - j,
    {
        let ghost suffix = cs@.subrange(pos as int, end as int);
        proof {
            lemma_find_char(suffix, sep);
            lemma_split_char_head(suffix, sep);
            lemma_split_char_len(suffix, sep);
        }
        if j == end {
            proof {
                assert forall|t: int| 0 <= t < suffix.len() implies suffix[t] != sep by {
                    assert(suffix[t] == cs@[pos + t]);
                }
                assert(find_char(suffix, sep) < 0);
                assert(split_char(suffix, sep) == seq![suffix]);
            }
            r.push((pos, end));
            proof {
                let m = r@.map_values(|t: (usize, usize)| cs@.subrange(t.0 as int, t.1 as int));
                assert(m =~= m.subrange(0, m.len() - 1).push(suffix));
                assert(cols =~= m);
                assert(cols[r@.len() - 1] == suffix);
            }
            return r;
        }
        if cs[j] == sep {
            proof {
                assert forall|t: int|
                    0 <= t < suffix.len() && t < j - pos implies suffix[t] != sep by {
                    assert(suffix[t] == cs@[pos + t]);
                }
                assert(suffix[j - pos] == sep);
                assert(find_char(suffix, sep) == j - pos) by {
                    if find_char(suffix, sep) < j - pos {
                        assert(suffix[find_char(suffix, sep)] == sep);
                    }
                }
                assert(suffix.take(j - pos) =~= cs@.subrange(pos as int, j as int));
                assert(suffix.skip(j - pos + 1) =~= cs@.subrange(j + 1, end as int));
            }
            r.push((pos, j));
            proof {
                let m = r@.map_values(|t: (usize, usize)| cs@.subrange(t.0 as int, t.1 as int));
                let m0 = r@.subrange(0, r@.len() - 1).map_values(
                    |t: (usize, usize)| cs@.subrange(t.0 as int, t.1 as int),
                );
                assert(m =~= m0.push(cs@.subrange(pos as int, j as int)));
                assert(cols =~= m + split_char(cs@.subrange(j + 1, end as int), sep));
                assert(cols[r@.len() - 1] == cs@.subrange(pos as int, j as int));
            }
            pos = j + 1;
            j = pos;
        } else {
            j = j + 1;
        }
    }
}

/// Whether a character counts as trimmable whitespace.
fn is_space_char(c: char) -> (r: bool)
    ensures
        r == is_space(c),
{
    let u = c as u32;
    (0x09 <= u && u <= 0x0D) || u == 0x20 || u == 0x85 || u == 0xA0 || u == 0x1680 || (0x2000 <= u
        && u <= 0x200A) || u == 0x2028 || u == 0x2029 || u == 0x202F || u == 0x205F || u == 0x3000
}

/// The subrange of `cs[a..b]` left when whitespace is trimmed off both ends.
fn trim_range(cs: &Vec<char>, a: usize, b: usize) -> (r: (usize, usize))
    requires
        a <= b <= cs@.len(),
    ensures
        a <= r.0 <= r.1 <= b,
        cs@.subrange(r.0 as int, r.1 as int) == trim_of(cs@.subrange(a as int, b as int)),
{
    let mut x = a;
    let mut y = b;
    while x < y && is_space_char(cs[x])
        invariant
            a <= x <= y <= b <= cs@.len(),
            trim_of(cs@.subrange(x as int, y as int)) == trim_of(
                cs@.subrange(a as int, b as int),
            ),
        decreases y - x,
    {
        proof {
            assert(cs@.subrange(x as int, y as int).drop_first() =~= cs@.subrange(
                x + 1,
                y as int,
            ));
        }
        x = x + 1;
    }
    while y > x && is_space_char(cs[y - 1])
        invariant
            a <= x <= y <= b <= cs@.len(),
            x == y || !is_space(cs@[x as int]),
            trim_of(cs@.subrange(x as int, y as int)) == trim_of(
                cs@.subrange(a as int, b as int),
            ),
        decreases y - x,
    {
        proof {
            let seg = cs@.subrange(x as int, y as int);
            assert(seg[0] == cs@[x as int]);
            assert(seg.last() == cs@[y - 1]);
            assert(seg.drop_last() =~= cs@.subrange(x as int, y - 1));
        }
        y = y - 1;
    }
    proof {
        let seg = cs@.subrange(x as int, y as int);
        if x < y {
            assert(seg[0] == cs@[x as int]);
            assert(seg.last() == cs@[y - 1]);
            assert(trim_of(seg) == seg);
        }
    }
    (x, y)
}

/// Whether `cs[a..b]` holds the character.
fn range_contains(cs: &Vec<char>, a: usize, b: usize, ch: char) -> (r: bool)
    requires
        a <= b <= cs@.len(),
    ensures
        r == cs@.subrange(a as int, b as int).contains(ch),
{
    let ghost seg = cs@.subrange(a as int, b as int);
    let mut j = a;
    while j < b
        invariant
            a <= j <= b <= cs@.len(),
            seg == cs@.subrange(a as int, b as int),
            forall|t: int| 0 <= t < j - a ==> seg[t] != ch,
        decreases b - j,
    {
        if cs[j] == ch {
            proof {
                assert(seg[j - a] == ch);
            }
            return true;
        }
        proof {
            assert(seg[j - a] == cs@[j as int]);
        }
        j = j + 1;
    }
    proof {
        if seg.contains(ch) {
            let t = choose|t: int| 0 <= t < seg.len() && seg[t] == ch;
            assert(false);
        }
    }
    false
}

/// Decode one import cell: the sow marker is an upper-case Z, the plant
/// marker an upper-case P; either, both, or neither may appear anywhere in
/// the cell, case-sensitively.
pub fn decode_import_cell(cell: &str) -> (r: (bool, bool))
    ensures
        r.0 == cell@.contains('Z'),
        r.1 == cell@.contains('P'),
{
    let cs = text_chars(cell);
    let n = cs.len();
    proof {
        assert(cs@.subrange(0, cs@.len() as int) =~= cell@);
    }
    let sow = range_contains(&cs, 0, n, 'Z');
    let plant = range_contains(&cs, 0, n, 'P');
    (sow, plant)
}

/// Whether the cell for the given slot, column `slot + 1` of the row, holds
/// the marker; a missing column holds nothing.
pub open spec fn cell_marked(cols: Seq<Seq<char>>, slot: int, marker: char) -> bool {
    slot + 1 < cols.len() && cols[slot + 1].contains(marker)
}

/// The mask over the first `n` slots: bit `s` is set exactly when the cell
/// for slot `s` holds the marker.
pub open spec fn mask_from_cols(cols: Seq<Seq<char>>, marker: char, n: nat) -> u32
    recommends
        n <= 24,
    decreases n,
{
    if n == 0 {
        0u32
    } else {
        mask_from_cols(cols, marker, (n - 1) as nat) | (if cell_marked(cols, n - 1, marker) {
            1u32 << ((n - 1) as u32)
        } else {
            0u32
        })
    }
}

/// Bit `t` of the mask over `n` slots is set exactly when `t` names one of
/// those slots and its cell holds the marker; the mask stays inside 24 bits.
pub proof fn lemma_mask_from_cols(cols: Seq<Seq<char>>, marker: char, n: nat)
    requires
        n <= 24,
    ensures
        mask_from_cols(cols, marker, n) < 0x1000000,
        forall|t: u32|
            t < 24 ==> (#[trigger] slot_set(mask_from_cols(cols, marker, n), t) <==> (t < n
                && cell_marked(cols, t as int, marker))),
    decreases n,
{
    if n == 0 {
        assert forall|t: u32| #![trigger slot_set(mask_from_cols(cols, marker, n), t)]
        t < 24 implies !slot_set(mask_from_cols(cols, marker, n), t) by {
            assert(mask_from_cols(cols, marker, n) == 0u32);
            assert(0u32 & (1u32 << t) == 0) by (bit_vector);
            assert(!slot_set(0u32, t));
        }
    } else {
        let n1 = (n - 1) as nat;
        lemma_mask_from_cols(cols, marker, n1);
        let a = mask_from_cols(cols, marker, n1);
        let m = (n - 1) as u32;
        let marked = cell_marked(cols, n - 1, marker);
        let b: u32 = if marked {
            1u32 << m
        } else {
            0u32
        };
        assert(mask_from_cols(cols, marker, n) == a | b);
        assert(a < 0x1000000);
        assert(m < 24);
        assert(a < 0x1000000 && m < 24 ==> (a | (1u32 << m)) < 0x1000000) by (bit_vector);
        assert(a < 0x1000000 ==> (a | 0u32) < 0x1000000) by (bit_vector);
        assert(a | b < 0x1000000);
        assert forall|t: u32| #![trigger slot_set(mask_from_cols(cols, marker, n), t)]
        t < 24 implies (slot_set(mask_from_cols(cols, marker, n), t) <==> (t < n && cell_marked(
            cols,
            t as int,
            marker,
        ))) by {
            assert(mask_from_cols(cols, marker, n) == a | b);
            assert(slot_set(a, t) <==> (t < n1 && cell_marked(cols, t as int, marker)));
            assert(m < 24 && t < 24 ==> (((a | (1u32 << m)) & (1u32 << t) != 0) <==> (t == m || (a
                & (1u32 << t) != 0)))) by (bit_vector);
            assert((a | 0u32) == a) by (bit_vector);
            assert(slot_set(a | b, t) <==> (t < n && cell_marked(cols, t as int, marker)));
        }
    }
}

/// The content of one parsed import row: a trimmed, non-empty name and the
/// two period masks the marker cells give.
pub struct ImportRowData {
    pub name: Seq<char>,
    pub sow_periods: u32,
    pub plant_periods: u32,
}

/// The columns of a row: its line split at every tab.
pub open spec fn line_cols(line: Seq<char>) -> Seq<Seq<char>> {
    split_char(line, '\t')
}

/// The name a row gives: its first column, trimmed.
pub open spec fn line_name(line: Seq<char>) -> Seq<char> {
    trim_of(line_cols(line)[0])
}

/// A row is imported exactly when its name is non-empty.
pub open spec fn line_valid(line: Seq<char>) -> bool {
    line_name(line).len() > 0
}

/// `line_valid`, as a predicate value.
pub open spec fn line_valid_fn() -> spec_fn(Seq<char>) -> bool {
    |l: Seq<char>| line_valid(l)
}

/// The row a valid line yields: its name and the two masks over its 24 slot
/// columns.
pub open spec fn row_of_line(line: Seq<char>) -> ImportRowData {
    ImportRowData {
        name: line_name(line),
        sow_periods: mask_from_cols(line_cols(line), 'Z', 24),
        plant_periods: mask_from_cols(line_cols(line), 'P', 24),
    }
}

/// `row_of_line`, as a function value.
pub open spec fn row_of_line_fn() -> spec_fn(Seq<char>) -> ImportRowData {
    |l: Seq<char>| row_of_line(l)
}

/// The rows a delimited text yields: every line after the header whose first
/// column is non-empty after trimming, in order.
pub open spec fn parsed_rows(text: Seq<char>) -> Seq<ImportRowData> {
    lines_of(text).skip(1).filter(line_valid_fn()).map_values(row_of_line_fn())
}

/// One plant-to-be from an imported row: only the name and the two period
/// masks are populated.
pub struct ImportRow {
    pub name: String,
    pub sow_periods: PeriodMask,
    pub plant_periods: PeriodMask,
}

impl View for ImportRow {
    type V = ImportRowData;

    open spec fn view(&self) -> ImportRowData {
        ImportRowData {
            name: self.name@,
            sow_periods: self.sow_periods.bits,
            plant_periods: self.plant_periods.bits,
        }
    }
}

/// The views of a sequence of import rows.
pub open spec fn import_rows_view(s: Seq<ImportRow>) -> Seq<ImportRowData> {
    s.map_values(|x: ImportRow| x@)
}

/// Parse a delimited text into plant rows: the first line is a header and is
/// discarded; a line whose first column is empty after trimming is skipped;
/// columns 1..=24 map positionally to the 24 half-month slots, and missing
/// columns count as inactive.
pub fn parse_import_rows(text: &str) -> (r: Vec<ImportRow>)
    ensures
        import_rows_view(r@) == parsed_rows(text@),
        forall|j: int| 0 <= j < r@.len() ==> (#[trigger] r@[j]@).name.len() > 0,
        forall|j: int|
            0 <= j < r@.len() ==> (#[trigger] r@[j]@).sow_periods < 0x1000000
                && r@[j]@.plant_periods < 0x1000000,
{
    let cs = text_chars(text);
    let n = cs.len();
    proof {
        assert(cs@.subrange(0, cs@.len() as int) =~= text@);
    }
    let lines = split_ranges(&cs, 0, n, '\n');
    let ghost rawlines = split_char(text@, '\n');
    let ghost lsk = lines_of(text@).skip(1);
    proof {
        assert(lines_of(text@).len() == rawlines.len());
        assert(lsk.len() == rawlines.len() - 1);
    }
    let mut out: Vec<ImportRow> = Vec::new();
    let mut k: usize = 1;
    while k < lines.len()
        invariant
            cs@ == text@,
            n == cs@.len(),
            rawlines == split_char(text@, '\n'),
            lsk == lines_of(text@).skip(1),
            lsk.len() == rawlines.len() - 1,
            lines@.len() == rawlines.len(),
            forall|c: int|
                0 <= c < lines@.len() ==> 0 <= #[trigger] lines@[c].0 <= lines@[c].1 <= cs@.len()
                    && cs@.subrange(lines@[c].0 as int, lines@[c].1 as int) == rawlines[c],
            1 <= k <= lines@.len(),
            import_rows_view(out@) =~= lsk.take(k - 1).filter(line_valid_fn()).map_values(
                row_of_line_fn(),
            ),
            forall|j: int| 0 <= j < out@.len() ==> (#[trigger] out@[j]@).name.len() > 0,
            forall|j: int|
                0 <= j < out@.len() ==> (#[trigger] out@[j]@).sow_periods < 0x1000000
                    && out@[j]@.plant_periods < 0x1000000,
        decreases lines@.len() - k,
    {
        let (a, b) = lines[k];
        let mut b2 = b;
        if b > a && cs[b - 1] == '\r' {
            b2 = b - 1;
        }
        let ghost line = lines_of(text@)[k as int];
        proof {
            assert(lines_of(text@)[k as int] == strip_cr(rawlines[k as int]));
            let raw = cs@.subrange(a as int, b as int);
            if b > a && cs@[b - 1] == '\r' {
                assert(raw.last() == cs@[b - 1]);
                assert(raw.drop_last() =~= cs@.subrange(a as int, b - 1));
            }
            assert(line == cs@.subrange(a as int, b2 as int));
        }
        let cols = split_ranges(&cs, a, b2, '\t');
        let ghost colspec = split_char(line, '\t');
        let (c0a, c0b) = cols[0];
        let (na, nb) = trim_range(&cs, c0a, c0b);
        proof {
            lemma_split_char_len(line, '\t');
            assert(cs@.subrange(na as int, nb as int) == line_name(line));
            assert(lsk[k - 1] == lines_of(text@)[k as int]);
            assert(lsk.take(k as int) =~= lsk.take(k - 1).push(line));
            lemma_filter_push(lsk.take(k - 1), line_valid_fn(), line);
        }
        if na == nb {
            proof {
                assert(!line_valid(line));
                assert(import_rows_view(out@) =~= lsk.take(k as int).filter(
                    line_valid_fn(),
                ).map_values(row_of_line_fn()));
            }
        } else {
            let name_str = text.substring_char(na, nb);
            let name = String::from_str(name_str);
            let mut sow: u32 = 0;
            let mut plant: u32 = 0;
            let mut s: usize = 0;
            #[verifier::loop_isolation(false)]
            while s < 24
                invariant
                    s <= 24,
                    sow == mask_from_cols(colspec, 'Z', s as nat),
                    plant == mask_from_cols(colspec, 'P', s as nat),
                decreases 24 - s,
            {
                let c = s + 1;
                let ghost sow0 = sow;
                let ghost plant0 = plant;
                if c < cols.len() {
                    let (ca, cb) = cols[c];
                    let cell = text.substring_char(ca, cb);
                    let (z, p) = decode_import_cell(cell);
                    proof {
                        assert(cell@ == colspec[c as int]);
                        assert(z == cell_marked(colspec, s as int, 'Z'));
                        assert(p == cell_marked(colspec, s as int, 'P'));
                    }
                    if z {
                        sow = sow | (1u32 << (s as u32));
                    }
                    if p {
                        plant = plant | (1u32 << (s as u32));
                    }
                } else {
                    proof {
                        assert(!cell_marked(colspec, s as int, 'Z'));
                        assert(!cell_marked(colspec, s as int, 'P'));
                    }
                }
                proof {
                    assert(sow0 | 0u32 == sow0) by (bit_vector);
                    assert(plant0 | 0u32 == plant0) by (bit_vector);
                }
                s = s + 1;
            }
            let row = ImportRow {
                name,
                sow_periods: PeriodMask { bits: sow },
                plant_periods: PeriodMask { bits: plant },
            };
            proof {
                assert(line_valid(line));
                assert(row@ == row_of_line(line));
                lemma_mask_from_cols(colspec, 'Z', 24);
                lemma_mask_from_cols(colspec, 'P', 24);
            }
            let ghost out0 = out@;
            out.push(row);
            proof {
                let f0 = lsk.take(k - 1).filter(line_valid_fn());
                assert(import_rows_view(out0) == f0.map_values(row_of_line_fn()));
                assert(import_rows_view(out0).len() == out0.len());
                assert(f0.map_values(row_of_line_fn()).len() == f0.len());
                assert(out0.len() == f0.len());
                assert(lsk.take(k as int).filter(line_valid_fn()) == f0.push(line));
                assert(out@ == out0.push(row));
                let rhs = f0.push(line).map_values(row_of_line_fn());
                assert forall|j: int| 0 <= j < out@.len() implies #[trigger] import_rows_view(
                    out@,
                )[j] == rhs[j] by {
                    assert(import_rows_view(out@)[j] == out@[j]@);
                    if j < out0.len() {
                        assert(out@[j] == out0[j]);
                        assert(import_rows_view(out0)[j] == out0[j]@);
                        assert(import_rows_view(out0)[j] == f0.map_values(row_of_line_fn())[j]);
                        assert(f0.push(line)[j] == f0[j]);
                    } else {
                        assert(out@[j] == row);
                        assert(f0.push(line)[j] == line);
                    }
                }
                assert(import_rows_view(out@) =~= rhs);
            }
        }
        k = k + 1;
    }
    proof {
        assert(k as int - 1 == lsk.len());
        assert(lsk.take(lsk.len() as int) =~= lsk);
        assert(import_rows_view(out@) =~= lsk.filter(line_valid_fn()).map_values(
            row_of_line_fn(),
        ));
        assert(import_rows_view(out@) =~= parsed_rows(text@));
    }
    out
}

/// Import plants from a delimited text: parse it as `parse_import_rows` says,
/// then persist one plant per row, in order, with only the name and the two
/// period masks populated. Returns how many rows were imported. A storage
/// failure aborts the import and surfaces the failure; the rows persisted
/// before it stay, as the design accepts.
pub fn import_plants_tsv(conn: &mut rusqlite::Connection, tsv_content: &str) -> (r: Result<
    usize,
    StoreError,
>)
    ensures
        db_activities(*final(conn)) == db_activities(*old(conn)),
        db_photos(*final(conn)) == db_photos(*old(conn)),
        db_version(*final(conn)) == db_version(*old(conn)),
        ({
            let rows = parsed_rows(tsv_content@);
            let p0 = db_plants(*old(conn));
            let p1 = db_plants(*final(conn));
            &&& p0.len() <= p1.len() <= p0.len() + rows.len()
            &&& p1.subrange(0, p0.len() as int) == p0
            &&& forall|j: int|
                0 <= j < p1.len() - p0.len() ==> {
                    let row = #[trigger] p1[p0.len() + j];
                    &&& row.name == rows[j].name
                    &&& row.sow_periods == rows[j].sow_periods
                    &&& row.plant_periods == rows[j].plant_periods
                    &&& row.plant_type is None
                    &&& row.sun_requirements == 0
                    &&& row.notes is None
                    &&& !row.needs_reorder
                }
            &&& (r matches Ok(n) ==> n == rows.len() && p1.len() == p0.len() + rows.len())
            &&& (r matches Err(e) ==> e is Unavailable)
            &&& (rows.len() == 0 ==> r is Ok)
        }),
{
    let mut rows = parse_import_rows(tsv_content);
    let total = rows.len();
    let ghost spec_rows = parsed_rows(tsv_content@);
    let ghost p0 = db_plants(*old(conn));
    let mut imported: usize = 0;
    while rows.len() > 0
        invariant
            spec_rows == parsed_rows(tsv_content@),
            total as int == spec_rows.len(),
            p0 == db_plants(*old(conn)),
            imported + rows@.len() == spec_rows.len(),
            import_rows_view(rows@) =~= spec_rows.subrange(imported as int, spec_rows.len() as int),
            forall|j: int| 0 <= j < rows@.len() ==> (#[trigger] rows@[j]@).name.len() > 0,
            db_activities(*conn) == db_activities(*old(conn)),
            db_photos(*conn) == db_photos(*old(conn)),
            db_version(*conn) == db_version(*old(conn)),
            db_plants(*conn).len() == p0.len() + imported,
            db_plants(*conn).subrange(0, p0.len() as int) =~= p0,
            forall|j: int|
                0 <= j < imported ==> {
                    let row = #[trigger] db_plants(*conn)[p0.len() + j];
                    &&& row.name == spec_rows[j].name
                    &&& row.sow_periods == spec_rows[j].sow_periods
                    &&& row.plant_periods == spec_rows[j].plant_periods
                    &&& row.plant_type is None
                    &&& row.sun_requirements == 0
                    &&& row.notes is None
                    &&& !row.needs_reorder
                },
        decreases rows@.len(),
    {
        let ghost pre = rows@;
        let ghost db_pre = db_plants(*conn);
        let row = rows.remove(0);
        proof {
            assert(row@ == import_rows_view(pre)[0]);
            assert(row@ == spec_rows[imported as int]);
            assert forall|j: int| 0 <= j < rows@.len() implies #[trigger] import_rows_view(
                rows@,
            )[j] == spec_rows[imported + 1 + j] by {
                assert(import_rows_view(rows@)[j] == rows@[j]@);
                assert(rows@[j] == pre[j + 1]);
                assert(pre[j + 1]@ == import_rows_view(pre)[j + 1]);
            }
            assert(import_rows_view(rows@) =~= spec_rows.subrange(
                imported + 1,
                spec_rows.len() as int,
            ));
        }
        let plant = Plant {
            id: None,
            name: row.name,
            plant_type: None,
            sun_requirements: 0,
            sow_periods: row.sow_periods,
            plant_periods: row.plant_periods,
            notes: None,
            needs_reorder: false,
            created_at: None,
            updated_at: None,
        };
        match create_plant(conn, plant) {
            Ok(_) => {},
            Err(e) => {
                proof {
                    assert(db_plants(*conn).subrange(0, p0.len() as int) =~= p0);
                }
                return Err(e);
            },
        }
        proof {
            assert(db_plants(*conn).drop_last() == db_pre);
            assert(db_plants(*conn).subrange(0, p0.len() as int) =~= p0);
            assert forall|j: int| 0 <= j < imported + 1 implies {
                let r2 = #[trigger] db_plants(*conn)[p0.len() + j];
                &&& r2.name == spec_rows[j].name
                &&& r2.sow_periods == spec_rows[j].sow_periods
                &&& r2.plant_periods == spec_rows[j].plant_periods
                &&& r2.plant_type is None
                &&& r2.sun_requirements == 0
                &&& r2.notes is None
                &&& !r2.needs_reorder
            } by {
                if j < imported {
                    assert(db_plants(*conn)[p0.len() + j] == db_pre[p0.len() + j]);
                } else {
                    assert(db_plants(*conn)[p0.len() + j] == db_plants(*conn).last());
                }
            }
        }
        imported = imported + 1;
    }
    proof {
        assert(db_plants(*conn).subrange(0, p0.len() as int) =~= p0);
    }
    Ok(imported)
}

} // verus!
