//! The glyph table and the character encoder that turns text into the
//! column buffer of the display.
use vstd::prelude::*;
use vstd::utf8::{decode_utf8, valid_utf8};
use crate::text::{chars_of, lines_of, parse_u64, text_lines, text_words, u64_of, words_of};

verus! {

/// The columns of one character: one byte per column, the lit pixels of it.
pub struct Glyph {
    pub key: char,
    pub columns: Vec<u8>,
}

/// What the entries map a character to: the last entry for it wins.
pub open spec fn entries_lookup(s: Seq<Glyph>, c: char) -> Option<Seq<u8>>
    decreases s.len(),
{
    if s.len() == 0 {
        None
    } else if s.last().key == c {
        Some(s.last().columns@)
    } else {
        entries_lookup(s.drop_last(), c)
    }
}

/// A mapping from characters to their column bytes.
pub struct GlyphTable {
    entries: Vec<Glyph>,
}

impl View for GlyphTable {
    type V = Map<char, Seq<u8>>;

    closed spec fn view(&self) -> Map<char, Seq<u8>> {
        Map::new(
            |c: char| entries_lookup(self.entries@, c) is Some,
            |c: char| entries_lookup(self.entries@, c)->Some_0,
        )
    }
}

impl GlyphTable {
    /// A table with no glyph.
    pub fn new() -> (r: GlyphTable)
        ensures
            r@ == Map::<char, Seq<u8>>::empty(),
    {
        let r = GlyphTable { entries: Vec::new() };
        assert(r@ =~= Map::<char, Seq<u8>>::empty());
        r
    }

    /// Sets the columns of `key`, replacing any it had.
    pub fn insert(&mut self, key: char, columns: Vec<u8>)
        ensures
            final(self)@ == old(self)@.insert(key, columns@),
    {
        let ghost cols = columns@;
        self.entries.push(Glyph { key, columns });
        proof {
            let s = self.entries@;
            assert(s.drop_last() =~= old(self).entries@);
            assert forall|c: char| #[trigger] entries_lookup(s, c) == if c == key {
                Some(cols)
            } else {
                entries_lookup(old(self).entries@, c)
            } by {}
        }
        assert(self@ =~= old(self)@.insert(key, cols));
    }

    /// The columns of `key`, if the table has it.
    pub fn get(&self, key: char) -> (r: Option<&Vec<u8>>)
        ensures
            r is Some <==> self@.contains_key(key),
            r matches Some(v) ==> v@ == self@[key],
    {
        let mut i: usize = self.entries.len();
        assert(self.entries@.subrange(0, i as int) =~= self.entries@);
        while i > 0
            invariant
                i <= self.entries@.len(),
                entries_lookup(self.entries@, key) == entries_lookup(
                    self.entries@.subrange(0, i as int),
                    key,
                ),
            decreases i,
        {
            let ghost pre = self.entries@.subrange(0, i as int);
            assert(pre.drop_last() =~= self.entries@.subrange(0, i - 1));
            if self.entries[i - 1].key == key {
                return Some(&self.entries[i - 1].columns);
            }
            i = i - 1;
        }
        assert(self.entries@.subrange(0, 0) =~= Seq::<Glyph>::empty());
        None
    }
}

/// `c` with an ASCII lower-case letter turned upper case; any other
/// character is kept.
pub open spec fn ascii_upper(c: char) -> char {
    if 'a' <= c && c <= 'z' {
        ((c as u32) - 32) as char
    } else {
        c
    }
}

/// The ASCII upper-case form of `c`.
pub fn to_ascii_upper(c: char) -> (r: char)
    ensures
        r == ascii_upper(c),
{
    if 'a' <= c && c <= 'z' {
        ((c as u8) - 32) as char
    } else {
        c
    }
}

/// The columns that the characters `cs` render to: for each character found
/// in `t` (after ASCII upper-casing), its columns and one blank column; a
/// character that `t` lacks adds nothing.
pub open spec fn columns_of(t: Map<char, Seq<u8>>, cs: Seq<char>) -> Seq<u8>
    decreases cs.len(),
{
    if cs.len() == 0 {
        Seq::empty()
    } else {
        let k = ascii_upper(cs.last());
        columns_of(t, cs.drop_last()) + if t.contains_key(k) {
            t[k].push(0u8)
        } else {
            Seq::empty()
        }
    }
}

/// The render buffer of `text`: the columns of its characters when it is
/// valid UTF-8, and nothing when it is not.
pub open spec fn render_buffer(t: Map<char, Seq<u8>>, text: Seq<u8>) -> Seq<u8> {
    if valid_utf8(text) {
        columns_of(t, decode_utf8(text))
    } else {
        Seq::empty()
    }
}

/// Relies on `std::str::from_utf8`: it succeeds exactly on valid UTF-8, and
/// then the text holds the characters that the bytes encode.
#[verifier::external_body]
fn utf8_text(bytes: &[u8]) -> (r: Option<&str>)
    ensures
        r is Some <==> valid_utf8(bytes@),
        r matches Some(s) ==> s@ == decode_utf8(bytes@),
{
    std::str::from_utf8(bytes).ok()
}

/// Appends the columns of the characters `cs` to `out`.
fn push_columns(t: &GlyphTable, cs: &Vec<char>, out: &mut Vec<u8>)
    ensures
        final(out)@ == old(out)@ + columns_of(t@, cs@),
{
    let mut i: usize = 0;
    while i < cs.len()
        invariant
            i <= cs@.len(),
            out@ == old(out)@ + columns_of(t@, cs@.subrange(0, i as int)),
        decreases cs@.len() - i,
    {
        let ghost pre = out@;
        let key = to_ascii_upper(cs[i]);
        match t.get(key) {
            Some(columns) => {
                let mut j: usize = 0;
                while j < columns.len()
                    invariant
                        j <= columns@.len(),
                        out@ == pre + columns@.subrange(0, j as int),
                    decreases columns@.len() - j,
                {
                    out.push(columns[j]);
                    assert(columns@.subrange(0, j + 1) =~= columns@.subrange(0, j as int).push(
                        columns@[j as int],
                    ));
                    j = j + 1;
                }
                assert(columns@.subrange(0, columns@.len() as int) =~= columns@);
                out.push(0u8);
            },
            None => {},
        }
        proof {
            let next = cs@.subrange(0, i + 1);
            assert(next.drop_last() =~= cs@.subrange(0, i as int));
            assert(next.last() == cs@[i as int]);
            assert(out@ =~= old(out)@ + columns_of(t@, next));
        }
        i = i + 1;
    }
    assert(cs@.subrange(0, cs@.len() as int) =~= cs@);
}

/// The render buffer of `text` under the glyph table `t`.
pub fn encode(t: &GlyphTable, text: &[u8]) -> (r: Vec<u8>)
    ensures
        r@ == render_buffer(t@, text@),
{
    let mut out: Vec<u8> = Vec::new();
    match utf8_text(text) {
        Some(s) => {
            let cs = chars_of(s);
            push_columns(t, &cs, &mut out);
            assert(out@ =~= columns_of(t@, cs@));
        },
        None => {},
    }
    out
}

/// The columns of two texts side by side are the columns of each, side by side.
pub proof fn lemma_columns_of_append(t: Map<char, Seq<u8>>, a: Seq<char>, b: Seq<char>)
    ensures
        columns_of(t, a + b) == columns_of(t, a) + columns_of(t, b),
    decreases b.len(),
{
    if b.len() == 0 {
        assert(a + b =~= a);
        assert(columns_of(t, a) + columns_of(t, b) =~= columns_of(t, a));
    } else {
        lemma_columns_of_append(t, a, b.drop_last());
        assert((a + b).drop_last() =~= a + b.drop_last());
        assert((a + b).last() == b.last());
        assert(columns_of(t, a + b) =~= columns_of(t, a) + columns_of(t, b));
    }
}

/// A character that the table lacks leaves no trace: rendering `a`, `c`, `b`
/// gives the same columns as rendering `a`, `b`.
pub proof fn lemma_unknown_char_dropped(t: Map<char, Seq<u8>>, a: Seq<char>, c: char, b: Seq<char>)
    requires
        !t.contains_key(ascii_upper(c)),
    ensures
        columns_of(t, a + seq![c] + b) == columns_of(t, a + b),
{
    lemma_columns_of_append(t, a + seq![c], b);
    lemma_columns_of_append(t, a, seq![c]);
    lemma_columns_of_append(t, a, b);
    assert(seq![c].drop_last() =~= Seq::<char>::empty());
    assert(seq![c].last() == c);
    assert(columns_of(t, Seq::<char>::empty()) == Seq::<u8>::empty());
    assert(columns_of(t, seq![c]) =~= Seq::<u8>::empty());
    assert(columns_of(t, a) + columns_of(t, seq![c]) =~= columns_of(t, a));
}

/// A column byte as written in a glyph text: a decimal number up to 255.
pub open spec fn byte_of(w: Seq<char>) -> Option<u8> {
    match u64_of(w) {
        Some(v) => if v <= 255 {
            Some(v as u8)
        } else {
            None
        },
        None => None,
    }
}

/// The column bytes that the words `ws` write, if each writes one.
pub open spec fn columns_in(ws: Seq<Seq<char>>) -> Option<Seq<u8>>
    decreases ws.len(),
{
    if ws.len() == 0 {
        Some(Seq::empty())
    } else {
        match (columns_in(ws.drop_last()), byte_of(ws.last())) {
            (Some(cs), Some(b)) => Some(cs.push(b)),
            _ => None,
        }
    }
}

/// One line of a glyph text: a blank line gives `Some(None)`; a line whose
/// first word is one character and whose other words are column bytes gives
/// that glyph; any other line is malformed (`None`).
pub open spec fn glyph_line(line: Seq<char>) -> Option<Option<(char, Seq<u8>)>> {
    let ws = words_of(line);
    if ws.len() == 0 {
        Some(None)
    } else if ws[0].len() == 1 {
        match columns_in(ws.subrange(1, ws.len() as int)) {
            Some(cs) => Some(Some((ws[0][0], cs))),
            None => None,
        }
    } else {
        None
    }
}

/// The glyphs that the lines `ls` give, a later line for a character
/// replacing an earlier one; `None` when a line is malformed.
pub open spec fn glyphs_in(ls: Seq<Seq<char>>) -> Option<Map<char, Seq<u8>>>
    decreases ls.len(),
{
    if ls.len() == 0 {
        Some(Map::empty())
    } else {
        match (glyphs_in(ls.drop_last()), glyph_line(ls.last())) {
            (Some(m), Some(None)) => Some(m),
            (Some(m), Some(Some(g))) => Some(m.insert(g.0, g.1)),
            _ => None,
        }
    }
}

fn parse_glyph_line(line: &String) -> (r: Option<Option<(char, Vec<u8>)>>)
    ensures
        match r {
            Some(Some(g)) => glyph_line(line@) == Some(Some((g.0, g.1@))),
            Some(None) => glyph_line(line@) == Some(None::<(char, Seq<u8>)>),
            None => glyph_line(line@) is None,
        },
{
    let ws = text_words(line.as_str());
    let ghost wv = words_of(line@);
    if ws.len() == 0 {
        return Some(None);
    }
    let key = chars_of(ws[0].as_str());
    assert(key@ == wv[0]);
    if key.len() != 1 {
        return None;
    }
    let mut cols: Vec<u8> = Vec::new();
    let mut i: usize = 1;
    while i < ws.len()
        invariant
            1 <= i <= ws@.len(),
            ws@.len() == wv.len(),
            wv == words_of(line@),
            forall|k: int| 0 <= k < ws@.len() ==> (#[trigger] ws@[k])@ == wv[k],
            columns_in(wv.subrange(1, i as int)) == Some(cols@),
        decreases ws@.len() - i,
    {
        let ghost pre = wv.subrange(1, i as int);
        let ghost next = wv.subrange(1, i + 1);
        assert(next.drop_last() =~= pre);
        assert(next.last() == ws@[i as int]@);
        match parse_u64(ws[i].as_str()) {
            Some(v) => {
                if v > 255 {
                    assert(columns_in(next) is None);
                    assert(glyph_line(line@) is None) by {
                        lemma_columns_in_prefix_none(wv.subrange(1, wv.len() as int), i - 1);
                        assert(wv.subrange(1, wv.len() as int).subrange(0, i as int) =~= next);
                    }
                    return None;
                }
                cols.push(v as u8);
            },
            None => {
                assert(columns_in(next) is None);
                assert(glyph_line(line@) is None) by {
                    lemma_columns_in_prefix_none(wv.subrange(1, wv.len() as int), i - 1);
                    assert(wv.subrange(1, wv.len() as int).subrange(0, i as int) =~= next);
                }
                return None;
            },
        }
        i = i + 1;
    }
    Some(Some((key[0], cols)))
}

/// A malformed word makes every longer run of words malformed too.
proof fn lemma_columns_in_prefix_none(ws: Seq<Seq<char>>, j: int)
    requires
        0 <= j < ws.len(),
        columns_in(ws.subrange(0, j + 1)) is None,
    ensures
        columns_in(ws) is None,
    decreases ws.len() - j,
{
    if j + 1 == ws.len() {
        assert(ws.subrange(0, j + 1) =~= ws);
    } else {
        let n = ws.subrange(0, j + 2);
        assert(n.drop_last() =~= ws.subrange(0, j + 1));
        lemma_columns_in_prefix_none(ws, j + 1);
    }
}

/// A malformed line makes every longer run of lines malformed too.
proof fn lemma_glyphs_in_prefix_none(ls: Seq<Seq<char>>, j: int)
    requires
        0 <= j < ls.len(),
        glyphs_in(ls.subrange(0, j + 1)) is None,
    ensures
        glyphs_in(ls) is None,
    decreases ls.len() - j,
{
    if j + 1 == ls.len() {
        assert(ls.subrange(0, j + 1) =~= ls);
    } else {
        let n = ls.subrange(0, j + 2);
        assert(n.drop_last() =~= ls.subrange(0, j + 1));
        lemma_glyphs_in_prefix_none(ls, j + 1);
    }
}

impl GlyphTable {
    /// The glyphs of a glyph text, one glyph per line: the character, then
    /// its column bytes in decimal, separated by white space; blank lines are
    /// skipped. `None` when a line is malformed.
    pub fn parse(text: &str) -> (r: Option<GlyphTable>)
        ensures
            r is Some <==> glyphs_in(lines_of(text@)) is Some,
            r matches Some(t) ==> glyphs_in(lines_of(text@)) == Some(t@),
    {
        let ls = text_lines(text);
        let ghost lv = lines_of(text@);
        let mut t = GlyphTable::new();
        let mut i: usize = 0;
        assert(lv.subrange(0, 0) =~= Seq::<Seq<char>>::empty());
        while i < ls.len()
            invariant
                i <= ls@.len(),
                ls@.len() == lv.len(),
                lv == lines_of(text@),
                forall|k: int| 0 <= k < ls@.len() ==> (#[trigger] ls@[k])@ == lv[k],
                glyphs_in(lv.subrange(0, i as int)) == Some(t@),
            decreases ls@.len() - i,
        {
            let ghost next = lv.subrange(0, i + 1);
            assert(next.drop_last() =~= lv.subrange(0, i as int));
            assert(next.last() == ls@[i as int]@);
            match parse_glyph_line(&ls[i]) {
                Some(Some((key, cols))) => {
                    t.insert(key, cols);
                },
                Some(None) => {},
                None => {
                    proof {
                        lemma_glyphs_in_prefix_none(lv, i as int);
                    }
                    return None;
                },
            }
            i = i + 1;
        }
        assert(lv.subrange(0, lv.len() as int) =~= lv);
        Some(t)
    }
}

} // verus!
