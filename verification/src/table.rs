use vstd::prelude::*;

use crate::row::{Row, RowView};

verus! {

/// An append-only, insertion-ordered store of parsed rows sharing one field
/// width.  The width is latched by the first row added to a width-unset
/// table and never changes afterwards.
pub struct Table {
    width: usize,
    rows: Vec<Row>,
}

/// The mathematical state of a `Table`.
#[verifier::ext_equal]
pub struct TableView {
    pub width: usize,
    pub rows: Seq<RowView>,
}

impl View for Table {
    type V = TableView;

    closed spec fn view(&self) -> TableView {
        TableView { width: self.width, rows: self.rows.deep_view() }
    }
}

/// The fields a row stores for a line and its spans: each valid span, in
/// order, contributes the substring it covers; a span on empty text, one
/// whose start is past its end, or one reaching past the end of the text is
/// dropped.
pub open spec fn spec_row_parts(text: Seq<char>, slices: Seq<(usize, usize)>) -> Seq<Seq<char>>
    decreases slices.len(),
{
    if slices.len() == 0 {
        Seq::empty()
    } else {
        let s = slices[0];
        let rest = spec_row_parts(text, slices.drop_first());
        if text.len() > 0 && s.0 <= s.1 && s.1 <= text.len() {
            seq![text.subrange(s.0 as int, s.1 as int)] + rest
        } else {
            rest
        }
    }
}

/// A row built from spans that all lie within its nonempty text keeps every
/// one of them: it stores exactly one field per span.  Together with the
/// extractor's guarantee of one bounded span per source variable on a
/// matching line, a matched line always fills its row completely.
pub proof fn lemma_row_parts_full(text: Seq<char>, slices: Seq<(usize, usize)>)
    requires
        text.len() > 0,
        forall|i: int|
            0 <= i < slices.len() ==> (#[trigger] slices[i]).0 <= slices[i].1 && slices[i].1
                <= text.len(),
    ensures
        spec_row_parts(text, slices).len() == slices.len(),
    decreases slices.len(),
{
    if slices.len() > 0 {
        assert(forall|i: int|
            0 <= i < slices.drop_first().len() ==> slices.drop_first()[i] == slices[i + 1]);
        lemma_row_parts_full(text, slices.drop_first());
    }
}

impl Table {
    /// An empty table whose width is not yet set.
    pub fn new() -> (r: Table)
        ensures
            r@.width == 0,
            r@.rows.len() == 0,
    {
        let r = Table { width: 0, rows: Vec::new() };
        proof {
            assert(r@.rows =~= Seq::<RowView>::empty());
        }
        r
    }

    /// Appends a row built from `text` and the given spans.  The first row
    /// added to a width-unset table latches the table's width to its span
    /// count; the width never changes afterwards.
    pub fn add(&mut self, text: &str, slices: Vec<(usize, usize)>)
        ensures
            final(self)@.width as int == if old(self)@.width == 0 {
                slices@.len() as int
            } else {
                old(self)@.width as int
            },
            final(self)@.rows == old(self)@.rows.push(
                RowView { text: text@, parts: spec_row_parts(text@, slices@) },
            ),
    {
        if self.width == 0 {
            self.width = slices.len();
        }
        let mut row = Row::new(text, self.width);
        let ghost sdv = slices@;
        let mut i: usize = 0;
        proof {
            assert(sdv.skip(0) =~= sdv);
            assert(row@.parts + spec_row_parts(text@, sdv.skip(0)) =~= spec_row_parts(text@, sdv));
        }
        while i < slices.len()
            invariant
                i <= sdv.len(),
                sdv == slices@,
                row@.text == text@,
                spec_row_parts(text@, sdv) == row@.parts + spec_row_parts(
                    text@,
                    sdv.skip(i as int),
                ),
            decreases sdv.len() - i,
        {
            let ghost before = row@.parts;
            proof {
                assert(sdv.skip(i as int).drop_first() =~= sdv.skip(i as int + 1));
                assert(sdv.skip(i as int)[0] == sdv[i as int]);
            }
            let ok = row.add(slices[i].0, slices[i].1);
            proof {
                if ok {
                    assert(before.push(text@.subrange(sdv[i as int].0 as int, sdv[i as int].1 as int))
                        + spec_row_parts(text@, sdv.skip(i as int + 1)) =~= before + (seq![
                        text@.subrange(sdv[i as int].0 as int, sdv[i as int].1 as int)]
                        + spec_row_parts(text@, sdv.skip(i as int + 1))));
                }
            }
            i = i + 1;
        }
        proof {
            assert(sdv.skip(sdv.len() as int) =~= Seq::<(usize, usize)>::empty());
            assert(row@.parts =~= spec_row_parts(text@, sdv));
        }
        let ghost rows_before = self@.rows;
        let ghost rv = row@;
        self.rows.push(row);
        proof {
            assert(rv =~~= (RowView { text: text@, parts: spec_row_parts(text@, sdv) }));
            assert(self@.rows =~~= rows_before.push(
                RowView { text: text@, parts: spec_row_parts(text@, sdv) },
            ));
        }
    }

    /// The field at the given row and column, when both indices are in range
    /// and the row holds that field; out-of-range queries give no value, not
    /// a failure.
    pub fn get(&self, index: usize, column: usize) -> (r: Option<&str>)
        ensures
            match r {
                Some(s) => index < self@.rows.len() && column < self@.width
                    && self@.rows[index as int].text.len() > 0 && column < self@.rows[
                    index as int].parts.len() && s@ == self@.rows[index as int].parts[column as int],
                None => index >= self@.rows.len() || column >= self@.width || self@.rows[
                    index as int].text.len() == 0 || column >= self@.rows[index as int].parts.len(),
            },
    {
        if index >= self.rows.len() || column >= self.width {
            return None;
        }
        let r = self.rows[index].get(column);
        proof {
            assert(self@.rows[index as int] == self.rows@[index as int]@);
        }
        r
    }

    /// All fields of the row at `index`, when it exists.
    pub fn get_parts(&self, index: usize) -> (r: Option<&Vec<String>>)
        ensures
            match r {
                Some(p) => index < self@.rows.len() && p.deep_view() == self@.rows[
                    index as int].parts,
                None => index >= self@.rows.len(),
            },
    {
        if index >= self.rows.len() {
            return None;
        }
        let p = self.rows[index].get_parts();
        proof {
            assert(self@.rows[index as int] == self.rows@[index as int]@);
        }
        Some(p)
    }

    /// Whether the table holds no rows.
    pub fn is_empty(&self) -> (r: bool)
        ensures
            r == (self@.rows.len() == 0),
    {
        self.rows.len() == 0
    }

    /// How many rows the table holds.
    pub fn row_count(&self) -> (r: usize)
        ensures
            r == self@.rows.len(),
    {
        self.rows.len()
    }
}

impl Default for Table {
    /// An empty table whose width is not yet set.
    fn default() -> (r: Table)
        ensures
            r@.width == 0,
            r@.rows.len() == 0,
    {
        Table::new()
    }
}

} // verus!
