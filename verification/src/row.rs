use vstd::prelude::*;

use crate::text::{chars_to_string, to_chars};

verus! {

/// One parsed input line: the original text, and the extracted field values
/// as owned substrings, one per captured span, in source variable order.
pub struct Row {
    text: String,
    parts: Vec<String>,
}

/// The mathematical state of a `Row`.
#[verifier::ext_equal]
pub struct RowView {
    pub text: Seq<char>,
    pub parts: Seq<Seq<char>>,
}

impl View for Row {
    type V = RowView;

    closed spec fn view(&self) -> RowView {
        RowView { text: self.text@, parts: self.parts.deep_view() }
    }
}

impl DeepView for Row {
    type V = RowView;

    open spec fn deep_view(&self) -> RowView {
        self.view()
    }
}

impl Row {
    /// A row holding `text` with no fields yet; `width` only sizes the field
    /// store in advance.
    pub fn new(text: &str, width: usize) -> (r: Row)
        ensures
            r@.text == text@,
            r@.parts.len() == 0,
    {
        let r = Row { text: text.to_owned(), parts: Vec::with_capacity(width) };
        proof {
            assert(r@.parts =~= Seq::<Seq<char>>::empty());
        }
        r
    }

    /// Appends the field `text[start..end]` (character indices).  A span on
    /// an empty row, one with `start` past `end`, or one reaching past the
    /// end of the text is ignored, and nothing is stored.
    pub fn add(&mut self, start: usize, end: usize) -> (ok: bool)
        ensures
            final(self)@.text == old(self)@.text,
            ok <==> old(self)@.text.len() > 0 && start <= end && end <= old(self)@.text.len(),
            ok ==> final(self)@.parts == old(self)@.parts.push(
                old(self)@.text.subrange(start as int, end as int),
            ),
            !ok ==> final(self)@.parts == old(self)@.parts,
    {
        let tc = to_chars(self.text.as_str());
        if tc.len() == 0 || start > end || end > tc.len() {
            return false;
        }
        let ghost before = self@.parts;
        let part = chars_to_string(&tc, start, end);
        self.parts.push(part);
        proof {
            assert(self@.parts =~= before.push(
                old(self)@.text.subrange(start as int, end as int),
            ));
        }
        true
    }

    /// The field value at `column`, when the row is backed by text and the
    /// column holds a field.
    pub fn get(&self, column: usize) -> (r: Option<&str>)
        ensures
            match r {
                Some(s) => self@.text.len() > 0 && column < self@.parts.len() && s@
                    == self@.parts[column as int],
                None => self@.text.len() == 0 || column >= self@.parts.len(),
            },
    {
        if self.text.as_str().is_empty() || column >= self.parts.len() {
            return None;
        }
        let s = self.parts[column].as_str();
        proof {
            assert(self@.parts[column as int] == self.parts@[column as int]@);
        }
        Some(s)
    }

    /// All field values of the row, in source variable order.
    pub fn get_parts(&self) -> (r: &Vec<String>)
        ensures
            r.deep_view() == self@.parts,
    {
        &self.parts
    }
}

impl Default for Row {
    /// A row with no text and no fields.
    fn default() -> (r: Row)
        ensures
            r@.text.len() == 0,
            r@.parts.len() == 0,
    {
        let r = Row { text: String::new(), parts: Vec::new() };
        proof {
            assert(r@.parts =~= Seq::<Seq<char>>::empty());
        }
        r
    }
}

} // verus!
