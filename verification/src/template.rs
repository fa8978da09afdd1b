use vstd::prelude::*;

use crate::text::{find_bracket, find_char, spec_count, spec_find, spec_find_bracket, subrange_vec};

verus! {

/// One lexical piece of a template string: either a literal delimiter run or a
/// named placeholder written `<name>`.
pub enum Token {
    Literal(Vec<char>),
    Placeholder(Vec<char>),
}

/// The mathematical counterpart of `Token`.
pub enum SpecTokenKind {
    Literal(Seq<char>),
    Placeholder(Seq<char>),
}

impl View for Token {
    type V = SpecTokenKind;

    open spec fn view(&self) -> SpecTokenKind {
        match self {
            Token::Literal(v) => SpecTokenKind::Literal(v@),
            Token::Placeholder(v) => SpecTokenKind::Placeholder(v@),
        }
    }
}

impl DeepView for Token {
    type V = SpecTokenKind;

    open spec fn deep_view(&self) -> SpecTokenKind {
        self.view()
    }
}

/// The template grammar, starting at index `pos`: a `<` opens a placeholder
/// that runs to the next `>`; any other character starts a literal run that
/// ends just before the next bracket; a stray bracket is dropped.
pub open spec fn spec_tokenize_at(t: Seq<char>, pos: int) -> Seq<SpecTokenKind>
    decreases t.len() - pos,
    via spec_tokenize_at_decreases
{
    if pos < 0 || pos >= t.len() {
        Seq::empty()
    } else if t[pos] == '<' {
        match spec_find(t, '>', pos + 1) {
            Some(j) => seq![SpecTokenKind::Placeholder(t.subrange(pos + 1, j))]
                + spec_tokenize_at(t, j + 1),
            None => spec_tokenize_at(t, pos + 1),
        }
    } else if t[pos] == '>' {
        spec_tokenize_at(t, pos + 1)
    } else {
        let j = match spec_find_bracket(t, pos + 1) {
            Some(j) => j,
            None => t.len() as int,
        };
        seq![SpecTokenKind::Literal(t.subrange(pos, j))] + spec_tokenize_at(t, j)
    }
}

#[via_fn]
proof fn spec_tokenize_at_decreases(t: Seq<char>, pos: int) {
    crate::text::lemma_find_range(t, '>', pos + 1);
    crate::text::lemma_find_bracket_range(t, pos + 1);
}

/// How a template string splits into literal and placeholder tokens.
pub open spec fn spec_tokenize(t: Seq<char>) -> Seq<SpecTokenKind> {
    spec_tokenize_at(t, 0)
}

/// The placeholder names of a token sequence, in order of occurrence.
pub open spec fn spec_names(toks: Seq<SpecTokenKind>) -> Seq<Seq<char>>
    decreases toks.len(),
{
    if toks.len() == 0 {
        Seq::empty()
    } else {
        match toks[0] {
            SpecTokenKind::Placeholder(n) => seq![n] + spec_names(toks.drop_first()),
            SpecTokenKind::Literal(_) => spec_names(toks.drop_first()),
        }
    }
}

/// A template is balanced when it has as many `<` as `>`.
pub open spec fn spec_balanced(t: Seq<char>) -> bool {
    spec_count(t, '<') == spec_count(t, '>')
}

/// Every placeholder name in the token sequence has at least one character.
pub open spec fn spec_names_nonempty(toks: Seq<SpecTokenKind>) -> bool {
    forall|i: int| 0 <= i < spec_names(toks).len() ==> spec_names(toks)[i].len() > 0
}

/// Splits a template, given as a character vector, into its tokens.
pub fn tokenize(v: &Vec<char>) -> (r: Vec<Token>)
    ensures
        r.deep_view() == spec_tokenize(v@),
{
    let mut r: Vec<Token> = Vec::new();
    let mut pos: usize = 0;
    proof {
        assert(r.deep_view() + spec_tokenize_at(v@, 0) =~= spec_tokenize(v@));
    }
    while pos < v.len()
        invariant
            pos <= v@.len(),
            r.deep_view() + spec_tokenize_at(v@, pos as int) == spec_tokenize(v@),
        decreases v@.len() - pos,
    {
        let ghost old_r = r.deep_view();
        let ghost old_pos = pos as int;
        if v[pos] == '<' {
            match find_char(v, '>', pos + 1) {
                Some(j) => {
                    let name = subrange_vec(v, pos + 1, j);
                    r.push(Token::Placeholder(name));
                    pos = j + 1;
                    proof {
                        let tok = SpecTokenKind::Placeholder(v@.subrange(old_pos + 1, j as int));
                        assert(spec_tokenize_at(v@, old_pos) == seq![tok] + spec_tokenize_at(
                            v@,
                            pos as int,
                        ));
                        assert(r.deep_view() =~= old_r.push(tok));
                        assert(old_r.push(tok) + spec_tokenize_at(v@, pos as int) =~= old_r + (
                        seq![tok] + spec_tokenize_at(v@, pos as int)));
                    }
                },
                None => {
                    pos = pos + 1;
                    proof {
                        assert(spec_tokenize_at(v@, old_pos) == spec_tokenize_at(v@, pos as int));
                    }
                },
            }
        } else if v[pos] == '>' {
            pos = pos + 1;
            proof {
                assert(spec_tokenize_at(v@, old_pos) == spec_tokenize_at(v@, pos as int));
            }
        } else {
            let j = match find_bracket(v, pos + 1) {
                Some(j) => j,
                None => v.len(),
            };
            let lit = subrange_vec(v, pos, j);
            r.push(Token::Literal(lit));
            pos = j;
            proof {
                let tok = SpecTokenKind::Literal(v@.subrange(old_pos, j as int));
                assert(spec_tokenize_at(v@, old_pos) == seq![tok] + spec_tokenize_at(
                    v@,
                    pos as int,
                ));
                assert(r.deep_view() =~= old_r.push(tok));
                assert(old_r.push(tok) + spec_tokenize_at(v@, pos as int) =~= old_r + (seq![tok]
                    + spec_tokenize_at(v@, pos as int)));
            }
        }
    }
    proof {
        assert(spec_tokenize_at(v@, pos as int) =~= Seq::<SpecTokenKind>::empty());
        assert(r.deep_view() =~= spec_tokenize(v@));
    }
    r
}

} // verus!
