use vstd::prelude::*;

use crate::template::{spec_names, SpecTokenKind, Token};
use crate::text::{find_char, lemma_find_range, spec_find};

verus! {

/// Index just past the longest run of non-comma characters that starts at
/// `pos`: a bare (unquoted) field may reach at most this far.
pub open spec fn spec_bare_end(line: Seq<char>, pos: int) -> int {
    match spec_find(line, ',', pos) {
        Some(j) => j,
        None => line.len() as int,
    }
}

/// Whether the tokens `toks[ti..]` match `line` starting at `pos`, and with
/// which captured spans, one per placeholder, in order.
///
/// A literal must appear verbatim.  A placeholder captures, by preference:
/// first a quoted field running from an opening `"` at `pos` to the next `"`
/// (the span includes both quotes), and otherwise the longest run of
/// non-comma characters that lets the remaining tokens match, backing off one
/// character at a time.
pub open spec fn spec_match_at(
    toks: Seq<SpecTokenKind>,
    ti: int,
    line: Seq<char>,
    pos: int,
) -> Option<Seq<(int, int)>>
    decreases toks.len() - ti, 0int, 0int,
    via spec_match_at_decreases
{
    if ti < 0 || ti > toks.len() || pos < 0 || pos > line.len() {
        None
    } else if ti == toks.len() {
        Some(Seq::empty())
    } else {
        match toks[ti] {
            SpecTokenKind::Literal(s) => {
                if pos + s.len() <= line.len() && line.subrange(pos, pos + s.len() as int) == s {
                    spec_match_at(toks, ti + 1, line, pos + s.len() as int)
                } else {
                    None
                }
            },
            SpecTokenKind::Placeholder(_) => {
                let quoted = if pos < line.len() && line[pos] == '"' {
                    match spec_find(line, '"', pos + 1) {
                        Some(q) => match spec_match_at(toks, ti + 1, line, q + 1) {
                            Some(rest) => Some(seq![(pos, q + 1)] + rest),
                            None => None,
                        },
                        None => None,
                    }
                } else {
                    None
                };
                match quoted {
                    Some(sp) => Some(sp),
                    None => spec_match_bare(toks, ti + 1, line, pos, spec_bare_end(line, pos) - pos),
                }
            },
        }
    }
}

/// Whether a bare capture of exactly `len` characters at `start`, or failing
/// that a shorter one, lets the tokens `toks[ti..]` match the rest of `line`.
pub open spec fn spec_match_bare(
    toks: Seq<SpecTokenKind>,
    ti: int,
    line: Seq<char>,
    start: int,
    len: int,
) -> Option<Seq<(int, int)>>
    decreases toks.len() - ti, 1int, len,
{
    if ti < 0 || ti > toks.len() || start < 0 || len < 0 || start + len > line.len() {
        None
    } else {
        match spec_match_at(toks, ti, line, start + len) {
            Some(rest) => Some(seq![(start, start + len)] + rest),
            None => if len > 0 {
                spec_match_bare(toks, ti, line, start, len - 1)
            } else {
                None
            },
        }
    }
}

#[via_fn]
proof fn spec_match_at_decreases(toks: Seq<SpecTokenKind>, ti: int, line: Seq<char>, pos: int) {
    lemma_find_range(line, '"', pos + 1);
    lemma_find_range(line, ',', pos);
}

/// The match found at the leftmost possible starting position, if any.
pub open spec fn spec_search(toks: Seq<SpecTokenKind>, line: Seq<char>, from: int) -> Option<
    Seq<(int, int)>,
>
    decreases line.len() - from,
{
    if from < 0 || from > line.len() {
        None
    } else {
        match spec_match_at(toks, 0, line, from) {
            Some(sp) => Some(sp),
            None => if from < line.len() {
                spec_search(toks, line, from + 1)
            } else {
                None
            },
        }
    }
}

/// Removes exactly one pair of wrapping double quotes from a captured span:
/// a span of two or more characters that both starts and ends with `"` is
/// narrowed by one character on each side, and any other span is unchanged.
pub open spec fn spec_strip(line: Seq<char>, sp: (int, int)) -> (int, int) {
    if 0 <= sp.0 && sp.0 + 2 <= sp.1 && sp.1 <= line.len() && line[sp.0] == '"' && line[sp.1 - 1]
        == '"' {
        (sp.0 + 1, sp.1 - 1)
    } else {
        sp
    }
}

/// The spans a compiled pattern extracts from a line: the captures of the
/// leftmost match, each with one layer of wrapping quotes stripped, or no
/// spans at all when the line does not match the pattern.
pub open spec fn spec_extract(toks: Seq<SpecTokenKind>, line: Seq<char>) -> Seq<(int, int)> {
    match spec_search(toks, line, 0) {
        Some(sp) => Seq::new(sp.len(), |i: int| spec_strip(line, sp[i])),
        None => Seq::empty(),
    }
}

proof fn lemma_match_count(toks: Seq<SpecTokenKind>, ti: int, line: Seq<char>, pos: int)
    ensures
        spec_match_at(toks, ti, line, pos) matches Some(sp) ==> sp.len() == spec_names(
            toks.skip(ti),
        ).len(),
    decreases toks.len() - ti, 0int, 0int,
{
    if ti < 0 || ti > toks.len() || pos < 0 || pos > line.len() {
    } else if ti == toks.len() {
        assert(toks.skip(ti) =~= Seq::<SpecTokenKind>::empty());
    } else {
        assert(toks.skip(ti).drop_first() =~= toks.skip(ti + 1));
        assert(toks.skip(ti)[0] == toks[ti]);
        match toks[ti] {
            SpecTokenKind::Literal(s) => {
                if pos + s.len() <= line.len() && line.subrange(pos, pos + s.len() as int) == s {
                    lemma_match_count(toks, ti + 1, line, pos + s.len() as int);
                }
            },
            SpecTokenKind::Placeholder(_) => {
                if pos < line.len() && line[pos] == '"' {
                    match spec_find(line, '"', pos + 1) {
                        Some(q) => {
                            lemma_find_range(line, '"', pos + 1);
                            lemma_match_count(toks, ti + 1, line, q + 1);
                        },
                        None => {},
                    }
                }
                lemma_find_range(line, ',', pos);
                lemma_match_bare_count(toks, ti + 1, line, pos, spec_bare_end(line, pos) - pos);
            },
        }
    }
}

proof fn lemma_match_bare_count(
    toks: Seq<SpecTokenKind>,
    ti: int,
    line: Seq<char>,
    start: int,
    len: int,
)
    ensures
        spec_match_bare(toks, ti, line, start, len) matches Some(sp) ==> sp.len() == spec_names(
            toks.skip(ti),
        ).len() + 1,
    decreases toks.len() - ti, 1int, len,
{
    if ti < 0 || ti > toks.len() || start < 0 || len < 0 || start + len > line.len() {
    } else {
        lemma_match_count(toks, ti, line, start + len);
        if spec_match_at(toks, ti, line, start + len) is None && len > 0 {
            lemma_match_bare_count(toks, ti, line, start, len - 1);
        }
    }
}

/// The pattern captures one span per placeholder: whatever spans an
/// extraction yields, there are either none (the line did not match) or
/// exactly as many as the pattern has placeholder names.
pub proof fn lemma_extract_count(toks: Seq<SpecTokenKind>, line: Seq<char>, from: int)
    ensures
        spec_search(toks, line, from) matches Some(sp) ==> sp.len() == spec_names(toks).len(),
    decreases line.len() - from,
{
    if from < 0 || from > line.len() {
    } else {
        lemma_match_count(toks, 0, line, from);
        assert(toks.skip(0) =~= toks);
        if spec_match_at(toks, 0, line, from) is None && from < line.len() {
            lemma_extract_count(toks, line, from + 1);
        }
    }
}

/// An executable span list agrees with a mathematical one pointwise.
pub open spec fn spans_agree(v: Seq<(usize, usize)>, s: Seq<(int, int)>) -> bool {
    &&& v.len() == s.len()
    &&& forall|i: int|
        0 <= i < v.len() ==> (#[trigger] v[i]).0 == s[i].0 && v[i].1 == s[i].1
}

/// Every span starts no later than it ends and ends within the line.
pub open spec fn spans_bounded(v: Seq<(usize, usize)>, n: int) -> bool {
    forall|i: int| 0 <= i < v.len() ==> (#[trigger] v[i]).0 <= v[i].1 && v[i].1 <= n
}

/// Whether the characters `lit` appear verbatim in `line` at position `pos`.
fn literal_matches(line: &Vec<char>, pos: usize, lit: &Vec<char>) -> (b: bool)
    requires
        pos <= line@.len(),
    ensures
        b == (pos + lit@.len() <= line@.len() && line@.subrange(
            pos as int,
            pos as int + lit@.len() as int,
        ) == lit@),
{
    if lit.len() > line.len() - pos {
        return false;
    }
    let end: usize = pos + lit.len();
    let mut k: usize = 0;
    while k < lit.len()
        invariant
            pos + lit@.len() <= line@.len(),
            end == pos + lit@.len(),
            k <= lit@.len(),
            forall|j: int| 0 <= j < k ==> line@[pos + j] == lit@[j],
        decreases lit@.len() - k,
    {
        if line[pos + k] != lit[k] {
            proof {
                let sub = line@.subrange(pos as int, pos as int + lit@.len() as int);
                assert(sub[k as int] == line@[pos + k as int]);
            }
            return false;
        }
        k = k + 1;
    }
    proof {
        assert(line@.subrange(pos as int, pos as int + lit@.len() as int) =~= lit@);
    }
    true
}

/// Prepends the span `(a, b)` to `rest`.
fn cons_span(a: usize, b: usize, rest: &Vec<(usize, usize)>) -> (r: Vec<(usize, usize)>)
    ensures
        r@ == seq![(a, b)] + rest@,
{
    let mut r: Vec<(usize, usize)> = Vec::new();
    r.push((a, b));
    let mut i: usize = 0;
    proof {
        assert(r@ =~= seq![(a, b)] + rest@.take(0));
    }
    while i < rest.len()
        invariant
            i <= rest@.len(),
            r@ == seq![(a, b)] + rest@.take(i as int),
        decreases rest@.len() - i,
    {
        r.push(rest[i]);
        i = i + 1;
        proof {
            assert(r@ =~= seq![(a, b)] + rest@.take(i as int));
        }
    }
    proof {
        assert(rest@.take(rest@.len() as int) =~= rest@);
    }
    r
}

/// Matches the tokens `toks[ti..]` against `line` starting at `pos`,
/// following `spec_match_at` exactly.
fn match_at(toks: &Vec<Token>, ti: usize, line: &Vec<char>, pos: usize) -> (r: Option<
    Vec<(usize, usize)>,
>)
    requires
        ti <= toks@.len(),
        pos <= line@.len(),
    ensures
        ({
            let m = spec_match_at(toks.deep_view(), ti as int, line@, pos as int);
            match r {
                Some(spans) => m is Some && spans_agree(spans@, m->0) && spans_bounded(
                    spans@,
                    line@.len() as int,
                ),
                None => m is None,
            }
        }),
    decreases toks@.len() - ti, 1int, 0int,
{
    let ghost dv = toks.deep_view();
    let n: usize = line.len();
    if ti == toks.len() {
        let empty: Vec<(usize, usize)> = Vec::new();
        return Some(empty);
    }
    match &toks[ti] {
        Token::Literal(lit) => {
            if literal_matches(line, pos, lit) {
                match_at(toks, ti + 1, line, pos + lit.len())
            } else {
                None
            }
        },
        Token::Placeholder(_) => {
            if pos < n && line[pos] == '"' {
                if let Some(q) = find_char(line, '"', pos + 1) {
                    if let Some(rest) = match_at(toks, ti + 1, line, q + 1) {
                        let spans = cons_span(pos, q + 1, &rest);
                        proof {
                            let m = spec_match_at(dv, ti as int, line@, pos as int);
                            let mr = spec_match_at(dv, ti as int + 1, line@, q as int + 1);
                            assert(m == Some(seq![(pos as int, q as int + 1)] + mr->0));
                            assert(spans_agree(spans@, m->0));
                        }
                        return Some(spans);
                    }
                }
            }
            let bend = match find_char(line, ',', pos) {
                Some(j) => j,
                None => n,
            };
            match_bare(toks, ti + 1, line, pos, bend - pos)
        },
    }
}

/// Tries a bare capture of `len` characters at `start`, then ever shorter
/// ones, following `spec_match_bare` exactly.
fn match_bare(toks: &Vec<Token>, ti: usize, line: &Vec<char>, start: usize, len: usize) -> (r:
    Option<Vec<(usize, usize)>>)
    requires
        ti <= toks@.len(),
        start + len <= line@.len(),
    ensures
        ({
            let m = spec_match_bare(toks.deep_view(), ti as int, line@, start as int, len as int);
            match r {
                Some(spans) => m is Some && spans_agree(spans@, m->0) && spans_bounded(
                    spans@,
                    line@.len() as int,
                ),
                None => m is None,
            }
        }),
    decreases toks@.len() - ti, 2int, len as int,
{
    proof {
        assert(start + len <= line.len());
    }
    match match_at(toks, ti, line, start + len) {
        Some(rest) => {
            let spans = cons_span(start, start + len, &rest);
            proof {
                let m = spec_match_bare(toks.deep_view(), ti as int, line@, start as int, len as int);
                assert(spans_agree(spans@, m->0));
            }
            Some(spans)
        },
        None => {
            if len > 0 {
                match_bare(toks, ti, line, start, len - 1)
            } else {
                None
            }
        },
    }
}

/// Finds the leftmost match of the whole token list in `line`, following
/// `spec_search` exactly.
pub fn search(toks: &Vec<Token>, line: &Vec<char>) -> (r: Option<Vec<(usize, usize)>>)
    ensures
        ({
            let m = spec_search(toks.deep_view(), line@, 0);
            match r {
                Some(spans) => m is Some && spans_agree(spans@, m->0) && spans_bounded(
                    spans@,
                    line@.len() as int,
                ),
                None => m is None,
            }
        }),
{
    let ghost dv = toks.deep_view();
    let mut from: usize = 0;
    loop
        invariant
            dv == toks.deep_view(),
            from <= line@.len(),
            spec_search(dv, line@, 0) == spec_search(dv, line@, from as int),
        decreases line@.len() - from,
    {
        match match_at(toks, 0, line, from) {
            Some(spans) => {
                proof {
                    assert(spec_search(dv, line@, from as int) == spec_match_at(
                        dv,
                        0,
                        line@,
                        from as int,
                    ));
                }
                return Some(spans);
            },
            None => {
                if from == line.len() {
                    proof {
                        assert(spec_search(dv, line@, from as int) is None);
                    }
                    return None;
                }
                let ghost prev = from as int;
                from = from + 1;
                proof {
                    assert(spec_search(dv, line@, prev) == spec_search(dv, line@, from as int));
                }
            },
        }
    }
}

/// Strips one layer of wrapping quotes from each span, following
/// `spec_strip` pointwise.
pub fn strip_spans(line: &Vec<char>, spans: &Vec<(usize, usize)>) -> (r: Vec<(usize, usize)>)
    requires
        spans_bounded(spans@, line@.len() as int),
    ensures
        r@.len() == spans@.len(),
        forall|i: int|
            0 <= i < spans@.len() ==> {
                let s = spec_strip(line@, ((#[trigger] spans@[i]).0 as int, spans@[i].1 as int));
                r@[i].0 == s.0 && r@[i].1 == s.1
            },
        spans_bounded(r@, line@.len() as int),
{
    let mut r: Vec<(usize, usize)> = Vec::new();
    let mut i: usize = 0;
    while i < spans.len()
        invariant
            i <= spans@.len(),
            r@.len() == i,
            spans_bounded(spans@, line@.len() as int),
            forall|k: int|
                0 <= k < i ==> {
                    let s = spec_strip(line@, ((#[trigger] spans@[k]).0 as int, spans@[k].1 as int));
                    r@[k].0 == s.0 && r@[k].1 == s.1
                },
            spans_bounded(r@, line@.len() as int),
        decreases spans@.len() - i,
    {
        let a: usize = spans[i].0;
        let b: usize = spans[i].1;
        assert(a <= b && b <= line@.len());
        if b - a >= 2 && line[a] == '"' && line[b - 1] == '"' {
            r.push((a + 1, b - 1));
        } else {
            r.push((a, b));
        }
        i = i + 1;
    }
    r
}

} // verus!
