use vstd::prelude::*;

verus! {

/// One piece of a compiled replacement template: literal text kept verbatim,
/// or a reference to a source field by its position in the source variable
/// list.  Markers are whole tokens, so substituting one position can never
/// touch the text that another position produces.
pub enum RepToken {
    Literal(String),
    Position(usize),
}

/// The mathematical counterpart of `RepToken`.
pub enum SpecRepKind {
    Literal(Seq<char>),
    Position(int),
}

impl View for RepToken {
    type V = SpecRepKind;

    open spec fn view(&self) -> SpecRepKind {
        match self {
            RepToken::Literal(s) => SpecRepKind::Literal(s@),
            RepToken::Position(p) => SpecRepKind::Position(*p as int),
        }
    }
}

impl DeepView for RepToken {
    type V = SpecRepKind;

    open spec fn deep_view(&self) -> SpecRepKind {
        self.view()
    }
}

/// Every position referenced by the replacement tokens lies below `n`.
pub open spec fn rep_in_bounds(rep: Seq<SpecRepKind>, n: int) -> bool {
    forall|i: int|
        0 <= i < rep.len() ==> ((#[trigger] rep[i]) matches SpecRepKind::Position(p) ==> 0 <= p
            < n)
}

/// The output of a replacement template applied to a list of field values:
/// literal tokens stay verbatim, and each position token becomes that field's
/// value, wrapped in one pair of double quotes when `quote` is set.
pub open spec fn spec_transform(rep: Seq<SpecRepKind>, parts: Seq<Seq<char>>, quote: bool) -> Seq<
    char,
>
    decreases rep.len(),
{
    if rep.len() == 0 {
        Seq::empty()
    } else {
        (match rep[0] {
            SpecRepKind::Literal(s) => s,
            SpecRepKind::Position(p) => if quote {
                seq!['"'] + parts[p] + seq!['"']
            } else {
                parts[p]
            },
        }) + spec_transform(rep.drop_first(), parts, quote)
    }
}

/// Each token contributes its own text independently of the others:
/// transforming a concatenation of token lists concatenates their outputs.
pub proof fn lemma_transform_append(
    a: Seq<SpecRepKind>,
    b: Seq<SpecRepKind>,
    parts: Seq<Seq<char>>,
    quote: bool,
)
    ensures
        spec_transform(a + b, parts, quote) == spec_transform(a, parts, quote) + spec_transform(
            b,
            parts,
            quote,
        ),
    decreases a.len(),
{
    if a.len() == 0 {
        assert(a + b =~= b);
        assert(spec_transform(a, parts, quote) + spec_transform(b, parts, quote) =~= spec_transform(
            b,
            parts,
            quote,
        ));
    } else {
        assert((a + b).drop_first() =~= a.drop_first() + b);
        lemma_transform_append(a.drop_first(), b, parts, quote);
        assert(spec_transform(a + b, parts, quote) =~= spec_transform(a, parts, quote)
            + spec_transform(b, parts, quote));
    }
}

/// Substituting one field can never corrupt the text produced for another:
/// two field lists that agree on every position the template references give
/// exactly the same output, whatever the other fields hold.
pub proof fn lemma_substitution_independent(
    rep: Seq<SpecRepKind>,
    parts1: Seq<Seq<char>>,
    parts2: Seq<Seq<char>>,
    quote: bool,
)
    requires
        forall|i: int|
            0 <= i < rep.len() ==> ((#[trigger] rep[i]) matches SpecRepKind::Position(p)
                ==> parts1[p] == parts2[p]),
    ensures
        spec_transform(rep, parts1, quote) == spec_transform(rep, parts2, quote),
    decreases rep.len(),
{
    if rep.len() > 0 {
        assert(forall|i: int|
            0 <= i < rep.drop_first().len() ==> ((#[trigger] rep.drop_first()[i])
                matches SpecRepKind::Position(p) ==> parts1[p] == parts2[p])) by {
            assert(forall|i: int|
                0 <= i < rep.drop_first().len() ==> rep.drop_first()[i] == rep[i + 1]);
        }
        lemma_substitution_independent(rep.drop_first(), parts1, parts2, quote);
    }
}

} // verus!
