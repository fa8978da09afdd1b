use vstd::prelude::*;
use vstd::string::StringExecFns;

use crate::extract::{search, spans_agree, spans_bounded, spec_extract, spec_search, spec_strip,
    strip_spans};
use crate::replace::{rep_in_bounds, spec_transform, RepToken, SpecRepKind};
use crate::template::{spec_balanced, spec_names, spec_names_nonempty, spec_tokenize, tokenize,
    SpecTokenKind, Token};
use crate::text::{chars_to_string, count_char, to_chars};

verus! {

/// Which of the two compiled templates a query refers to.
#[derive(Clone, Copy)]
pub enum Origin {
    Source,
    Target,
}

/// Why a template was rejected, or why a line could not be processed.
#[derive(Clone, Debug, PartialEq)]
pub enum TemplateError {
    /// The template string is empty.
    EmptyTemplate,
    /// The template has a different number of `<` than of `>`.
    UnbalancedBrackets,
    /// A placeholder has a zero-length name.
    EmptyVariableName,
    /// A source template declared no placeholder at all.
    NoVariablesFound,
    /// A target placeholder names no variable of the source template.
    UnknownVariable(String),
    /// The line to split is empty, or no source template is compiled.
    NothingToExtract,
    /// Fewer field values were supplied than the target references.
    TooFewSourceFields,
    /// No replacement template is compiled, or it references no field.
    EmptyReplacementOrNoTargets,
}

/// An ordered list of variable names together with, for each, its position in
/// the source template's variable list.
struct Descriptor {
    variables: Vec<String>,
    positions: Vec<usize>,
}

/// The template compiler and row processor: holds the compiled source and
/// target descriptors, the extraction pattern of the source template, and the
/// replacement tokens of the target template.
pub struct Parser {
    source: Descriptor,
    target: Descriptor,
    extractor: Vec<Token>,
    replacer: Vec<RepToken>,
}

/// The mathematical state of a `Parser`.
pub struct ParserView {
    pub source_vars: Seq<Seq<char>>,
    pub source_positions: Seq<usize>,
    pub target_vars: Seq<Seq<char>>,
    pub target_positions: Seq<usize>,
    pub extractor: Seq<SpecTokenKind>,
    pub replacer: Seq<SpecRepKind>,
}

impl View for Parser {
    type V = ParserView;

    closed spec fn view(&self) -> ParserView {
        ParserView {
            source_vars: self.source.variables.deep_view(),
            source_positions: self.source.positions@,
            target_vars: self.target.variables.deep_view(),
            target_positions: self.target.positions@,
            extractor: self.extractor.deep_view(),
            replacer: self.replacer.deep_view(),
        }
    }
}

/// A parser state with nothing compiled yet.
pub open spec fn spec_parser_cleared(v: ParserView) -> bool {
    &&& v.source_vars.len() == 0
    &&& v.source_positions.len() == 0
    &&& v.target_vars.len() == 0
    &&& v.target_positions.len() == 0
    &&& v.extractor.len() == 0
    &&& v.replacer.len() == 0
}

/// A parser state whose target side holds nothing.
pub open spec fn spec_target_cleared(v: ParserView) -> bool {
    &&& v.target_vars.len() == 0
    &&& v.target_positions.len() == 0
    &&& v.replacer.len() == 0
}

/// The source sides of two parser states are the same.
pub open spec fn spec_source_unchanged(a: ParserView, b: ParserView) -> bool {
    &&& a.source_vars == b.source_vars
    &&& a.source_positions == b.source_positions
    &&& a.extractor == b.extractor
}

/// A source template is accepted when it is nonempty and balanced, every
/// placeholder has a name, and at least one placeholder is declared.
pub open spec fn spec_source_ok(t: Seq<char>) -> bool {
    &&& t.len() > 0
    &&& spec_balanced(t)
    &&& spec_names_nonempty(spec_tokenize(t))
    &&& spec_names(spec_tokenize(t)).len() > 0
}

/// A parser whose source side is the compilation of template `t`: the
/// variables are the template's placeholder names in order, the positions are
/// the identity, and the extraction pattern is the template's token list.
pub open spec fn spec_source_compiled(v: ParserView, t: Seq<char>) -> bool {
    &&& v.source_vars == spec_names(spec_tokenize(t))
    &&& v.source_positions.len() == v.source_vars.len()
    &&& forall|i: int| 0 <= i < v.source_positions.len() ==> v.source_positions[i] == i
    &&& v.extractor == spec_tokenize(t)
}

/// The first problem a target template's placeholders show against the
/// source variables, scanning left to right: a zero-length name, or a name
/// the source does not declare.
pub enum TargetFault {
    EmptyName,
    Unknown(Seq<char>),
}

/// Scans a target template's tokens for the first faulty placeholder.
pub open spec fn spec_target_fault(toks: Seq<SpecTokenKind>, svars: Seq<Seq<char>>) -> Option<
    TargetFault,
>
    decreases toks.len(),
{
    if toks.len() == 0 {
        None
    } else {
        match toks[0] {
            SpecTokenKind::Literal(_) => spec_target_fault(toks.drop_first(), svars),
            SpecTokenKind::Placeholder(n) => if n.len() == 0 {
                Some(TargetFault::EmptyName)
            } else if spec_lookup(svars, n, 0) is None {
                Some(TargetFault::Unknown(n))
            } else {
                spec_target_fault(toks.drop_first(), svars)
            },
        }
    }
}

/// A target template is accepted when it is nonempty and balanced and every
/// placeholder carries a name that the source declares.
pub open spec fn spec_target_ok(t: Seq<char>, svars: Seq<Seq<char>>) -> bool {
    &&& t.len() > 0
    &&& spec_balanced(t)
    &&& spec_target_fault(spec_tokenize(t), svars) is None
}

/// The replacement tokens a target template compiles to against the source
/// variables: literals verbatim, each placeholder a position token holding
/// the first source index of its name.
pub open spec fn spec_replacer(toks: Seq<SpecTokenKind>, svars: Seq<Seq<char>>) -> Seq<
    SpecRepKind,
> {
    toks.map_values(
        |tok: SpecTokenKind|
            match tok {
                SpecTokenKind::Literal(s) => SpecRepKind::Literal(s),
                SpecTokenKind::Placeholder(n) => SpecRepKind::Position(
                    match spec_lookup(svars, n, 0) {
                        Some(j) => j,
                        None => 0,
                    },
                ),
            },
    )
}

/// A parser whose target side is the compilation of template `t` against its
/// own source variables: the target variables are the template's placeholder
/// names in order, each position is its name's first index in the source
/// variables, and the replacement tokens follow `spec_replacer`.
pub open spec fn spec_target_compiled(v: ParserView, t: Seq<char>) -> bool {
    &&& v.target_vars == spec_names(spec_tokenize(t))
    &&& v.target_positions.len() == v.target_vars.len()
    &&& forall|i: int|
        0 <= i < v.target_positions.len() ==> Some((#[trigger] v.target_positions[i]) as int)
            == spec_lookup(v.source_vars, v.target_vars[i], 0)
    &&& v.replacer == spec_replacer(spec_tokenize(t), v.source_vars)
}

/// The least index at or after `from` where `vars` holds the name `n`.
pub open spec fn spec_lookup(vars: Seq<Seq<char>>, n: Seq<char>, from: int) -> Option<int>
    decreases vars.len() - from,
{
    if from < 0 || from >= vars.len() {
        None
    } else if vars[from] == n {
        Some(from)
    } else {
        spec_lookup(vars, n, from + 1)
    }
}

/// A found name index lies between `from` and the end of the list.
pub proof fn lemma_lookup_range(vars: Seq<Seq<char>>, n: Seq<char>, from: int)
    ensures
        match spec_lookup(vars, n, from) {
            Some(j) => from <= j < vars.len() && vars[j] == n,
            None => true,
        },
    decreases vars.len() - from,
{
    if from < 0 || from >= vars.len() {
    } else if vars[from] == n {
    } else {
        lemma_lookup_range(vars, n, from + 1);
    }
}

/// Recompiling an unchanged source template is deterministic: two parsers
/// whose source sides were compiled from the same template hold the same
/// variable list and the same positions, and they extract the same spans
/// from every input line.
pub proof fn lemma_source_recompile_deterministic(
    v1: ParserView,
    v2: ParserView,
    t: Seq<char>,
    line: Seq<char>,
)
    requires
        spec_source_compiled(v1, t),
        spec_source_compiled(v2, t),
    ensures
        v1.source_vars == v2.source_vars,
        v1.source_positions == v2.source_positions,
        spec_extract(v1.extractor, line) == spec_extract(v2.extractor, line),
{
    assert(v1.source_positions =~= v2.source_positions);
}

/// Finds the first entry of `vars` equal to `name`, resolving a target
/// variable against the source variable list.  When a source template holds
/// the same name twice, a target reference resolves to its first occurrence.
fn find_name(vars: &Vec<String>, name: &String) -> (r: Option<usize>)
    ensures
        match r {
            Some(j) => j < vars@.len() && spec_lookup(vars.deep_view(), name@, 0) == Some(j as int),
            None => spec_lookup(vars.deep_view(), name@, 0) is None,
        },
{
    let ghost dv = vars.deep_view();
    let mut i: usize = 0;
    while i < vars.len()
        invariant
            dv == vars.deep_view(),
            i <= vars@.len(),
            spec_lookup(dv, name@, 0) == spec_lookup(dv, name@, i as int),
        decreases vars@.len() - i,
    {
        if vars[i] == *name {
            proof {
                assert(dv[i as int] == vars@[i as int]@);
            }
            return Some(i);
        }
        proof {
            assert(dv[i as int] == vars@[i as int]@);
        }
        i = i + 1;
    }
    None
}

impl Parser {
    /// A parser with no templates compiled.
    pub fn new() -> (r: Parser)
        ensures
            spec_parser_cleared(r@),
    {
        let r = Parser {
            source: Descriptor { variables: Vec::new(), positions: Vec::new() },
            target: Descriptor { variables: Vec::new(), positions: Vec::new() },
            extractor: Vec::new(),
            replacer: Vec::new(),
        };
        proof {
            assert(r@.source_vars =~= Seq::<Seq<char>>::empty());
            assert(r@.target_vars =~= Seq::<Seq<char>>::empty());
            assert(r@.extractor =~= Seq::<SpecTokenKind>::empty());
            assert(r@.replacer =~= Seq::<SpecRepKind>::empty());
        }
        r
    }

    /// The compiled variable names of the chosen template, in declaration
    /// order.
    pub fn variables(&self, origin: Origin) -> (r: &Vec<String>)
        ensures
            r.deep_view() == match origin {
                Origin::Source => self@.source_vars,
                Origin::Target => self@.target_vars,
            },
    {
        match origin {
            Origin::Source => &self.source.variables,
            Origin::Target => &self.target.variables,
        }
    }

    /// For each compiled variable of the chosen template, its position in the
    /// source variable list.  For the source itself this is the identity.
    pub fn positions(&self, origin: Origin) -> (r: &Vec<usize>)
        ensures
            r@ == match origin {
                Origin::Source => self@.source_positions,
                Origin::Target => self@.target_positions,
            },
    {
        match origin {
            Origin::Source => &self.source.positions,
            Origin::Target => &self.target.positions,
        }
    }
    /// Compiles the source template: collects its placeholder names as the
    /// source variables (positions are the identity) and its token list as
    /// the extraction pattern.  Any previous compilation, source or target,
    /// is discarded; on rejection the parser is left with nothing compiled.
    pub fn set_source(&mut self, template: &str) -> (r: Result<(), TemplateError>)
        ensures
            r is Ok <==> spec_source_ok(template@),
            r is Ok ==> spec_source_compiled(final(self)@, template@) && spec_target_cleared(
                final(self)@,
            ) && final(self)@.source_vars.len() > 0,
            r is Err ==> spec_parser_cleared(final(self)@),
            match r {
                Ok(()) => true,
                Err(e) => {
                    let t = template@;
                    let toks = spec_tokenize(t);
                    &&& (e is EmptyTemplate <==> t.len() == 0)
                    &&& (e is UnbalancedBrackets <==> t.len() > 0 && !spec_balanced(t))
                    &&& (e is EmptyVariableName <==> t.len() > 0 && spec_balanced(t)
                        && !spec_names_nonempty(toks))
                    &&& (e is NoVariablesFound <==> t.len() > 0 && spec_balanced(t)
                        && spec_names_nonempty(toks) && spec_names(toks).len() == 0)
                    &&& (e is EmptyTemplate || e is UnbalancedBrackets || e is EmptyVariableName
                        || e is NoVariablesFound)
                },
            },
    {
        self.source = Descriptor { variables: Vec::new(), positions: Vec::new() };
        self.target = Descriptor { variables: Vec::new(), positions: Vec::new() };
        self.extractor = Vec::new();
        self.replacer = Vec::new();
        proof {
            assert(spec_parser_cleared(self@));
        }
        if template.is_empty() {
            return Err(TemplateError::EmptyTemplate);
        }
        let tv = to_chars(template);
        if count_char(&tv, '<') != count_char(&tv, '>') {
            return Err(TemplateError::UnbalancedBrackets);
        }
        let toks = tokenize(&tv);
        let ghost tdv = toks.deep_view();
        let ghost names = spec_names(tdv);
        let mut vars: Vec<String> = Vec::new();
        let mut i: usize = 0;
        proof {
            assert(tdv.skip(0) =~= tdv);
            assert(names =~= vars.deep_view() + spec_names(tdv.skip(0)));
        }
        while i < toks.len()
            invariant
                i <= toks@.len(),
                tdv == toks.deep_view(),
                tdv == spec_tokenize(template@),
                template@.len() > 0,
                spec_balanced(template@),
                spec_parser_cleared(self@),
                names == spec_names(tdv),
                names == vars.deep_view() + spec_names(tdv.skip(i as int)),
                forall|k: int|
                    0 <= k < vars.deep_view().len() ==> (#[trigger] vars.deep_view()[k]).len() > 0,
            decreases toks@.len() - i,
        {
            let ghost vdv = vars.deep_view();
            proof {
                assert(tdv.skip(i as int).drop_first() =~= tdv.skip(i as int + 1));
                assert(tdv.skip(i as int)[0] == tdv[i as int]);
                assert(tdv[i as int] == toks@[i as int].deep_view());
            }
            match &toks[i] {
                Token::Placeholder(name) => {
                    if name.len() == 0 {
                        proof {
                            assert(spec_names(tdv.skip(i as int))[0] == name@);
                            assert(names[vdv.len() as int] == name@);
                            assert(!spec_names_nonempty(tdv));
                        }
                        return Err(TemplateError::EmptyVariableName);
                    }
                    let s = chars_to_string(name, 0, name.len());
                    vars.push(s);
                    proof {
                        assert(s@ =~= name@);
                        assert(vars.deep_view() =~= vdv.push(name@));
                        assert(vdv.push(name@) + spec_names(tdv.skip(i as int + 1)) =~= vdv + (
                        seq![name@] + spec_names(tdv.skip(i as int + 1))));
                        assert(spec_names(tdv.skip(i as int)) == seq![name@] + spec_names(
                            tdv.skip(i as int + 1),
                        ));
                    }
                },
                Token::Literal(_) => {
                    proof {
                        assert(spec_names(tdv.skip(i as int)) == spec_names(tdv.skip(i as int + 1)));
                    }
                },
            }
            i = i + 1;
        }
        proof {
            assert(tdv.skip(toks@.len() as int) =~= Seq::<SpecTokenKind>::empty());
            assert(names =~= vars.deep_view());
            assert(spec_names_nonempty(tdv));
            assert(vars.deep_view().len() == vars@.len());
        }
        if vars.len() == 0 {
            return Err(TemplateError::NoVariablesFound);
        }
        let n = vars.len();
        let mut pos: Vec<usize> = Vec::new();
        let mut j: usize = 0;
        while j < n
            invariant
                j <= n,
                pos@.len() == j,
                forall|k: int| 0 <= k < j ==> pos@[k] == k,
            decreases n - j,
        {
            pos.push(j);
            j = j + 1;
        }
        self.source = Descriptor { variables: vars, positions: pos };
        self.extractor = toks;
        Ok(())
    }
    /// Compiles the target template against the current source variables:
    /// collects the target variable names, resolves each against the source
    /// list (first occurrence wins), and builds the replacement tokens.  The
    /// previous target compilation is discarded; on rejection the target side
    /// is left empty.  The source side is never touched.
    pub fn set_target(&mut self, template: &str) -> (r: Result<(), TemplateError>)
        ensures
            spec_source_unchanged(old(self)@, final(self)@),
            r is Ok <==> spec_target_ok(template@, old(self)@.source_vars),
            r is Ok ==> spec_target_compiled(final(self)@, template@) && rep_in_bounds(
                final(self)@.replacer,
                final(self)@.source_vars.len() as int,
            ) && forall|k: int|
                0 <= k < final(self)@.target_positions.len() ==> (
                #[trigger] final(self)@.target_positions[k]) < final(self)@.source_vars.len(),
            r is Err ==> spec_target_cleared(final(self)@),
            match r {
                Ok(()) => true,
                Err(e) => {
                    let t = template@;
                    let fault = spec_target_fault(spec_tokenize(t), old(self)@.source_vars);
                    &&& (e is EmptyTemplate <==> t.len() == 0)
                    &&& (e is UnbalancedBrackets <==> t.len() > 0 && !spec_balanced(t))
                    &&& (e is EmptyVariableName <==> t.len() > 0 && spec_balanced(t) && fault
                        == Some(TargetFault::EmptyName))
                    &&& (e is UnknownVariable <==> t.len() > 0 && spec_balanced(t) && fault matches
                        Some(TargetFault::Unknown(_)))
                    &&& (e matches TemplateError::UnknownVariable(m) ==> fault == Some(
                        TargetFault::Unknown(m@),
                    ))
                    &&& (e is EmptyTemplate || e is UnbalancedBrackets || e is EmptyVariableName
                        || e is UnknownVariable)
                },
            },
    {
        self.target = Descriptor { variables: Vec::new(), positions: Vec::new() };
        self.replacer = Vec::new();
        proof {
            assert(spec_target_cleared(self@));
            assert(spec_source_unchanged(old(self)@, self@));
        }
        if template.is_empty() {
            return Err(TemplateError::EmptyTemplate);
        }
        let tv = to_chars(template);
        if count_char(&tv, '<') != count_char(&tv, '>') {
            return Err(TemplateError::UnbalancedBrackets);
        }
        let toks = tokenize(&tv);
        let ghost tdv = toks.deep_view();
        let ghost svars = self@.source_vars;
        let ghost names = spec_names(tdv);
        let ghost rep_spec = spec_replacer(tdv, svars);
        let mut tvars: Vec<String> = Vec::new();
        let mut tpos: Vec<usize> = Vec::new();
        let mut rep: Vec<RepToken> = Vec::new();
        let mut i: usize = 0;
        proof {
            assert(tdv.skip(0) =~= tdv);
            assert(names =~= tvars.deep_view() + spec_names(tdv.skip(0)));
            assert(rep.deep_view() =~= rep_spec.take(0));
        }
        while i < toks.len()
            invariant
                i <= toks@.len(),
                tdv == toks.deep_view(),
                tdv == spec_tokenize(template@),
                template@.len() > 0,
                spec_balanced(template@),
                spec_target_cleared(self@),
                spec_source_unchanged(old(self)@, self@),
                svars == self@.source_vars,
                names == spec_names(tdv),
                rep_spec == spec_replacer(tdv, svars),
                names == tvars.deep_view() + spec_names(tdv.skip(i as int)),
                spec_target_fault(tdv, svars) == spec_target_fault(tdv.skip(i as int), svars),
                rep.deep_view() == rep_spec.take(i as int),
                tpos@.len() == tvars.deep_view().len(),
                forall|k: int|
                    0 <= k < tpos@.len() ==> Some((#[trigger] tpos@[k]) as int) == spec_lookup(
                        svars,
                        tvars.deep_view()[k],
                        0,
                    ),
                forall|k: int| 0 <= k < tpos@.len() ==> (#[trigger] tpos@[k]) < svars.len(),
                rep_in_bounds(rep.deep_view(), svars.len() as int),
            decreases toks@.len() - i,
        {
            let ghost vdv = tvars.deep_view();
            let ghost rdv = rep.deep_view();
            proof {
                assert(tdv.skip(i as int).drop_first() =~= tdv.skip(i as int + 1));
                assert(tdv.skip(i as int)[0] == tdv[i as int]);
                assert(tdv[i as int] == toks@[i as int].deep_view());
                assert(rep_spec[i as int] == spec_replacer(tdv, svars)[i as int]);
            }
            match &toks[i] {
                Token::Literal(lit) => {
                    let s = chars_to_string(lit, 0, lit.len());
                    rep.push(RepToken::Literal(s));
                    proof {
                        assert(s@ =~= lit@);
                        assert(rep_spec[i as int] == SpecRepKind::Literal(lit@));
                        assert(rep.deep_view() =~= rdv.push(rep_spec[i as int]));
                        assert(rdv.push(rep_spec[i as int]) =~= rep_spec.take(i as int + 1));
                        assert(spec_target_fault(tdv.skip(i as int), svars) == spec_target_fault(
                            tdv.skip(i as int + 1),
                            svars,
                        ));
                    }
                },
                Token::Placeholder(name) => {
                    if name.len() == 0 {
                        proof {
                            assert(spec_target_fault(tdv.skip(i as int), svars) == Some(
                                TargetFault::EmptyName,
                            ));
                        }
                        return Err(TemplateError::EmptyVariableName);
                    }
                    let s = chars_to_string(name, 0, name.len());
                    proof {
                        assert(s@ =~= name@);
                    }
                    match find_name(&self.source.variables, &s) {
                        Some(idx) => {
                            tvars.push(s);
                            tpos.push(idx);
                            rep.push(RepToken::Position(idx));
                            proof {
                                lemma_lookup_range(svars, name@, 0);
                                assert(spec_names(tdv.skip(i as int)) == seq![name@] + spec_names(
                                    tdv.skip(i as int + 1),
                                ));
                                assert(tvars.deep_view() =~= vdv.push(name@));
                                assert(vdv.push(name@) + spec_names(tdv.skip(i as int + 1)) =~= vdv
                                    + (seq![name@] + spec_names(tdv.skip(i as int + 1))));
                                assert(rep_spec[i as int] == SpecRepKind::Position(idx as int));
                                assert(rep.deep_view() =~= rdv.push(rep_spec[i as int]));
                                assert(rdv.push(rep_spec[i as int]) =~= rep_spec.take(i as int + 1));
                                assert(spec_target_fault(tdv.skip(i as int), svars)
                                    == spec_target_fault(tdv.skip(i as int + 1), svars));
                            }
                        },
                        None => {
                            proof {
                                assert(spec_target_fault(tdv.skip(i as int), svars) == Some(
                                    TargetFault::Unknown(name@),
                                ));
                            }
                            return Err(TemplateError::UnknownVariable(s));
                        },
                    }
                },
            }
            i = i + 1;
        }
        proof {
            assert(tdv.skip(toks@.len() as int) =~= Seq::<SpecTokenKind>::empty());
            assert(names =~= tvars.deep_view());
            assert(spec_target_fault(tdv, svars) is None);
            assert(rep_spec.take(toks@.len() as int) =~= rep_spec);
        }
        self.target = Descriptor { variables: tvars, positions: tpos };
        self.replacer = rep;
        Ok(())
    }

    /// Applies the compiled extraction pattern to one line and returns the
    /// captured field spans as character index pairs, one per source
    /// variable, each with one layer of wrapping quotes stripped.  A line the
    /// pattern does not match yields no spans at all; only an empty line, or
    /// an uncompiled source, is an error.
    pub fn split(&self, row: &str) -> (r: Result<Vec<(usize, usize)>, TemplateError>)
        ensures
            r is Ok <==> row@.len() > 0 && self@.source_vars.len() > 0,
            match r {
                Ok(v) => spans_agree(v@, spec_extract(self@.extractor, row@)) && spans_bounded(
                    v@,
                    row@.len() as int,
                ) && (v@.len() == spec_names(self@.extractor).len() || v@.len() == 0),
                Err(e) => e is NothingToExtract,
            },
    {
        proof {
            assert(self@.source_vars.len() == self.source.variables@.len());
        }
        if row.is_empty() || self.source.variables.len() == 0 {
            return Err(TemplateError::NothingToExtract);
        }
        let line = to_chars(row);
        match search(&self.extractor, &line) {
            Some(sp) => {
                let stripped = strip_spans(&line, &sp);
                proof {
                    crate::extract::lemma_extract_count(self@.extractor, row@, 0);
                    let m = spec_search(self@.extractor, row@, 0);
                    let ext = spec_extract(self@.extractor, row@);
                    assert(ext =~= Seq::new(m->0.len(), |i: int| spec_strip(row@, m->0[i])));
                    assert forall|i: int| 0 <= i < stripped@.len() implies (
                    #[trigger] stripped@[i]).0 == ext[i].0 && stripped@[i].1 == ext[i].1 by {
                        assert((sp@[i].0 as int, sp@[i].1 as int) == m->0[i]);
                    }
                }
                Ok(stripped)
            },
            None => {
                let empty: Vec<(usize, usize)> = Vec::new();
                proof {
                    assert(spec_extract(self@.extractor, row@) =~= Seq::<(int, int)>::empty());
                }
                Ok(empty)
            },
        }
    }

    /// Builds the output line for one row: walks the replacement tokens in
    /// order, copying literal text and substituting the referenced field
    /// value for each position token, every marker consumed exactly once,
    /// each substituted value wrapped in double quotes when `do_quotes` is
    /// set.
    pub fn transform(&self, parts: &Vec<String>, do_quotes: bool) -> (r: Result<
        String,
        TemplateError,
    >)
        requires
            rep_in_bounds(self@.replacer, parts.deep_view().len() as int),
        ensures
            r is Ok <==> self@.replacer.len() > 0 && self@.target_positions.len() > 0
                && parts@.len() >= self@.target_positions.len(),
            match r {
                Ok(out) => out@ == spec_transform(self@.replacer, parts.deep_view(), do_quotes),
                Err(e) => {
                    &&& (e is EmptyReplacementOrNoTargets <==> self@.replacer.len() == 0
                        || self@.target_positions.len() == 0)
                    &&& (e is TooFewSourceFields <==> self@.replacer.len() > 0
                        && self@.target_positions.len() > 0 && parts@.len()
                        < self@.target_positions.len())
                    &&& (e is EmptyReplacementOrNoTargets || e is TooFewSourceFields)
                },
            },
    {
        if self.replacer.len() == 0 || self.target.positions.len() == 0 {
            return Err(TemplateError::EmptyReplacementOrNoTargets);
        }
        if parts.len() < self.target.positions.len() {
            return Err(TemplateError::TooFewSourceFields);
        }
        let ghost rdv = self@.replacer;
        let ghost pdv = parts.deep_view();
        let mut out = String::new();
        let mut i: usize = 0;
        proof {
            assert(rdv.skip(0) =~= rdv);
            assert(out@ + spec_transform(rdv.skip(0), pdv, do_quotes) =~= spec_transform(
                rdv,
                pdv,
                do_quotes,
            ));
        }
        while i < self.replacer.len()
            invariant
                i <= rdv.len(),
                rdv == self@.replacer,
                pdv == parts.deep_view(),
                pdv.len() == parts@.len(),
                rep_in_bounds(rdv, pdv.len() as int),
                spec_transform(rdv, pdv, do_quotes) == out@ + spec_transform(
                    rdv.skip(i as int),
                    pdv,
                    do_quotes,
                ),
            decreases rdv.len() - i,
        {
            let ghost odv = out@;
            proof {
                assert(rdv.skip(i as int).drop_first() =~= rdv.skip(i as int + 1));
                assert(rdv.skip(i as int)[0] == rdv[i as int]);
                assert(rdv[i as int] == self.replacer@[i as int].deep_view());
            }
            match &self.replacer[i] {
                RepToken::Literal(s) => {
                    out.append(s.as_str());
                    proof {
                        assert(spec_transform(rdv.skip(i as int), pdv, do_quotes) == s@
                            + spec_transform(rdv.skip(i as int + 1), pdv, do_quotes));
                        assert(odv + (s@ + spec_transform(rdv.skip(i as int + 1), pdv, do_quotes))
                            =~= out@ + spec_transform(rdv.skip(i as int + 1), pdv, do_quotes));
                    }
                },
                RepToken::Position(p) => {
                    let p = *p;
                    proof {
                        assert(rdv[i as int] matches SpecRepKind::Position(q) && q == p as int);
                        assert(p < pdv.len());
                        assert(pdv[p as int] == parts@[p as int]@);
                    }
                    if do_quotes {
                        out.push('"');
                    }
                    out.append(parts[p].as_str());
                    if do_quotes {
                        out.push('"');
                    }
                    proof {
                        let piece = if do_quotes {
                            seq!['"'] + pdv[p as int] + seq!['"']
                        } else {
                            pdv[p as int]
                        };
                        assert(out@ =~= odv + piece);
                        assert(spec_transform(rdv.skip(i as int), pdv, do_quotes) == piece
                            + spec_transform(rdv.skip(i as int + 1), pdv, do_quotes));
                        assert(odv + (piece + spec_transform(rdv.skip(i as int + 1), pdv, do_quotes))
                            =~= out@ + spec_transform(rdv.skip(i as int + 1), pdv, do_quotes));
                    }
                },
            }
            i = i + 1;
        }
        proof {
            assert(rdv.skip(rdv.len() as int) =~= Seq::<SpecRepKind>::empty());
            assert(out@ =~= spec_transform(rdv, pdv, do_quotes));
        }
        Ok(out)
    }
}

impl Default for Parser {
    /// A parser with no templates compiled.
    fn default() -> (r: Parser)
        ensures
            spec_parser_cleared(r@),
    {
        Parser::new()
    }
}

} // verus!
