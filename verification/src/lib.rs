//! Static analysis and reformatting for random map scripts.
//!
//! The crate tokenizes raw source text into positioned words, parses the word
//! stream into a forgiving stream of syntactic units ("atoms"), tracks
//! cross-statement state (symbol tables, nesting balance, compatibility-gated
//! vocabulary) while a pipeline of lints emits diagnostics, and re-serializes
//! the same atom stream as canonically formatted text.
//!
//! Checking is total: any byte sequence yields a (possibly empty) diagnostic
//! list, never an abort. Diagnostics address byte spans of the given sources
//! and are produced in source order; mapping spans to line/column coordinates
//! is left to the embedding layer.

use vstd::prelude::*;

pub mod balance;
pub mod bytes;
pub mod formatter;
pub mod registry;
pub mod checker;
pub mod compat;
pub mod diagnostics;
pub mod lints;
pub mod parser;
pub mod wordize;

pub use checker::Checker;
pub use checker::CheckerBuilder;
pub use checker::Nesting;
pub use checker::ParseState;
pub use checker::parse_header_name;
pub use compat::Compatibility;
pub use diagnostics::AutoFixReplacement;
pub use diagnostics::Severity;
pub use diagnostics::Suggestion;
pub use diagnostics::Warning;
pub use lints::Lint;
pub use wordize::Word;

use checker::initial_state;
use checker::spec_atom_warnings;
use checker::spec_checker_step;
use checker::spec_unclosed;
use checker::StateV;
use diagnostics::spec_new_warning;
use diagnostics::WarningV;
use parser::parse_step;
use parser::WarningKind;
use wordize::spec_words;

verus! {

/// The message of each parser-level defect.
pub open spec fn spec_parse_message(kind: WarningKind) -> Seq<char> {
    match kind {
        WarningKind::MissingConstName => "Missing const name."@,
        WarningKind::MissingConstValue => "Missing const value."@,
        WarningKind::MissingDefineName => "Missing define name."@,
        WarningKind::MissingCommandArgs => "Missing command arguments."@,
        WarningKind::MissingIfCondition => "Missing `if` condition."@,
        WarningKind::MissingPercentChance => "Missing `percent_chance` weight."@,
        WarningKind::UnclosedComment => "Unclosed comment."@,
    }
}

/// The diagnostic one parser-level warning surfaces as.
pub open spec fn spec_parse_warning(file: u32, w: parser::Warning) -> WarningV {
    lints::spec_tag(
        spec_new_warning(Severity::Warning, file, w.span, spec_parse_message(w.kind)),
        "parse"@,
    )
}

/// Surface one parser-level warning as a diagnostic.
fn parse_warning_diag(file: u32, w: &parser::Warning) -> (r: Warning)
    ensures
        r@ == spec_parse_warning(file, *w),
{
    let message = match w.kind {
        WarningKind::MissingConstName => "Missing const name.",
        WarningKind::MissingConstValue => "Missing const value.",
        WarningKind::MissingDefineName => "Missing define name.",
        WarningKind::MissingCommandArgs => "Missing command arguments.",
        WarningKind::MissingIfCondition => "Missing `if` condition.",
        WarningKind::MissingPercentChance => "Missing `percent_chance` weight.",
        WarningKind::UnclosedComment => "Unclosed comment.",
    };
    Warning::warning(file, w.span, message.to_owned()).lint("parse")
}

/// One checking pass: accumulated diagnostics and the state left behind.
pub ghost struct RunV {
    pub warnings: Seq<WarningV>,
    pub state: StateV,
}

/// The checking pass over the atoms of one source from word index `i`
/// on: for each atom, first its parser-level warnings, then the lint and
/// nesting diagnostics, with the state folded forward.
pub open spec fn spec_check_from(
    lints: Seq<Lint>,
    sv: StateV,
    src: Seq<u8>,
    ws: Seq<wordize::WordV>,
    i: int,
    file: u32,
) -> RunV
    decreases ws.len() - i,
    via spec_check_from_dec
{
    if i < 0 || i >= ws.len() {
        RunV { warnings: Seq::empty(), state: sv }
    } else {
        let st = parse_step(src, ws, i);
        let here = st.warnings.map_values(|pw: parser::Warning| spec_parse_warning(file, pw))
            + spec_atom_warnings(lints, sv, st.atom);
        let rest = spec_check_from(lints, spec_checker_step(sv, st.atom), src, ws, st.next, file);
        RunV { warnings: here + rest.warnings, state: rest.state }
    }
}

#[via_fn]
proof fn spec_check_from_dec(
    lints: Seq<Lint>,
    sv: StateV,
    src: Seq<u8>,
    ws: Seq<wordize::WordV>,
    i: int,
    file: u32,
) {
    if 0 <= i < ws.len() {
        parser::lemma_parse_step_next(src, ws, i);
    }
}

/// The checking pass over one whole source.
pub open spec fn spec_check_source(lints: Seq<Lint>, sv: StateV, src: Seq<u8>, file: u32) -> RunV {
    spec_check_from(lints, sv, src, spec_words(src, 0, file), 0, file)
}

/// The checking pass over a list of sources, logically concatenated in
/// order: state carries over from one source to the next, so symbols
/// defined in an earlier source are visible in later ones.
pub open spec fn spec_check_sources(
    lints: Seq<Lint>,
    sv: StateV,
    sources: Seq<Seq<u8>>,
    k: int,
) -> RunV
    decreases sources.len() - k,
{
    if k < 0 || k >= sources.len() {
        RunV { warnings: Seq::empty(), state: sv }
    } else {
        let run = spec_check_source(lints, sv, sources[k], k as u32);
        let rest = spec_check_sources(lints, run.state, sources, k + 1);
        RunV { warnings: run.warnings + rest.warnings, state: rest.state }
    }
}

/// Everything a whole check run returns: the diagnostics of every source
/// in order, followed by one diagnostic per construct left unclosed at
/// end of input.
pub open spec fn spec_check(
    lints: Seq<Lint>,
    compatibility: Compatibility,
    sources: Seq<Seq<u8>>,
) -> Seq<WarningV> {
    let run = spec_check_sources(lints, initial_state(compatibility), sources, 0);
    run.warnings + spec_unclosed(run.state.nesting, 0)
}

/// The outcome of one check run.
pub struct RMSCheckResult {
    warnings: Vec<Warning>,
}

impl RMSCheckResult {
    /// The diagnostics, in source order.
    pub closed spec fn spec_warnings(&self) -> Seq<WarningV> {
        self.warnings@.map_values(|w: Warning| w@)
    }

    /// Were any problems found?
    pub fn has_warnings(&self) -> (r: bool)
        ensures
            r == (self.spec_warnings().len() > 0),
    {
        self.warnings.len() > 0
    }

    /// The diagnostics, in source order.
    pub fn warnings(&self) -> (r: &Vec<Warning>)
        ensures
            r@.map_values(|w: Warning| w@) == self.spec_warnings(),
    {
        &self.warnings
    }
}

/// A check run under construction: the lints to use, the compatibility
/// level to start from, and the sources in the order they are to be
/// checked.
pub struct RMSCheck {
    /// The lints to run, in order.
    pub lints: Vec<Lint>,
    /// The compatibility level the run starts at.
    pub compatibility: Compatibility,
    /// The name of each source, in order; source `k` gets file id `k`.
    pub names: Vec<String>,
    /// The text of each source, in order.
    pub sources: Vec<Vec<u8>>,
}

impl Default for RMSCheck {
    /// A run with every built-in lint.
    fn default() -> (r: RMSCheck)
        ensures
            r.lints@ == seq![
                Lint::AttributeCase,
                Lint::CommentContents,
                Lint::Compatibility,
                Lint::DeadBranch,
                Lint::Include,
                Lint::IncorrectSection,
            ],
            r.compatibility == Compatibility::Conquerors,
            r.names@.len() == 0,
            r.sources@.len() == 0,
    {
        let r = RMSCheck::new().with_lint(Lint::AttributeCase).with_lint(
            Lint::CommentContents,
        ).with_lint(Lint::Compatibility).with_lint(Lint::DeadBranch).with_lint(
            Lint::Include,
        ).with_lint(Lint::IncorrectSection);
        proof {
            assert(r.lints@ =~= seq![
                Lint::AttributeCase,
                Lint::CommentContents,
                Lint::Compatibility,
                Lint::DeadBranch,
                Lint::Include,
                Lint::IncorrectSection,
            ]);
        }
        r
    }
}

impl RMSCheck {
    /// A run with no lints and no sources, targeting the default
    /// compatibility.
    pub fn new() -> (r: RMSCheck)
        ensures
            r.lints@.len() == 0,
            r.compatibility == Compatibility::Conquerors,
            r.names@.len() == 0,
            r.sources@.len() == 0,
    {
        RMSCheck {
            lints: Vec::new(),
            compatibility: Compatibility::Conquerors,
            names: Vec::new(),
            sources: Vec::new(),
        }
    }

    /// Set the compatibility level the run starts at.
    pub fn compatibility(self, compatibility: Compatibility) -> (r: RMSCheck)
        ensures
            r.lints@ == self.lints@,
            r.compatibility == compatibility,
            r.names@ == self.names@,
            r.sources@ == self.sources@,
    {
        RMSCheck { compatibility, ..self }
    }

    /// Add one lint to the pipeline.
    pub fn with_lint(self, lint: Lint) -> (r: RMSCheck)
        ensures
            r.lints@ == self.lints@.push(lint),
            r.compatibility == self.compatibility,
            r.names@ == self.names@,
            r.sources@ == self.sources@,
    {
        let mut s = self;
        s.lints.push(lint);
        s
    }

    /// Add one named source text; sources are checked in the order they
    /// were added, and diagnostics refer to a source by its index.
    pub fn add_source(self, name: &str, source: &[u8]) -> (r: RMSCheck)
        ensures
            r.lints@ == self.lints@,
            r.compatibility == self.compatibility,
            r.names@.len() == self.names@.len() + 1,
            r.sources@.len() == self.sources@.len() + 1,
            r.sources@.map_values(|s: Vec<u8>| s@) == self.sources@.map_values(
                |s: Vec<u8>| s@,
            ).push(source@),
    {
        let mut s = self;
        s.names.push(name.to_owned());
        let ghost pre = s.sources@.map_values(|x: Vec<u8>| x@);
        s.sources.push(crate::bytes::sub_bytes(source, 0, source.len()));
        proof {
            assert(source@.subrange(0, source@.len() as int) =~= source@);
            assert(s.sources@.map_values(|x: Vec<u8>| x@) =~= pre.push(source@));
        }
        s
    }

    /// Run the check: parse every source in order, stream the atoms
    /// through the lints and the state, and report every construct left
    /// unclosed at the end.
    pub fn check(self) -> (r: RMSCheckResult)
        requires
            self.sources@.len() < 0xFFFF_FFFFusize,
        ensures
            r.spec_warnings() == spec_check(
                self.lints@,
                self.compatibility,
                self.sources@.map_values(|s: Vec<u8>| s@),
            ),
    {
        let ghost lints0 = self.lints@;
        let ghost srcs = self.sources@.map_values(|s: Vec<u8>| s@);
        let ghost init = initial_state(self.compatibility);
        let builder = CheckerBuilder { lints: self.lints, compatibility: self.compatibility };
        let mut checker = builder.build();
        let mut warnings: Vec<Warning> = Vec::new();
        let mut f: usize = 0;
        while f < self.sources.len()
            invariant
                f <= self.sources@.len(),
                self.sources@.len() < 0xFFFF_FFFFusize,
                srcs == self.sources@.map_values(|s: Vec<u8>| s@),
                checker.wf(),
                checker.lints@ == lints0,
                spec_check_sources(lints0, init, srcs, 0).warnings == warnings@.map_values(
                    |w: Warning| w@,
                ) + spec_check_sources(lints0, checker.state@, srcs, f as int).warnings,
                spec_check_sources(lints0, init, srcs, 0).state == spec_check_sources(
                    lints0,
                    checker.state@,
                    srcs,
                    f as int,
                ).state,
            decreases self.sources@.len() - f,
        {
            let ghost sv_entry = checker.state@;
            let ghost base = warnings@.map_values(|w: Warning| w@);
            let source = &self.sources[f];
            let mut parser = parser::Parser::new(f as u32, source.as_slice());
            let ghost src_v = srcs[f as int];
            let ghost ws = spec_words(src_v, 0, f as u32);
            proof {
                assert(source@ == src_v);
                assert(parser.words() == ws);
                assert(spec_check_from(lints0, sv_entry, src_v, ws, 0, f as u32)
                    == spec_check_source(lints0, sv_entry, srcs[f as int], f as u32));
            }
            loop
                invariant
                    parser.wf(),
                    parser.src() == src_v,
                    parser.words() == ws,
                    checker.wf(),
                    checker.lints@ == lints0,
                    ({
                        let full = spec_check_from(lints0, sv_entry, src_v, ws, 0, f as u32);
                        let rem = spec_check_from(
                            lints0,
                            checker.state@,
                            src_v,
                            ws,
                            parser.pos(),
                            f as u32,
                        );
                        &&& base + full.warnings == warnings@.map_values(|w: Warning| w@)
                            + rem.warnings
                        &&& full.state == rem.state
                    }),
                ensures
                    checker.wf(),
                    checker.lints@ == lints0,
                    ({
                        let full = spec_check_from(lints0, sv_entry, src_v, ws, 0, f as u32);
                        &&& base + full.warnings == warnings@.map_values(|w: Warning| w@)
                        &&& full.state == checker.state@
                    }),
                decreases ws.len() - parser.pos(),
            {
                let ghost pre_pos = parser.pos();
                let ghost sv_pre = checker.state@;
                proof {
                    parser.lemma_pos_bounds();
                }
                match parser.next() {
                    Some((atom, pwarns)) => {
                        let ghost st = parse_step(src_v, ws, pre_pos);
                        proof {
                            assert(pre_pos < ws.len());
                            parser::lemma_parse_step_next(src_v, ws, pre_pos);
                            assert(atom@ == st.atom);
                            assert(pwarns@ == st.warnings);
                            assert(spec_check_from(
                                lints0,
                                sv_pre,
                                src_v,
                                ws,
                                pre_pos,
                                f as u32,
                            ).warnings == (st.warnings.map_values(
                                |pw: parser::Warning| spec_parse_warning(f as u32, pw),
                            ) + spec_atom_warnings(lints0, sv_pre, st.atom)) + spec_check_from(
                                lints0,
                                spec_checker_step(sv_pre, st.atom),
                                src_v,
                                ws,
                                st.next,
                                f as u32,
                            ).warnings);
                        }
                        let ghost wpre = warnings@.map_values(|w: Warning| w@);
                        let mut j: usize = 0;
                        while j < pwarns.len()
                            invariant
                                j <= pwarns@.len(),
                                warnings@.map_values(|w: Warning| w@) == wpre + pwarns@.take(
                                    j as int,
                                ).map_values(
                                    |pw: parser::Warning| spec_parse_warning(f as u32, pw),
                                ),
                            decreases pwarns@.len() - j,
                        {
                            let ghost cur = warnings@.map_values(|w: Warning| w@);
                            warnings.push(parse_warning_diag(f as u32, &pwarns[j]));
                            proof {
                                assert(warnings@.map_values(|w: Warning| w@) =~= cur.push(
                                    spec_parse_warning(f as u32, pwarns@[j as int]),
                                ));
                                assert(pwarns@.take(j + 1).map_values(
                                    |pw: parser::Warning| spec_parse_warning(f as u32, pw),
                                ) =~= pwarns@.take(j as int).map_values(
                                    |pw: parser::Warning| spec_parse_warning(f as u32, pw),
                                ).push(spec_parse_warning(f as u32, pwarns@[j as int])));
                                assert(warnings@.map_values(|w: Warning| w@) =~= wpre
                                    + pwarns@.take(j + 1).map_values(
                                    |pw: parser::Warning| spec_parse_warning(f as u32, pw),
                                ));
                            }
                            j = j + 1;
                        }
                        proof {
                            assert(pwarns@.take(pwarns@.len() as int) =~= pwarns@);
                        }
                        let mut produced = checker.write_atom(&atom);
                        let ghost produced_v = produced@.map_values(|w: Warning| w@);
                        let ghost mid = warnings@.map_values(|w: Warning| w@);
                        warnings.append(&mut produced);
                        proof {
                            assert(warnings@.map_values(|w: Warning| w@) =~= mid + produced_v);
                            assert(warnings@.map_values(|w: Warning| w@) =~= wpre + (
                            st.warnings.map_values(
                                |pw: parser::Warning| spec_parse_warning(f as u32, pw),
                            ) + spec_atom_warnings(lints0, sv_pre, st.atom)));
                            assert(base + spec_check_from(
                                lints0,
                                sv_entry,
                                src_v,
                                ws,
                                0,
                                f as u32,
                            ).warnings =~= warnings@.map_values(|w: Warning| w@)
                                + spec_check_from(
                                lints0,
                                checker.state@,
                                src_v,
                                ws,
                                parser.pos(),
                                f as u32,
                            ).warnings);
                        }
                    },
                    None => {
                        proof {
                            assert(spec_check_from(
                                lints0,
                                checker.state@,
                                src_v,
                                ws,
                                parser.pos(),
                                f as u32,
                            ).warnings =~= Seq::<WarningV>::empty());
                        }
                        break ;
                    },
                }
            }
            proof {
                let full = spec_check_from(lints0, sv_entry, src_v, ws, 0, f as u32);
                assert(spec_check_sources(lints0, sv_entry, srcs, f as int).warnings
                    == full.warnings + spec_check_sources(
                    lints0,
                    full.state,
                    srcs,
                    f + 1,
                ).warnings);
                assert(spec_check_sources(lints0, sv_entry, srcs, f as int).state
                    == spec_check_sources(lints0, full.state, srcs, f + 1).state);
                assert(spec_check_sources(lints0, init, srcs, 0).warnings =~= warnings@.map_values(
                    |w: Warning| w@,
                ) + spec_check_sources(lints0, checker.state@, srcs, f + 1).warnings);
            }
            f = f + 1;
        }
        proof {
            assert(spec_check_sources(lints0, checker.state@, srcs, f as int).warnings =~= Seq::<
                WarningV,
            >::empty());
            assert(spec_check_sources(lints0, init, srcs, 0).warnings =~= warnings@.map_values(
                |w: Warning| w@,
            ));
            assert(spec_check_sources(lints0, init, srcs, 0).state == checker.state@);
        }
        let ghost pre_unclosed = warnings@.map_values(|w: Warning| w@);
        let mut unclosed = checker.state.unclosed_warnings();
        let ghost unclosed_v = unclosed@.map_values(|w: Warning| w@);
        warnings.append(&mut unclosed);
        proof {
            assert(warnings@.map_values(|w: Warning| w@) =~= pre_unclosed + unclosed_v);
        }
        let result = RMSCheckResult { warnings };
        result
    }
}

/// Check one random map script for errors and other issues, with the
/// default lints.
pub fn check(source: &[u8], compatibility: Compatibility) -> (r: RMSCheckResult)
    ensures
        r.spec_warnings() == spec_check(
            seq![
                Lint::AttributeCase,
                Lint::CommentContents,
                Lint::Compatibility,
                Lint::DeadBranch,
                Lint::Include,
                Lint::IncorrectSection,
            ],
            compatibility,
            seq![source@],
        ),
{
    let run = RMSCheck::default().compatibility(compatibility).add_source("source.rms", source);
    proof {
        assert(run.sources@.map_values(|s: Vec<u8>| s@) =~= seq![source@]);
    }
    run.check()
}


/// The atoms of a parse, without their warnings.
pub open spec fn atoms_of(items: Seq<(parser::AtomV, Seq<parser::Warning>)>) -> Seq<
    parser::AtomV,
> {
    items.map_values(|p: (parser::AtomV, Seq<parser::Warning>)| p.0)
}

/// Folding from a later index is folding over the suffix.
proof fn lemma_run_steps_shift(sv: StateV, atoms: Seq<parser::AtomV>, k: int)
    requires
        0 <= k <= atoms.len(),
    ensures
        checker::run_steps(sv, atoms, k) == checker::run_steps(sv, atoms.skip(k), 0),
    decreases atoms.len() - k,
{
    if k < atoms.len() {
        assert(atoms.skip(k)[0] == atoms[k]);
        let sv2 = spec_checker_step(sv, atoms[k]);
        lemma_run_steps_shift(sv2, atoms, k + 1);
        assert(atoms.skip(k + 1) =~= atoms.skip(k).skip(1));
        lemma_run_steps_skip_one(sv2, atoms.skip(k));
    } else {
        assert(atoms.skip(k) =~= Seq::<parser::AtomV>::empty());
    }
}

/// Folding a nonempty sequence from its second element equals folding
/// its first-dropped form from the start.
proof fn lemma_run_steps_skip_one(sv: StateV, atoms: Seq<parser::AtomV>)
    requires
        1 <= atoms.len(),
    ensures
        checker::run_steps(sv, atoms, 1) == checker::run_steps(sv, atoms.skip(1), 0),
    decreases atoms.len(),
{
    lemma_run_steps_align(sv, atoms, 1);
}

/// Folding `atoms` from `k` equals folding `atoms.skip(1)` from `k - 1`.
proof fn lemma_run_steps_align(sv: StateV, atoms: Seq<parser::AtomV>, k: int)
    requires
        1 <= k,
        1 <= atoms.len(),
    ensures
        checker::run_steps(sv, atoms, k) == checker::run_steps(sv, atoms.skip(1), k - 1),
    decreases atoms.len() - k,
{
    if k < atoms.len() {
        assert(atoms.skip(1)[k - 1] == atoms[k]);
        lemma_run_steps_align(spec_checker_step(sv, atoms[k]), atoms, k + 1);
    }
}

/// The state a checking pass leaves behind is the fold of the checker
/// step over the atoms it parsed.
proof fn lemma_check_state_fold(
    lints: Seq<Lint>,
    sv: StateV,
    src: Seq<u8>,
    ws: Seq<wordize::WordV>,
    i: int,
    file: u32,
)
    requires
        0 <= i,
    ensures
        spec_check_from(lints, sv, src, ws, i, file).state == checker::run_steps(
            sv,
            atoms_of(parser::parse_from(src, ws, i)),
            0,
        ),
    decreases ws.len() - i,
{
    if i >= ws.len() {
        assert(atoms_of(parser::parse_from(src, ws, i)) =~= Seq::<parser::AtomV>::empty());
    } else {
        let st = parse_step(src, ws, i);
        parser::lemma_parse_step_next(src, ws, i);
        lemma_check_state_fold(lints, spec_checker_step(sv, st.atom), src, ws, st.next, file);
        let items = parser::parse_from(src, ws, i);
        let rest_items = parser::parse_from(src, ws, st.next);
        assert(atoms_of(items) =~= seq![st.atom] + atoms_of(rest_items));
        assert(atoms_of(items)[0] == st.atom);
        assert(atoms_of(items).skip(1) =~= atoms_of(rest_items));
        lemma_run_steps_skip_one(spec_checker_step(sv, st.atom), atoms_of(items));
    }
}

/// Balance symmetry at the check level: when the atoms of a source are
/// balanced, the whole check leaves the nesting stack empty and appends
/// no end-of-input diagnostic, so its diagnostics are exactly the
/// per-atom ones.
pub proof fn lemma_balanced_source_check(
    lints: Seq<Lint>,
    compatibility: Compatibility,
    src: Seq<u8>,
)
    requires
        balance::balanced(atoms_of(parser::spec_parse(src, 0))),
    ensures
        spec_check_sources(lints, initial_state(compatibility), seq![src], 0).state.nesting
            == Seq::<checker::NestingV>::empty(),
        spec_check(lints, compatibility, seq![src]) == spec_check_sources(
            lints,
            initial_state(compatibility),
            seq![src],
            0,
        ).warnings,
{
    let init = initial_state(compatibility);
    let sources = seq![src];
    let run = spec_check_source(lints, init, sources[0], 0);
    assert(spec_check_sources(lints, run.state, sources, 1).state == run.state);
    assert(spec_check_sources(lints, init, sources, 0).state == run.state);
    let atoms = atoms_of(parser::spec_parse(src, 0));
    lemma_check_state_fold(lints, init, src, spec_words(src, 0, 0), 0, 0);
    balance::lemma_checker_follows_machine(init, atoms, 0);
    balance::lemma_balanced_no_diagnostics(atoms);
    assert(run.state.nesting =~= Seq::<checker::NestingV>::empty());
    assert(spec_unclosed(run.state.nesting, 0) =~= Seq::<WarningV>::empty());
    assert(spec_check(lints, compatibility, sources) =~= spec_check_sources(
        lints,
        init,
        sources,
        0,
    ).warnings);
}

} // verus!
