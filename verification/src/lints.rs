//! The built-in lints: independent analyses invoked once per atom, each
//! given read access to the shared checker state, producing diagnostics.
//!
//! Lints observe the state as of all atoms before the current one: the
//! checker runs them before it commits the state update for the atom.

use vstd::prelude::*;
use crate::bytes::lower;
use crate::checker::ParseState;
use crate::checker::StateV;
use crate::compat::Compatibility;
use crate::diagnostics::spec_new_warning;
use crate::diagnostics::AutoFixReplacementV;
use crate::diagnostics::DiagnosticV;
use crate::diagnostics::Severity;
use crate::diagnostics::Suggestion;
use crate::diagnostics::SuggestionV;
use crate::diagnostics::Warning;
use crate::diagnostics::WarningV;
use crate::parser::spec_file_id;
use crate::parser::spec_span;
use crate::parser::word_span;
use crate::parser::Atom;
use crate::parser::AtomV;
use crate::registry::spec_command_info;
use crate::registry::spec_section_rank;

verus! {

/// The built-in analyses. Each is a named capability invoked once per
/// atom.
#[derive(Debug, Clone, Copy, PartialEq, Eq, Structural)]
pub enum Lint {
    /// Flags command names not written in lowercase and offers the
    /// lowercase spelling as a safe replacement.
    AttributeCase,
    /// Flags comments that contain command text, which usually means
    /// code was commented out.
    CommentContents,
    /// Flags commands that the targeted compatibility level does not
    /// know.
    Compatibility,
    /// Flags conditional branches whose condition no known `#define`
    /// could ever satisfy.
    DeadBranch,
    /// Flags include directives outside builtin maps, the only place
    /// the engine accepts them.
    Include,
    /// Flags `<SECTION>` headers that appear out of their canonical
    /// order.
    IncorrectSection,
}

/// The immutable name tag of each lint.
pub open spec fn spec_lint_name(l: Lint) -> Seq<char> {
    match l {
        Lint::AttributeCase => "attribute-case"@,
        Lint::CommentContents => "comment-contents"@,
        Lint::Compatibility => "compatibility"@,
        Lint::DeadBranch => "dead-branch"@,
        Lint::Include => "include"@,
        Lint::IncorrectSection => "incorrect-section"@,
    }
}

/// What the case-style lint says of one atom.
pub open spec fn spec_attribute_case(a: AtomV) -> Seq<WarningV> {
    match a {
        AtomV::Command(name, _) => if lower(name.value) != name.value {
            seq![
                WarningV {
                    diagnostic: spec_new_warning(
                        Severity::Warning,
                        name.file,
                        word_span(name),
                        "Command names should be lowercase."@,
                    ).diagnostic,
                    suggestions: seq![
                        SuggestionV {
                            file_id: name.file,
                            span: word_span(name),
                            message: "Use the lowercase name instead."@,
                            replacement: AutoFixReplacementV::Safe(lower(name.value)),
                        },
                    ],
                },
            ]
        } else {
            Seq::empty()
        },
        _ => Seq::empty(),
    }
}

/// What the compatibility-gating lint says of one atom: a command whose
/// registry entry asks for a higher level than the one targeted is
/// flagged.
pub open spec fn spec_compatibility_lint(compat: Compatibility, a: AtomV) -> Seq<WarningV> {
    match a {
        AtomV::Command(name, _) => match spec_command_info(lower(name.value)) {
            Some(info) => if info.min_level > compat.spec_level() {
                seq![
                    spec_new_warning(
                        Severity::Warning,
                        spec_file_id(a),
                        spec_span(a),
                        "This command is not available at the targeted compatibility level."@,
                    ),
                ]
            } else {
                Seq::empty()
            },
            None => Seq::empty(),
        },
        _ => Seq::empty(),
    }
}

/// What the section-ordering lint says of one atom: a known section that
/// does not strictly follow the previously opened known section is
/// flagged.
pub open spec fn spec_incorrect_section(current: Option<AtomV>, a: AtomV) -> Seq<WarningV> {
    match a {
        AtomV::Section(name) => match current {
            Some(AtomV::Section(prev)) => if spec_section_rank(name.value) is Some
                && spec_section_rank(prev.value) is Some && spec_section_rank(
                name.value,
            )->Some_0 <= spec_section_rank(prev.value)->Some_0 {
                seq![
                    spec_new_warning(
                        Severity::Warning,
                        spec_file_id(a),
                        spec_span(a),
                        "This section is out of place; sections have a fixed order."@,
                    ),
                ]
            } else {
                Seq::empty()
            },
            _ => Seq::empty(),
        },
        _ => Seq::empty(),
    }
}

/// Does any word of a comment body spell a registered command name?
pub open spec fn any_command_word(ws: Seq<crate::wordize::WordV>, k: int) -> bool
    decreases ws.len() - k,
{
    if k < 0 || k >= ws.len() {
        false
    } else {
        spec_command_info(lower(ws[k].value)) is Some || any_command_word(ws, k + 1)
    }
}

/// What the comment-contents lint says of one atom: a comment whose
/// text contains a registered command name looks like commented-out
/// code and is flagged.
pub open spec fn spec_comment_contents(a: AtomV) -> Seq<WarningV> {
    match a {
        AtomV::Comment(_, content, _) => if any_command_word(
            crate::wordize::spec_words(content, 0, 0),
            0,
        ) {
            seq![
                spec_new_warning(
                    Severity::Warning,
                    spec_file_id(a),
                    spec_span(a),
                    "This comment contains command text; was code commented out?"@,
                ),
            ]
        } else {
            Seq::empty()
        },
        _ => Seq::empty(),
    }
}

/// What the dead-branch lint says of one atom: an `if` or `elseif`
/// condition that no builtin, user or optional `#define` could satisfy
/// marks a branch that never runs.
pub open spec fn spec_dead_branch(sv: StateV, a: AtomV) -> Seq<WarningV> {
    match a {
        AtomV::If(_, cond) => if !sv.seen_defines.contains(cond.value)
            && !sv.builtin_defines.contains(cond.value) && !sv.option_defines.contains(
            cond.value,
        ) {
            seq![
                spec_new_warning(
                    Severity::Warning,
                    spec_file_id(a),
                    spec_span(a),
                    "This condition is never defined, so the branch never runs."@,
                ),
            ]
        } else {
            Seq::empty()
        },
        AtomV::ElseIf(_, cond) => if !sv.seen_defines.contains(cond.value)
            && !sv.builtin_defines.contains(cond.value) && !sv.option_defines.contains(
            cond.value,
        ) {
            seq![
                spec_new_warning(
                    Severity::Warning,
                    spec_file_id(a),
                    spec_span(a),
                    "This condition is never defined, so the branch never runs."@,
                ),
            ]
        } else {
            Seq::empty()
        },
        _ => Seq::empty(),
    }
}

/// What the include lint says of one atom: include directives are only
/// available on builtin maps.
pub open spec fn spec_include_lint(is_builtin_map: bool, a: AtomV) -> Seq<WarningV> {
    match a {
        AtomV::Command(name, _) => if (lower(name.value) == crate::bytes::str_bytes("#include")
            || lower(name.value) == crate::bytes::str_bytes("#include_drs")) && !is_builtin_map {
            seq![
                spec_new_warning(
                    Severity::Error,
                    spec_file_id(a),
                    spec_span(a),
                    "Include directives are only available on builtin maps."@,
                ),
            ]
        } else {
            Seq::empty()
        },
        _ => Seq::empty(),
    }
}

/// The diagnostics one lint produces for one atom, given the state as of
/// all preceding atoms.
pub open spec fn spec_lint_atom(l: Lint, sv: StateV, a: AtomV) -> Seq<WarningV> {
    match l {
        Lint::AttributeCase => spec_attribute_case(a),
        Lint::CommentContents => spec_comment_contents(a),
        Lint::Compatibility => spec_compatibility_lint(sv.compatibility, a),
        Lint::DeadBranch => spec_dead_branch(sv, a),
        Lint::Include => spec_include_lint(sv.is_builtin_map, a),
        Lint::IncorrectSection => spec_incorrect_section(sv.current_section, a),
    }
}

impl Lint {
    /// Does this lint also want atoms inside comments?
    pub open spec fn spec_run_inside_comments(self) -> bool {
        self is CommentContents
    }

    /// The immutable name tag of this lint.
    pub fn name(&self) -> (r: &'static str)
        ensures
            r@ == spec_lint_name(*self),
    {
        match self {
            Lint::AttributeCase => "attribute-case",
            Lint::CommentContents => "comment-contents",
            Lint::Compatibility => "compatibility",
            Lint::DeadBranch => "dead-branch",
            Lint::Include => "include",
            Lint::IncorrectSection => "incorrect-section",
        }
    }

    /// Does this lint also want atoms inside comments?
    pub fn run_inside_comments(&self) -> (r: bool)
        ensures
            r == self.spec_run_inside_comments(),
    {
        match self {
            Lint::CommentContents => true,
            _ => false,
        }
    }

    /// Run this lint on one atom against the shared state.
    pub fn lint_atom(&self, state: &ParseState, atom: &Atom) -> (r: Vec<Warning>)
        ensures
            r@.map_values(|w: Warning| w@) == spec_lint_atom(*self, state@, atom@),
    {
        let mut r: Vec<Warning> = Vec::new();
        match self {
            Lint::AttributeCase => {
                match atom {
                    Atom::Command(name, _) => {
                        let lowered = crate::bytes::to_lower(name.value.as_slice());
                        if !crate::bytes::bytes_eq(lowered.as_slice(), name.value.as_slice()) {
                            let w = Warning::warning(
                                name.file,
                                name.span,
                                "Command names should be lowercase.".to_owned(),
                            );
                            let s = Suggestion::from(
                                name,
                                "Use the lowercase name instead.".to_owned(),
                            ).replace(lowered);
                            let tagged = w.suggest(s);
                            r.push(tagged);
                            proof {
                                assert(r@.map_values(|w: Warning| w@) =~= spec_attribute_case(
                                    atom@,
                                ));
                            }
                        } else {
                            proof {
                                assert(r@.map_values(|w: Warning| w@) =~= spec_attribute_case(
                                    atom@,
                                ));
                            }
                        }
                    },
                    _ => {
                        proof {
                            assert(r@.map_values(|w: Warning| w@) =~= spec_attribute_case(atom@));
                        }
                    },
                }
            },
            Lint::Compatibility => {
                match atom {
                    Atom::Command(name, _) => {
                        let lowered = crate::bytes::to_lower(name.value.as_slice());
                        match crate::registry::command_info(lowered.as_slice()) {
                            Some(info) => {
                                if info.min_level > state.compatibility().level() {
                                    let w = atom.warning(
                                        "This command is not available at the targeted compatibility level.".to_owned(),
                                    );
                                    r.push(w);
                                }
                            },
                            None => {},
                        }
                        proof {
                            assert(r@.map_values(|w: Warning| w@) =~= spec_compatibility_lint(
                                state@.compatibility,
                                atom@,
                            ));
                        }
                    },
                    _ => {
                        proof {
                            assert(r@.map_values(|w: Warning| w@) =~= spec_compatibility_lint(
                                state@.compatibility,
                                atom@,
                            ));
                        }
                    },
                }
            },
            Lint::CommentContents => {
                match atom {
                    Atom::Comment(_, content, _) => {
                        let words = crate::wordize::tokenize(0, content.as_slice());
                        let ghost ws = crate::wordize::spec_words(content@, 0, 0);
                        proof {
                            assert(words@.map_values(|w: crate::wordize::Word| w@) == ws);
                        }
                        let mut found = false;
                        let mut k: usize = 0;
                        while k < words.len() && !found
                            invariant
                                k <= words@.len(),
                                words@.map_values(|w: crate::wordize::Word| w@) == ws,
                                !found ==> any_command_word(ws, 0) == any_command_word(
                                    ws,
                                    k as int,
                                ),
                                found ==> any_command_word(ws, 0),
                            decreases words@.len() - k + (if found {
                                0int
                            } else {
                                1int
                            }),
                        {
                            proof {
                                assert(ws[k as int] == words@[k as int]@);
                            }
                            let lowered = crate::bytes::to_lower(words[k].value.as_slice());
                            if crate::registry::command_info(lowered.as_slice()).is_some() {
                                found = true;
                            } else {
                                k = k + 1;
                            }
                        }
                        if found {
                            let w = atom.warning(
                                "This comment contains command text; was code commented out?".to_owned(),
                            );
                            r.push(w);
                        }
                        proof {
                            if !found {
                                assert(any_command_word(ws, k as int) == false);
                            }
                            assert(r@.map_values(|w: Warning| w@) =~= spec_comment_contents(
                                atom@,
                            ));
                        }
                    },
                    _ => {
                        proof {
                            assert(r@.map_values(|w: Warning| w@) =~= spec_comment_contents(
                                atom@,
                            ));
                        }
                    },
                }
            },
            Lint::DeadBranch => {
                match atom {
                    Atom::If(_, cond) => {
                        if !state.may_have_define(cond.value.as_slice()) {
                            let w = atom.warning(
                                "This condition is never defined, so the branch never runs.".to_owned(),
                            );
                            r.push(w);
                        }
                        proof {
                            assert(r@.map_values(|w: Warning| w@) =~= spec_dead_branch(
                                state@,
                                atom@,
                            ));
                        }
                    },
                    Atom::ElseIf(_, cond) => {
                        if !state.may_have_define(cond.value.as_slice()) {
                            let w = atom.warning(
                                "This condition is never defined, so the branch never runs.".to_owned(),
                            );
                            r.push(w);
                        }
                        proof {
                            assert(r@.map_values(|w: Warning| w@) =~= spec_dead_branch(
                                state@,
                                atom@,
                            ));
                        }
                    },
                    _ => {
                        proof {
                            assert(r@.map_values(|w: Warning| w@) =~= spec_dead_branch(
                                state@,
                                atom@,
                            ));
                        }
                    },
                }
            },
            Lint::Include => {
                match atom {
                    Atom::Command(name, _) => {
                        let lowered = crate::bytes::to_lower(name.value.as_slice());
                        let is_include = crate::bytes::eq_str(lowered.as_slice(), "#include")
                            || crate::bytes::eq_str(lowered.as_slice(), "#include_drs");
                        if is_include && !state.is_builtin_map {
                            let w = atom.error(
                                "Include directives are only available on builtin maps.".to_owned(),
                            );
                            r.push(w);
                        }
                        proof {
                            assert(r@.map_values(|w: Warning| w@) =~= spec_include_lint(
                                state@.is_builtin_map,
                                atom@,
                            ));
                        }
                    },
                    _ => {
                        proof {
                            assert(r@.map_values(|w: Warning| w@) =~= spec_include_lint(
                                state@.is_builtin_map,
                                atom@,
                            ));
                        }
                    },
                }
            },
            Lint::IncorrectSection => {
                match atom {
                    Atom::Section(name) => {
                        match &state.current_section {
                            Some(Atom::Section(prev)) => {
                                let new_rank = crate::registry::section_rank(
                                    name.value.as_slice(),
                                );
                                let prev_rank = crate::registry::section_rank(
                                    prev.value.as_slice(),
                                );
                                match (new_rank, prev_rank) {
                                    (Some(nr), Some(pr)) => {
                                        if nr <= pr {
                                            let w = atom.warning(
                                                "This section is out of place; sections have a fixed order.".to_owned(),
                                            );
                                            r.push(w);
                                        }
                                    },
                                    _ => {},
                                }
                            },
                            _ => {},
                        }
                        proof {
                            assert(r@.map_values(|w: Warning| w@) =~= spec_incorrect_section(
                                state@.current_section,
                                atom@,
                            ));
                        }
                    },
                    _ => {
                        proof {
                            assert(r@.map_values(|w: Warning| w@) =~= spec_incorrect_section(
                                state@.current_section,
                                atom@,
                            ));
                        }
                    },
                }
            },
        }
        r
    }
}

/// A warning tagged with the name of the lint that produced it.
pub open spec fn spec_tag(w: WarningV, name: Seq<char>) -> WarningV {
    WarningV { diagnostic: DiagnosticV { code: Some(name), ..w.diagnostic }, ..w }
}

/// All the diagnostics the lint pipeline produces for one atom, each
/// tagged with its lint's name. A lint that declines atoms inside
/// comments is skipped for comment atoms.
pub open spec fn spec_pipeline(lints: Seq<Lint>, sv: StateV, a: AtomV, k: int) -> Seq<WarningV>
    decreases lints.len() - k,
{
    if k < 0 || k >= lints.len() {
        Seq::empty()
    } else {
        let produced = if (a is Comment) && !lints[k].spec_run_inside_comments() {
            Seq::empty()
        } else {
            spec_lint_atom(lints[k], sv, a).map_values(
                |w: WarningV| spec_tag(w, spec_lint_name(lints[k])),
            )
        };
        produced + spec_pipeline(lints, sv, a, k + 1)
    }
}

} // verus!
