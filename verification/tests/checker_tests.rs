//! Checking behavior: totality over arbitrary bytes, nesting balance,
//! symbol visibility, compatibility gating, header directives, and the
//! built-in lints.

use rms_check::check;
use rms_check::checker::ParseState;
use rms_check::diagnostics::AutoFixReplacement;
use rms_check::diagnostics::Severity;
use rms_check::diagnostics::Warning;
use rms_check::parser::Parser;
use rms_check::Compatibility;

fn balance_errors(source: &[u8]) -> Vec<String> {
    let result = check(source, Compatibility::Conquerors);
    result
        .warnings()
        .iter()
        .filter(|w| {
            w.severity() == Severity::Error
                && (w.message().starts_with("Unbalanced")
                    || w.message().starts_with("Unclosed `"))
        })
        .map(|w| w.message().clone())
        .collect()
}

/// Checking completes on any byte sequence: empty, binary garbage, and
/// input truncated mid-comment.
#[test]
fn checking_is_total() {
    let empty = check(b"", Compatibility::Conquerors);
    assert!(!empty.has_warnings());
    let garbage: Vec<u8> = (0u8..=255).chain((0u8..=255).rev()).collect();
    let _ = check(garbage.as_slice(), Compatibility::All);
    let truncated = check(b"create_terrain SNOW /* never closed", Compatibility::Conquerors);
    assert!(truncated.has_warnings());
}

/// A well-formed nesting sequence produces no unbalanced-nesting
/// diagnostic.
#[test]
fn balanced_sequences_are_clean() {
    assert_eq!(
        balance_errors(b"start_random percent_chance 50 x percent_chance 50 y end_random"),
        Vec::<String>::new(),
    );
    assert_eq!(balance_errors(b"if A elseif B else endif"), Vec::<String>::new());
    assert_eq!(
        balance_errors(b"create_terrain SNOW { base_size 15 } if A { } endif"),
        Vec::<String>::new(),
    );
}

/// Removing the closer from a balanced sequence produces exactly one
/// diagnostic, citing the kind of the opener left unclosed.
#[test]
fn removed_closer_is_reported_once() {
    let cases: Vec<(&[u8], &str)> = vec![
        (b"create_terrain SNOW { base_size 15", "Unclosed `{`"),
        (b"if A base_size 1", "Unclosed `if`"),
        (b"start_random percent_chance 50 x", "Unclosed `start_random`"),
        (b"if A elseif B", "Unclosed `elseif`"),
    ];
    for (source, expected) in cases {
        let errors = balance_errors(source);
        assert_eq!(errors.len(), 1, "for input {:?}", source);
        assert_eq!(errors[0], expected);
    }
}

/// `if A elseif B else endif` with no defines is balance-valid; a stray
/// `endif` produces exactly one unbalanced diagnostic citing that
/// nothing is open.
#[test]
fn stray_endif_cites_nothing_open() {
    assert_eq!(balance_errors(b"if A elseif B else endif"), Vec::<String>::new());
    let errors = balance_errors(b"if A endif endif");
    assert_eq!(errors.len(), 1);
    assert_eq!(errors[0], "Unbalanced `endif`\u{2013}nothing is open");
}

/// An unbalanced closer inside other nesting points back at the opener
/// it would close.
#[test]
fn unbalanced_closer_points_at_opener() {
    let result = check(b"if A { endif", Compatibility::Conquerors);
    let unbalanced: Vec<&Warning> = result
        .warnings()
        .iter()
        .filter(|w| w.message().starts_with("Unbalanced"))
        .collect();
    assert_eq!(unbalanced.len(), 1);
    assert_eq!(unbalanced[0].message(), "Unbalanced `endif`");
    assert_eq!(unbalanced[0].labels().len(), 1);
    assert_eq!(unbalanced[0].labels()[0].message, "Matches this open brace `{`");
}

fn first_atom(source: &str) -> rms_check::parser::Atom {
    let mut parser = Parser::new(0, source.as_bytes());
    parser.next().unwrap().0
}

/// A `#define` seen earlier is visible to later queries; one not yet
/// seen is not.
#[test]
fn symbol_visibility_follows_order() {
    let mut state = ParseState::new(Compatibility::Conquerors);
    assert!(!state.has_define(b"MY_SWITCH"));
    state.update(&first_atom("#define MY_SWITCH"));
    assert!(state.has_define(b"MY_SWITCH"));
    assert!(!state.has_const(b"MY_VALUE"));
    state.update(&first_atom("#const MY_VALUE 7"));
    assert!(state.has_const(b"MY_VALUE"));
}

/// A builtin symbol available at a level stays available at every
/// higher level; one introduced at a higher level is absent below it.
#[test]
fn builtin_vocabulary_is_monotone() {
    let levels = vec![
        Compatibility::All,
        Compatibility::Conquerors,
        Compatibility::HDEdition,
        Compatibility::UserPatch14,
        Compatibility::UserPatch15,
        Compatibility::WololoKingdoms,
        Compatibility::DefinitiveEdition,
    ];
    // Everything the lowest level knows is known everywhere.
    for level in &levels {
        let state = ParseState::new(*level);
        assert!(state.has_const(b"GRASS"));
        assert!(state.has_const(b"SNOW"));
    }
    // Symbols introduced by later levels are absent below them.
    assert!(!ParseState::new(Compatibility::Conquerors).has_const(b"AMOUNT_STARTING_GOLD"));
    assert!(!ParseState::new(Compatibility::HDEdition).has_define(b"UP_AVAILABLE"));
    assert!(ParseState::new(Compatibility::UserPatch14).has_define(b"UP_AVAILABLE"));
    assert!(ParseState::new(Compatibility::UserPatch15).has_const(b"AMOUNT_STARTING_GOLD"));
    assert!(ParseState::new(Compatibility::WololoKingdoms).has_const(b"AMOUNT_STARTING_GOLD"));
    assert!(ParseState::new(Compatibility::DefinitiveEdition).has_define(b"DE_AVAILABLE"));
    // And every level's vocabulary is contained in the next one's.
    for pair in levels.windows(2) {
        let lower = ParseState::new(pair[0]);
        let higher = ParseState::new(pair[1]);
        for name in lower.consts() {
            assert!(higher.has_const(name.as_slice()));
        }
        for name in lower.defines() {
            assert!(higher.has_define(name.as_slice()));
        }
    }
}

/// A leading header comment selecting UserPatch 1.5 silences the
/// compatibility gate for a command it introduced; without the header
/// the command is flagged.
#[test]
fn header_directive_gates_compatibility() {
    let gated = b"/* Compatibility: UserPatch 1.5 */ effect_amount SET_ATTRIBUTE 0 1 2";
    let without = b"effect_amount SET_ATTRIBUTE 0 1 2";
    let flagged = |source: &[u8]| {
        let result = check(source, Compatibility::Conquerors);
        result
            .warnings()
            .iter()
            .filter(|w| w.diagnostic().code.as_deref() == Some("compatibility"))
            .count()
    };
    assert_eq!(flagged(gated), 0);
    assert_eq!(flagged(without), 1);
}

/// Header aliases are matched case-insensitively with surrounding
/// whitespace ignored; an unrecognized value is silently ignored.
#[test]
fn header_aliases() {
    let mut state = ParseState::new(Compatibility::Conquerors);
    state.parse_header_comment(b" * Compatibility: WK \n");
    assert_eq!(state.compatibility(), Compatibility::WololoKingdoms);
    state.parse_header_comment(b"Compatibility: hd edition");
    assert_eq!(state.compatibility(), Compatibility::HDEdition);
    state.parse_header_comment(b"Compatibility: from the future");
    assert_eq!(state.compatibility(), Compatibility::HDEdition);
    state.parse_header_comment(b"Unrelated: UserPatch 1.5");
    assert_eq!(state.compatibility(), Compatibility::HDEdition);
}

/// The first non-comment atom permanently closes header detection.
#[test]
fn header_region_closes() {
    let source = b"random_placement /* Compatibility: UserPatch 1.5 */ effect_amount SET_ATTRIBUTE 0 1 2";
    let result = check(source, Compatibility::Conquerors);
    let compat_warnings = result
        .warnings()
        .iter()
        .filter(|w| w.diagnostic().code.as_deref() == Some("compatibility"))
        .count();
    assert_eq!(compat_warnings, 1);
}

/// The case-style lint flags miscased command names and offers the
/// lowercase spelling as a safe replacement.
#[test]
fn attribute_case_lint() {
    let result = check(b"land_Percent 10", Compatibility::Conquerors);
    let cased: Vec<&Warning> = result
        .warnings()
        .iter()
        .filter(|w| w.diagnostic().code.as_deref() == Some("attribute-case"))
        .collect();
    assert_eq!(cased.len(), 1);
    assert!(cased[0].has_suggestions());
    let suggestion = &cased[0].suggestions()[0];
    match suggestion.replacement() {
        AutoFixReplacement::Safe(text) => assert_eq!(text.as_slice(), b"land_percent"),
        _ => panic!("expected a safe replacement"),
    }
    assert!(suggestion.replacement().is_fixable());
    assert!(suggestion.replacement().is_fixable_unsafe());
    assert!(!AutoFixReplacement::NoFix.is_fixable());
    assert!(!AutoFixReplacement::NoFix.is_fixable_unsafe());
}

/// The section-ordering lint flags a section that does not follow its
/// predecessor in the canonical order.
#[test]
fn incorrect_section_lint() {
    let out_of_order = b"<OBJECTS_GENERATION> <PLAYER_SETUP>";
    let in_order = b"<PLAYER_SETUP> <OBJECTS_GENERATION>";
    let flagged = |source: &[u8]| {
        let result = check(source, Compatibility::Conquerors);
        result
            .warnings()
            .iter()
            .filter(|w| w.diagnostic().code.as_deref() == Some("incorrect-section"))
            .count()
    };
    assert_eq!(flagged(out_of_order), 1);
    assert_eq!(flagged(in_order), 0);
}

/// Parser-level defects surface as diagnostics tagged `parse`, one per
/// defect kind.
#[test]
fn parse_warnings_surface() {
    let expect_parse_message = |source: &[u8], message: &str| {
        let result = check(source, Compatibility::Conquerors);
        let matching = result
            .warnings()
            .iter()
            .filter(|w| {
                w.diagnostic().code.as_deref() == Some("parse") && w.message() == message
            })
            .count();
        assert_eq!(matching, 1, "for input {:?}", source);
    };
    expect_parse_message(b"#const", "Missing const name.");
    expect_parse_message(b"#const B", "Missing const value.");
    expect_parse_message(b"#define", "Missing define name.");
    expect_parse_message(b"land_position 3", "Missing command arguments.");
    expect_parse_message(b"if", "Missing `if` condition.");
    expect_parse_message(b"percent_chance", "Missing `percent_chance` weight.");
    expect_parse_message(b"/* open", "Unclosed comment.");
}

/// `may_have_define` also accepts names that only may exist, such as
/// map-size switches and caller-registered names.
#[test]
fn optional_defines() {
    let mut state = ParseState::new(Compatibility::Conquerors);
    assert!(!state.has_define(b"TINY_MAP"));
    assert!(state.may_have_define(b"TINY_MAP"));
    assert!(!state.may_have_define(b"MAYBE_LATER"));
    state.optional_define(b"MAYBE_LATER".to_vec());
    assert!(state.may_have_define(b"MAYBE_LATER"));
    assert!(!state.has_define(b"MAYBE_LATER"));
}

/// Cross-source visibility: a definition in an earlier source is seen
/// while checking a later one.
#[test]
fn sources_are_concatenated_in_order() {
    let run = rms_check::RMSCheck::default()
        .compatibility(Compatibility::Conquerors)
        .add_source("first.rms", b"if UNDEFINED_THING endif")
        .add_source("second.rms", b"{ }");
    let result = run.check();
    assert!(!result
        .warnings()
        .iter()
        .any(|w| w.message().starts_with("Unbalanced") || w.message().starts_with("Unclosed `")));
}

/// Include directives are only available on builtin maps.
#[test]
fn include_lint() {
    let result = check(b"#include_drs gamedata.drs", Compatibility::UserPatch15);
    let flagged: Vec<&Warning> = result
        .warnings()
        .iter()
        .filter(|w| w.diagnostic().code.as_deref() == Some("include"))
        .collect();
    assert_eq!(flagged.len(), 1);
    assert_eq!(flagged[0].severity(), Severity::Error);
}

/// A branch whose condition no known define could satisfy is flagged;
/// one guarded by a map-size switch or an earlier define is not.
#[test]
fn dead_branch_lint() {
    let flagged = |source: &[u8]| {
        let result = check(source, Compatibility::Conquerors);
        result
            .warnings()
            .iter()
            .filter(|w| w.diagnostic().code.as_deref() == Some("dead-branch"))
            .count()
    };
    assert_eq!(flagged(b"if NEVER_DEFINED base_size 1 endif"), 1);
    assert_eq!(flagged(b"if TINY_MAP base_size 1 endif"), 0);
    assert_eq!(flagged(b"#define MY_SWITCH if MY_SWITCH base_size 1 endif"), 0);
    // The reverse order leaves the condition undefined when it is read.
    assert_eq!(flagged(b"if MY_SWITCH base_size 1 endif #define MY_SWITCH"), 1);
}

/// A comment containing command text looks like commented-out code.
#[test]
fn comment_contents_lint() {
    let flagged = |source: &[u8]| {
        let result = check(source, Compatibility::Conquerors);
        result
            .warnings()
            .iter()
            .filter(|w| w.diagnostic().code.as_deref() == Some("comment-contents"))
            .count()
    };
    assert_eq!(flagged(b"/* base_size 9 */"), 1);
    assert_eq!(flagged(b"/* just words about the map */"), 0);
}
