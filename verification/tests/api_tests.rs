//! The remaining public surface: words and spans, suggestion and
//! warning builders, the checker session driven atom by atom, and the
//! formatter driven from an already-parsed atom stream.

use rms_check::checker::Checker;
use rms_check::checker::CheckerBuilder;
use rms_check::checker::Nesting;
use rms_check::diagnostics::Severity;
use rms_check::diagnostics::Suggestion;
use rms_check::diagnostics::Warning;
use rms_check::formatter::Formatter;
use rms_check::lints::Lint;
use rms_check::parser::Atom;
use rms_check::parser::Parser;
use rms_check::checker::HeaderName;
use rms_check::checker::ParseState;
use rms_check::parse_header_name;
use rms_check::registry::command_info;
use rms_check::wordize::tokenize;
use rms_check::wordize::Span;
use rms_check::Compatibility;

#[test]
fn tokenize_spans_and_values() {
    let words = tokenize(7, b"ab {c/*d");
    let values: Vec<&[u8]> = words.iter().map(|w| w.value.as_slice()).collect();
    assert_eq!(values, vec![b"ab" as &[u8], b"{", b"c", b"/*", b"d"]);
    for w in &words {
        assert_eq!(w.file, 7);
        assert!(w.start() < w.end());
    }
    assert_eq!(words[0].span, Span { start: 0, end: 2 });
    assert_eq!(words[1].span, Span { start: 3, end: 4 });
    assert_eq!(words[4].span, Span { start: 7, end: 8 });
}

#[test]
fn span_merge_covers_both() {
    let a = Span { start: 4, end: 9 };
    let b = Span { start: 2, end: 6 };
    assert_eq!(a.merge(b), Span { start: 2, end: 9 });
    assert_eq!(b.merge(a), Span { start: 2, end: 9 });
}

#[test]
fn atom_span_merges_words() {
    let mut parser = Parser::new(0, b"#const NAME VALUE");
    let (atom, _) = parser.next().unwrap();
    assert_eq!(atom.file_id(), 0);
    let span = atom.span();
    assert_eq!(span.start, 0);
    assert_eq!(span.end, 17);
}

#[test]
fn suggestion_builders() {
    let s = Suggestion::new(3, Span { start: 1, end: 5 }, "Swap this.".to_string());
    assert_eq!(s.file_id(), 3);
    assert_eq!(s.start(), 1);
    assert_eq!(s.end(), 5);
    assert_eq!(s.message(), "Swap this.");
    assert!(!s.replacement().is_fixable());
    let s = s.replace_unsafe(b"replacement".to_vec());
    assert!(!s.replacement().is_fixable());
    assert!(s.replacement().is_fixable_unsafe());
}

#[test]
fn warning_builders() {
    let w = Warning::warning(0, Span { start: 0, end: 2 }, "Advisory.".to_string());
    assert_eq!(w.severity(), Severity::Warning);
    assert_eq!(w.message(), "Advisory.");
    assert!(!w.has_suggestions());
    let w = w
        .suggest(Suggestion::new(0, Span { start: 0, end: 2 }, "Try this.".to_string()))
        .note_at(0, Span { start: 4, end: 6 }, "Related code.")
        .lint("some-lint");
    assert!(w.has_suggestions());
    assert_eq!(w.suggestions().len(), 1);
    assert_eq!(w.labels().len(), 1);
    assert_eq!(w.labels()[0].message, "Related code.");
    assert_eq!(w.diagnostic().code.as_deref(), Some("some-lint"));
    let e = Warning::error(1, Span { start: 0, end: 1 }, "Blocking.".to_string());
    assert_eq!(e.severity(), Severity::Error);
}

#[test]
fn checker_session_atom_by_atom() {
    let mut checker: Checker = CheckerBuilder::default()
        .with_lint(Lint::Compatibility)
        .compatibility(Compatibility::Conquerors)
        .build();
    let mut parser = Parser::new(0, b"nomad_resources { }");
    let mut all = Vec::new();
    while let Some((atom, _)) = parser.next() {
        all.extend(checker.write_atom(&atom));
    }
    all.extend(checker.state.unclosed_warnings());
    // `nomad_resources` needs UserPatch 1.4; the braces balance.
    assert_eq!(all.len(), 1);
    assert_eq!(all[0].diagnostic().code.as_deref(), Some("compatibility"));
    assert!(matches!(checker.state.nesting.last(), None::<&Nesting>));
}

#[test]
fn unclosed_stack_is_reported_bottom_first() {
    let mut checker: Checker = CheckerBuilder::default().build();
    let mut parser = Parser::new(0, b"if A { start_random");
    while let Some((atom, _)) = parser.next() {
        let nested = checker.write_atom(&atom);
        assert!(nested.is_empty());
    }
    let unclosed = checker.state.unclosed_warnings();
    let messages: Vec<&str> = unclosed.iter().map(|w| w.message().as_str()).collect();
    assert_eq!(messages, vec!["Unclosed `if`", "Unclosed `{`", "Unclosed `start_random`"]);
}

#[test]
fn formatter_over_parsed_atoms() {
    let mut parser = Parser::new(0, b"#define A base_size 3");
    let mut atoms: Vec<Atom> = Vec::new();
    while let Some((atom, _)) = parser.next() {
        atoms.push(atom);
    }
    let formatter = Formatter::default();
    let out = formatter.format(&atoms);
    assert_eq!(out.as_slice(), b"#define A\r\nbase_size 3\r\n" as &[u8]);
}

#[test]
fn registry_gates_and_arity() {
    let info = command_info(b"effect_amount").unwrap();
    assert_eq!(info.arity, 4);
    assert!(info.min_level > Compatibility::UserPatch14.level());
    assert!(info.min_level <= Compatibility::UserPatch15.level());
    let base = command_info(b"base_size").unwrap();
    assert_eq!(base.arity, 1);
    assert_eq!(base.min_level, Compatibility::All.level());
    assert!(command_info(b"no_such_command").is_none());
    assert!(command_info(b"Base_Size").is_none());
}

#[test]
fn header_name_parsing() {
    assert_eq!(parse_header_name(b"  CoMpAtIbIlItY  "), Some(HeaderName::Compatibility));
    assert_eq!(parse_header_name(b"author"), None);
}

#[test]
fn consts_and_defines_list_user_and_builtin() {
    let mut state = ParseState::new(Compatibility::Conquerors);
    let mut parser = Parser::new(0, b"#const MY_THING 1 #define MY_FLAG");
    while let Some((atom, _)) = parser.next() {
        state.update(&atom);
    }
    let consts = state.consts();
    assert!(consts.iter().any(|n| n.as_slice() == b"MY_THING"));
    assert!(consts.iter().any(|n| n.as_slice() == b"GRASS"));
    let defines = state.defines();
    assert!(defines.iter().any(|n| n.as_slice() == b"MY_FLAG"));
}
