//! The parser's behavior on small inputs: well-formed and malformed
//! directives, commands with and without arguments, blocks and comments.

use rms_check::parser::Atom;
use rms_check::parser::Parser;
use rms_check::parser::Warning;
use rms_check::parser::WarningKind;

fn file_id() -> u32 {
    0
}

fn collect(source: &str) -> Vec<(Atom, Vec<Warning>)> {
    let mut parser = Parser::new(file_id(), source.as_bytes());
    let mut atoms = Vec::new();
    while let Some(item) = parser.next() {
        atoms.push(item);
    }
    atoms
}

#[test]
fn const_ok() {
    let atoms = collect("#const A B");
    if let (Atom::Const(def, name, val), warnings) = &atoms[0] {
        assert_eq!(def.value.as_slice(), b"#const");
        assert_eq!(name.value.as_slice(), b"A");
        assert!(val.is_some());
        assert_eq!(val.as_ref().unwrap().value.as_slice(), b"B");
        assert!(warnings.is_empty());
    } else {
        assert!(false);
    }
}

#[test]
fn const_missing_value() {
    let atoms = collect("#const B");
    if let (Atom::Const(def, name, val), warnings) = &atoms[0] {
        assert_eq!(def.value.as_slice(), b"#const");
        assert_eq!(name.value.as_slice(), b"B");
        assert!(val.is_none());
        assert_eq!(warnings.len(), 1);
        assert_eq!(warnings[0].kind, WarningKind::MissingConstValue);
    } else {
        assert!(false);
    }
}

#[test]
fn const_missing_name() {
    let atoms = collect("#const");
    if let (Atom::Other(token), warnings) = &atoms[0] {
        assert_eq!(token.value.as_slice(), b"#const");
        assert_eq!(warnings.len(), 1);
        assert_eq!(warnings[0].kind, WarningKind::MissingConstName);
    } else {
        assert!(false);
    }
}

#[test]
fn define_ok() {
    let atoms = collect("#define B");
    if let (Atom::Define(def, name), warnings) = &atoms[0] {
        assert_eq!(def.value.as_slice(), b"#define");
        assert_eq!(name.value.as_slice(), b"B");
        assert!(warnings.is_empty());
    } else {
        assert!(false);
    }
}

#[test]
fn define_missing_name() {
    let atoms = collect("#define");
    if let (Atom::Other(token), warnings) = &atoms[0] {
        assert_eq!(token.value.as_slice(), b"#define");
        assert_eq!(warnings.len(), 1);
        assert_eq!(warnings[0].kind, WarningKind::MissingDefineName);
    } else {
        assert!(false);
    }
}

#[test]
fn command_noargs() {
    let atoms = collect("random_placement");
    assert_eq!(atoms.len(), 1);
    if let (Atom::Command(name, args), warnings) = &atoms[0] {
        assert_eq!(name.value.as_slice(), b"random_placement");
        assert!(args.is_empty());
        assert!(warnings.is_empty());
    } else {
        assert!(false);
    }
}

#[test]
fn command_1arg() {
    let atoms = collect("land_percent 10 grouped_by_team");
    assert_eq!(atoms.len(), 2);
    if let (Atom::Command(name, args), warnings) = &atoms[0] {
        assert_eq!(name.value.as_slice(), b"land_percent");
        assert_eq!(args.len(), 1);
        assert_eq!(args[0].value.as_slice(), b"10");
        assert!(warnings.is_empty());
    } else {
        assert!(false);
    }
    if let (Atom::Command(name, args), warnings) = &atoms[1] {
        assert_eq!(name.value.as_slice(), b"grouped_by_team");
        assert!(args.is_empty());
        assert!(warnings.is_empty());
    } else {
        assert!(false);
    }
}

/// It should accept wrong casing, a linter can fix it up.
#[test]
fn command_wrong_case() {
    let atoms = collect("land_Percent 10 grouped_BY_team");
    assert_eq!(atoms.len(), 2);
    if let (Atom::Command(name, args), warnings) = &atoms[0] {
        assert_eq!(name.value.as_slice(), b"land_Percent");
        assert_eq!(args.len(), 1);
        assert_eq!(args[0].value.as_slice(), b"10");
        assert!(warnings.is_empty());
    } else {
        assert!(false);
    }
    if let (Atom::Command(name, args), warnings) = &atoms[1] {
        assert_eq!(name.value.as_slice(), b"grouped_BY_team");
        assert!(args.is_empty());
        assert!(warnings.is_empty());
    } else {
        assert!(false);
    }
}

#[test]
fn command_block() {
    let mut atoms = collect("create_terrain SNOW { base_size 15 }");
    assert_eq!(atoms.len(), 4);
    if let (Atom::Command(name, args), _) = atoms.remove(0) {
        assert_eq!(name.value.as_slice(), b"create_terrain");
        assert_eq!(args.len(), 1);
        assert_eq!(args[0].value.as_slice(), b"SNOW");
    } else {
        assert!(false)
    }
    if let (Atom::OpenBlock(tok), _) = atoms.remove(0) {
        assert_eq!(tok.value.as_slice(), b"{");
    } else {
        assert!(false)
    }
    if let (Atom::Command(name, args), _) = atoms.remove(0) {
        assert_eq!(name.value.as_slice(), b"base_size");
        assert_eq!(args.len(), 1);
        assert_eq!(args[0].value.as_slice(), b"15");
    } else {
        assert!(false)
    }
    if let (Atom::CloseBlock(tok), _) = atoms.remove(0) {
        assert_eq!(tok.value.as_slice(), b"}");
    } else {
        assert!(false)
    }
}

#[test]
fn comment_basic() {
    let mut atoms = collect("create_terrain SNOW /* this is a comment */ { }");
    assert_eq!(atoms.len(), 4);
    if let (Atom::Command(_, _), _) = atoms.remove(0) {
        // ok
    } else {
        assert!(false)
    }
    if let (Atom::Comment(start, content, end), _) = atoms.remove(0) {
        assert_eq!(start.value.as_slice(), b"/*");
        assert_eq!(content.as_slice(), b" this is a comment ");
        assert_eq!(end.unwrap().value.as_slice(), b"*/");
    } else {
        assert!(false)
    }
    if let (Atom::OpenBlock(tok), _) = atoms.remove(0) {
        assert_eq!(tok.value.as_slice(), b"{");
    } else {
        assert!(false)
    }
    if let (Atom::CloseBlock(tok), _) = atoms.remove(0) {
        assert_eq!(tok.value.as_slice(), b"}");
    } else {
        assert!(false)
    }
}

/// An unterminated comment still becomes an atom, flagged rather than
/// aborted on.
#[test]
fn comment_unterminated() {
    let atoms = collect("/* left open");
    assert_eq!(atoms.len(), 1);
    if let (Atom::Comment(start, content, end), warnings) = &atoms[0] {
        assert_eq!(start.value.as_slice(), b"/*");
        assert_eq!(content.as_slice(), b" left open");
        assert!(end.is_none());
        assert_eq!(warnings.len(), 1);
        assert_eq!(warnings[0].kind, WarningKind::UnclosedComment);
    } else {
        assert!(false);
    }
}

/// A command missing required arguments is flagged.
#[test]
fn command_missing_args() {
    let atoms = collect("land_position 3");
    assert_eq!(atoms.len(), 1);
    if let (Atom::Command(name, args), warnings) = &atoms[0] {
        assert_eq!(name.value.as_slice(), b"land_position");
        assert_eq!(args.len(), 1);
        assert_eq!(warnings.len(), 1);
        assert_eq!(warnings[0].kind, WarningKind::MissingCommandArgs);
    } else {
        assert!(false);
    }
}

/// Missing `if` condition and `percent_chance` weight degrade to `Other`
/// with the specific warning.
#[test]
fn missing_condition_and_weight() {
    let atoms = collect("if");
    assert_eq!(atoms.len(), 1);
    if let (Atom::Other(_), warnings) = &atoms[0] {
        assert_eq!(warnings.len(), 1);
        assert_eq!(warnings[0].kind, WarningKind::MissingIfCondition);
    } else {
        assert!(false);
    }
    let atoms = collect("percent_chance");
    if let (Atom::Other(_), warnings) = &atoms[0] {
        assert_eq!(warnings.len(), 1);
        assert_eq!(warnings[0].kind, WarningKind::MissingPercentChance);
    } else {
        assert!(false);
    }
}

/// Braces and comment delimiters split words even without whitespace.
#[test]
fn tokenizer_isolates_delimiters() {
    let atoms = collect("base_size 9{}");
    assert_eq!(atoms.len(), 3);
    assert!(matches!(atoms[0].0, Atom::Command(_, _)));
    assert!(matches!(atoms[1].0, Atom::OpenBlock(_)));
    assert!(matches!(atoms[2].0, Atom::CloseBlock(_)));
}

/// Known section names become sections; unknown angle-bracket names do
/// not.
#[test]
fn section_recognition() {
    let atoms = collect("<PLAYER_SETUP> <NO_SUCH_SECTION>");
    assert_eq!(atoms.len(), 2);
    assert!(matches!(atoms[0].0, Atom::Section(_)));
    assert!(matches!(atoms[1].0, Atom::Other(_)));
}
