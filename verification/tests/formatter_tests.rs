//! The formatter's canonical output, its idempotence, and the
//! preservation of the non-comment atom stream across a reformat.

use rms_check::parser::Atom;
use rms_check::parser::Parser;

#[test]
fn basic_section() {
    assert_eq!(
        rms_check::formatter::format(b"<PLAYER_SETUP> <OBJECTS_GENERATION>").as_slice(),
        b"<PLAYER_SETUP>\r\n\r\n<OBJECTS_GENERATION>\r\n" as &[u8],
    );
}

#[test]
fn command_group() {
    assert_eq!(
        rms_check::formatter::format(b"create_terrain GRASS3 { base_terrain DESERT border_fuzziness 5 }").as_slice(),
        b"create_terrain GRASS3 {\r\n  base_terrain     DESERT\r\n  border_fuzziness 5\r\n}\r\n"
            as &[u8],
    );
}

#[test]
fn command_block_canonical() {
    assert_eq!(
        rms_check::formatter::format(b"create_terrain SNOW { base_size 15 }").as_slice(),
        b"create_terrain SNOW {\r\n  base_size 15\r\n}\r\n" as &[u8],
    );
}

#[test]
fn define_and_const() {
    assert_eq!(
        rms_check::formatter::format(b"#define  A   #const B   7").as_slice(),
        b"#define A\r\n#const B 7\r\n" as &[u8],
    );
}

#[test]
fn simple_random_branches() {
    assert_eq!(
        rms_check::formatter::format(b"start_random percent_chance 50 #define A percent_chance 50 #define LONGER end_random")
            .as_slice(),
        b"start_random\r\n  percent_chance 50 #define A\r\n  percent_chance 50 #define LONGER\r\nend_random\r\n"
            as &[u8],
    );
}

#[test]
fn general_random_branches() {
    assert_eq!(
        rms_check::formatter::format(b"start_random percent_chance 50 #define A #define B end_random").as_slice(),
        b"start_random\r\n  percent_chance 50\r\n    #define A\r\n    #define B\r\nend_random\r\n"
            as &[u8],
    );
}

#[test]
fn conditional_chain() {
    assert_eq!(
        rms_check::formatter::format(b"if A base_size 1 elseif B base_size 2 else base_size 3 endif").as_slice(),
        b"if A\r\n  base_size 1\r\nelseif B\r\n  base_size 2\r\nelse\r\n  base_size 3\r\nendif\r\n\r\n"
            as &[u8],
    );
}

#[test]
fn multiline_comment() {
    assert_eq!(
        rms_check::formatter::format(b"/* first\nsecond */").as_slice(),
        b"/* first\r\n * second \r\n */\r\n" as &[u8],
    );
}

fn fmt(source: &[u8]) -> Vec<u8> {
    rms_check::formatter::format(source)
}

/// Formatting already-formatted output reproduces it byte for byte, on
/// representative inputs.
#[test]
fn format_idempotent_scenarios() {
    let inputs: Vec<&[u8]> = vec![
        b"<PLAYER_SETUP> <OBJECTS_GENERATION>",
        b"create_terrain GRASS3 { base_terrain DESERT border_fuzziness 5 }",
        b"create_terrain SNOW { base_size 15 }",
        b"#define A #const B 7",
        b"if A base_size 1 elseif B base_size 2 else base_size 3 endif",
        b"start_random percent_chance 50 #define A percent_chance 50 #define B end_random",
        b"random_placement grouped_by_team",
    ];
    for input in inputs {
        let once = fmt(input);
        let twice = fmt(once.as_slice());
        assert_eq!(once, twice);
    }
}

fn atom_fingerprint(a: &Atom) -> Option<Vec<Vec<u8>>> {
    // A comparable shape for one non-comment atom: a tag plus its word
    // values, ignoring spans.
    let tag = |name: &[u8], words: Vec<Vec<u8>>| {
        let mut v = vec![name.to_vec()];
        v.extend(words);
        Some(v)
    };
    match a {
        Atom::Const(_, n, v) => tag(
            b"const",
            match v {
                Some(v) => vec![n.value.clone(), v.value.clone()],
                None => vec![n.value.clone()],
            },
        ),
        Atom::Define(_, n) => tag(b"define", vec![n.value.clone()]),
        Atom::Section(w) => tag(b"section", vec![w.value.clone()]),
        Atom::If(_, c) => tag(b"if", vec![c.value.clone()]),
        Atom::ElseIf(_, c) => tag(b"elseif", vec![c.value.clone()]),
        Atom::Else(_) => tag(b"else", vec![]),
        Atom::EndIf(_) => tag(b"endif", vec![]),
        Atom::StartRandom(_) => tag(b"start_random", vec![]),
        Atom::PercentChance(_, c) => tag(b"percent_chance", vec![c.value.clone()]),
        Atom::EndRandom(_) => tag(b"end_random", vec![]),
        Atom::OpenBlock(_) => tag(b"{", vec![]),
        Atom::CloseBlock(_) => tag(b"}", vec![]),
        Atom::Command(n, args) => {
            let mut words = vec![n.value.clone()];
            for a in args {
                words.push(a.value.clone());
            }
            tag(b"command", words)
        },
        Atom::Comment(_, _, _) => None,
        Atom::Other(w) => tag(b"other", vec![w.value.clone()]),
    }
}

fn fingerprints(source: &[u8]) -> Vec<Vec<Vec<u8>>> {
    let mut parser = Parser::new(0, source);
    let mut out = Vec::new();
    while let Some((atom, _)) = parser.next() {
        if let Some(f) = atom_fingerprint(&atom) {
            out.push(f);
        }
    }
    out
}

/// Re-parsing formatted output recovers the same sequence of non-comment
/// atoms: formatting does not add, drop, or reorder commands, sections,
/// directives, or control constructs.
#[test]
fn format_roundtrip_scenarios() {
    let inputs: Vec<&[u8]> = vec![
        b"<PLAYER_SETUP> create_terrain GRASS3 { base_terrain DESERT border_fuzziness 5 }",
        b"#define A #const B 7 if A base_size 1 elseif B base_size 2 else base_size 3 endif",
        b"start_random percent_chance 50 #define A percent_chance 50 #define B end_random",
        b"random_placement grouped_by_team land_percent 30",
        b"start_random percent_chance 50 #define A end_random",
    ];
    for input in inputs {
        let formatted = fmt(input);
        assert_eq!(fingerprints(input), fingerprints(formatted.as_slice()));
    }
}
