//! The forgiving parser: groups the word stream into syntactic units
//! ("atoms") with local error recovery. Malformed input never aborts the
//! parse; it yields a best-effort atom together with a structural warning,
//! so the atom stream is total over any byte sequence.
//!
//! The parser is nesting-unaware: it does not check that `endif` matches an
//! `if` or that braces balance. That is the checker's job.

use vstd::prelude::*;
use crate::bytes::lower;
use crate::bytes::str_bytes;
use crate::registry::spec_command_info;
use crate::registry::spec_in_registry;
use crate::registry::CommandInfo;
use crate::wordize::spec_words;
use crate::wordize::Span;
use crate::wordize::Word;
use crate::wordize::WordV;
use crate::wordize::LEFT_ANGLE;
use crate::wordize::RIGHT_ANGLE;

verus! {

/// The structural defects the parser can recover from.
#[derive(Debug, Clone, Copy, PartialEq, Eq, Structural)]
pub enum WarningKind {
    MissingConstName,
    MissingConstValue,
    MissingDefineName,
    MissingCommandArgs,
    MissingIfCondition,
    MissingPercentChance,
    UnclosedComment,
}

/// A parser-level warning: one defect kind tied to one span.
#[derive(Debug, Clone, Copy, PartialEq, Eq, Structural)]
pub struct Warning {
    pub kind: WarningKind,
    pub span: Span,
}

impl Warning {
    pub fn new(span: Span, kind: WarningKind) -> (r: Warning)
        ensures
            r == (Warning { kind, span }),
    {
        Warning { kind, span }
    }
}

/// One syntactic unit of a map script.
pub enum Atom {
    /// `#const <name> <value>`; a missing value is tolerated and flagged.
    Const(Word, Word, Option<Word>),
    /// `#define <name>`.
    Define(Word, Word),
    /// A `<SECTION>` header known to the registry.
    Section(Word),
    /// `if <condition>`.
    If(Word, Word),
    /// `elseif <condition>`.
    ElseIf(Word, Word),
    Else(Word),
    EndIf(Word),
    StartRandom(Word),
    /// `percent_chance <weight>`.
    PercentChance(Word, Word),
    EndRandom(Word),
    OpenBlock(Word),
    CloseBlock(Word),
    /// A registered command with the argument words it consumed.
    Command(Word, Vec<Word>),
    /// `/* ... */`; the text between the delimiters is kept verbatim, and
    /// the closer is absent when the comment runs to end of input.
    Comment(Word, Vec<u8>, Option<Word>),
    /// Catch-all for anything unrecognized or malformed.
    Other(Word),
}

/// Mathematical image of an [`Atom`].
pub ghost enum AtomV {
    Const(WordV, WordV, Option<WordV>),
    Define(WordV, WordV),
    Section(WordV),
    If(WordV, WordV),
    ElseIf(WordV, WordV),
    Else(WordV),
    EndIf(WordV),
    StartRandom(WordV),
    PercentChance(WordV, WordV),
    EndRandom(WordV),
    OpenBlock(WordV),
    CloseBlock(WordV),
    Command(WordV, Seq<WordV>),
    Comment(WordV, Seq<u8>, Option<WordV>),
    Other(WordV),
}

impl View for Atom {
    type V = AtomV;

    open spec fn view(&self) -> AtomV {
        match self {
            Atom::Const(d, n, v) => AtomV::Const(
                d@,
                n@,
                match v {
                    Some(x) => Some(x@),
                    None => None,
                },
            ),
            Atom::Define(d, n) => AtomV::Define(d@, n@),
            Atom::Section(w) => AtomV::Section(w@),
            Atom::If(d, c) => AtomV::If(d@, c@),
            Atom::ElseIf(d, c) => AtomV::ElseIf(d@, c@),
            Atom::Else(w) => AtomV::Else(w@),
            Atom::EndIf(w) => AtomV::EndIf(w@),
            Atom::StartRandom(w) => AtomV::StartRandom(w@),
            Atom::PercentChance(d, c) => AtomV::PercentChance(d@, c@),
            Atom::EndRandom(w) => AtomV::EndRandom(w@),
            Atom::OpenBlock(w) => AtomV::OpenBlock(w@),
            Atom::CloseBlock(w) => AtomV::CloseBlock(w@),
            Atom::Command(n, args) => AtomV::Command(n@, args@.map_values(|w: Word| w@)),
            Atom::Comment(l, c, r) => AtomV::Comment(
                l@,
                c@,
                match r {
                    Some(x) => Some(x@),
                    None => None,
                },
            ),
            Atom::Other(w) => AtomV::Other(w@),
        }
    }
}

/// The defining word of an atom: the word every atom starts with.
pub open spec fn spec_head_word(a: AtomV) -> WordV {
    match a {
        AtomV::Const(d, _, _) => d,
        AtomV::Define(d, _) => d,
        AtomV::Section(w) => w,
        AtomV::If(d, _) => d,
        AtomV::ElseIf(d, _) => d,
        AtomV::Else(w) => w,
        AtomV::EndIf(w) => w,
        AtomV::StartRandom(w) => w,
        AtomV::PercentChance(d, _) => d,
        AtomV::EndRandom(w) => w,
        AtomV::OpenBlock(w) => w,
        AtomV::CloseBlock(w) => w,
        AtomV::Command(n, _) => n,
        AtomV::Comment(l, _, _) => l,
        AtomV::Other(w) => w,
    }
}

/// The file an atom was parsed from.
pub open spec fn spec_file_id(a: AtomV) -> u32 {
    spec_head_word(a).file
}

/// Byte span of one word.
pub open spec fn word_span(w: WordV) -> Span {
    Span { start: w.start as usize, end: w.end as usize }
}

/// The merged byte span of an atom, covering all of its words; for an
/// unterminated comment it covers the opener and the kept text.
pub open spec fn spec_span(a: AtomV) -> Span {
    match a {
        AtomV::Const(d, name, val) => word_span(d).spec_merge(
            word_span(
                match val {
                    Some(v) => v,
                    None => name,
                },
            ),
        ),
        AtomV::Define(d, arg) => word_span(d).spec_merge(word_span(arg)),
        AtomV::If(d, arg) => word_span(d).spec_merge(word_span(arg)),
        AtomV::ElseIf(d, arg) => word_span(d).spec_merge(word_span(arg)),
        AtomV::PercentChance(d, arg) => word_span(d).spec_merge(word_span(arg)),
        AtomV::Command(name, args) => if args.len() > 0 {
            word_span(name).spec_merge(word_span(args[args.len() - 1]))
        } else {
            word_span(name)
        },
        AtomV::Comment(left, content, right) => match right {
            Some(r) => word_span(left).spec_merge(word_span(r)),
            None => Span {
                start: left.start as usize,
                end: crate::bytes::sat_add(left.end, content.len() as int) as usize,
            },
        },
        _ => word_span(spec_head_word(a)),
    }
}

impl Atom {
    /// The file this atom was parsed from.
    pub fn file_id(&self) -> (r: u32)
        ensures
            r == spec_file_id(self@),
    {
        match self {
            Atom::Const(d, _, _) => d.file,
            Atom::Define(d, _) => d.file,
            Atom::Section(w) => w.file,
            Atom::If(d, _) => d.file,
            Atom::ElseIf(d, _) => d.file,
            Atom::Else(w) => w.file,
            Atom::EndIf(w) => w.file,
            Atom::StartRandom(w) => w.file,
            Atom::PercentChance(d, _) => d.file,
            Atom::EndRandom(w) => w.file,
            Atom::OpenBlock(w) => w.file,
            Atom::CloseBlock(w) => w.file,
            Atom::Command(n, _) => n.file,
            Atom::Comment(l, _, _) => l.file,
            Atom::Other(w) => w.file,
        }
    }

    /// The full span of this atom.
    pub fn span(&self) -> (r: Span)
        ensures
            r == spec_span(self@),
    {
        match self {
            Atom::Const(d, name, val) => match val {
                Some(v) => d.span.merge(v.span),
                None => d.span.merge(name.span),
            },
            Atom::Define(d, arg) => d.span.merge(arg.span),
            Atom::If(d, arg) => d.span.merge(arg.span),
            Atom::ElseIf(d, arg) => d.span.merge(arg.span),
            Atom::PercentChance(d, arg) => d.span.merge(arg.span),
            Atom::Command(name, args) => if args.len() > 0 {
                let last = &args[args.len() - 1];
                proof {
                    assert(args@.map_values(|w: Word| w@)[args@.len() - 1] == args@[args@.len()
                        - 1]@);
                }
                name.span.merge(last.span)
            } else {
                name.span
            },
            Atom::Comment(left, content, right) => match right {
                Some(r) => left.span.merge(r.span),
                None => Span {
                    start: left.span.start,
                    end: crate::bytes::sat_add_usize(left.span.end, content.len()),
                },
            },
            Atom::Section(w) => w.span,
            Atom::Else(w) => w.span,
            Atom::EndIf(w) => w.span,
            Atom::StartRandom(w) => w.span,
            Atom::EndRandom(w) => w.span,
            Atom::OpenBlock(w) => w.span,
            Atom::CloseBlock(w) => w.span,
            Atom::Other(w) => w.span,
        }
    }

    /// A copy of this atom.
    pub fn clone(&self) -> (r: Atom)
        ensures
            r@ == self@,
    {
        match self {
            Atom::Const(d, n, v) => Atom::Const(
                d.clone(),
                n.clone(),
                match v {
                    Some(x) => Some(x.clone()),
                    None => None,
                },
            ),
            Atom::Define(d, n) => Atom::Define(d.clone(), n.clone()),
            Atom::Section(w) => Atom::Section(w.clone()),
            Atom::If(d, c) => Atom::If(d.clone(), c.clone()),
            Atom::ElseIf(d, c) => Atom::ElseIf(d.clone(), c.clone()),
            Atom::Else(w) => Atom::Else(w.clone()),
            Atom::EndIf(w) => Atom::EndIf(w.clone()),
            Atom::StartRandom(w) => Atom::StartRandom(w.clone()),
            Atom::PercentChance(d, c) => Atom::PercentChance(d.clone(), c.clone()),
            Atom::EndRandom(w) => Atom::EndRandom(w.clone()),
            Atom::OpenBlock(w) => Atom::OpenBlock(w.clone()),
            Atom::CloseBlock(w) => Atom::CloseBlock(w.clone()),
            Atom::Command(n, args) => Atom::Command(n.clone(), clone_words(args)),
            Atom::Comment(l, c, r) => {
                proof {
                    assert(c@.subrange(0, c@.len() as int) =~= c@);
                }
                Atom::Comment(
                    l.clone(),
                    crate::bytes::sub_bytes(c.as_slice(), 0, c.len()),
                    match r {
                        Some(x) => Some(x.clone()),
                        None => None,
                    },
                )
            },
            Atom::Other(w) => Atom::Other(w.clone()),
        }
    }
}

/// A copy of a word vector, element by element.
pub fn clone_words(v: &Vec<Word>) -> (r: Vec<Word>)
    ensures
        r@.map_values(|w: Word| w@) == v@.map_values(|w: Word| w@),
{
    let mut r: Vec<Word> = Vec::new();
    let mut i: usize = 0;
    while i < v.len()
        invariant
            i <= v@.len(),
            r@.len() == i,
            forall|k: int| 0 <= k < i ==> (#[trigger] r@[k])@ == v@[k]@,
        decreases v@.len() - i,
    {
        r.push(v[i].clone());
        i = i + 1;
    }
    assert(r@.map_values(|w: Word| w@) =~= v@.map_values(|w: Word| w@));
    r
}

/// May this word serve as an argument? Structural delimiters, control
/// keywords and (exact-case) registry keys never do.
pub open spec fn is_arg_value(v: Seq<u8>) -> bool {
    !(v == str_bytes("/*") || v == str_bytes("*/") || v == str_bytes("{") || v == str_bytes("}")
        || v == str_bytes("if") || v == str_bytes("elseif") || v == str_bytes("else") || v
        == str_bytes("endif") || v == str_bytes("start_random") || v == str_bytes("percent_chance")
        || v == str_bytes("end_random") || spec_in_registry(v))
}

fn is_arg_word(w: &Word) -> (r: bool)
    ensures
        r == is_arg_value(w@.value),
{
    let v = w.value.as_slice();
    !(crate::bytes::eq_str(v, "/*") || crate::bytes::eq_str(v, "*/") || crate::bytes::eq_str(
        v,
        "{",
    ) || crate::bytes::eq_str(v, "}") || crate::bytes::eq_str(v, "if") || crate::bytes::eq_str(
        v,
        "elseif",
    ) || crate::bytes::eq_str(v, "else") || crate::bytes::eq_str(v, "endif")
        || crate::bytes::eq_str(v, "start_random") || crate::bytes::eq_str(v, "percent_chance")
        || crate::bytes::eq_str(v, "end_random") || crate::registry::in_registry(v))
}

/// Is there an argument word at index `i`?
pub open spec fn has_arg_at(ws: Seq<WordV>, i: int) -> bool {
    0 <= i < ws.len() && is_arg_value(ws[i].value)
}

/// Index of the first `*/` word at or after `i`; the length of the word
/// sequence when there is none.
pub open spec fn find_comment_close(ws: Seq<WordV>, i: int) -> int
    decreases ws.len() - i,
{
    if i < 0 || i >= ws.len() {
        ws.len() as int
    } else if ws[i].value == str_bytes("*/") {
        i
    } else {
        find_comment_close(ws, i + 1)
    }
}

pub proof fn lemma_find_comment_close_bounds(ws: Seq<WordV>, i: int)
    requires
        0 <= i <= ws.len(),
    ensures
        i <= find_comment_close(ws, i) <= ws.len(),
    decreases ws.len() - i,
{
    if i < ws.len() && ws[i].value != str_bytes("*/") {
        lemma_find_comment_close_bounds(ws, i + 1);
    }
}

/// How many consecutive argument words stand at `i`, capped at `max`.
pub open spec fn args_take(ws: Seq<WordV>, i: int, max: int) -> int
    decreases max,
{
    if max <= 0 || !has_arg_at(ws, i) {
        0
    } else {
        1 + args_take(ws, i + 1, max - 1)
    }
}

pub proof fn lemma_args_take_bounds(ws: Seq<WordV>, i: int, max: int)
    ensures
        0 <= args_take(ws, i, max),
        args_take(ws, i, max) <= max || max < 0,
        i + args_take(ws, i, max) <= ws.len() || !has_arg_at(ws, i),
    decreases max,
{
    if max > 0 && has_arg_at(ws, i) {
        lemma_args_take_bounds(ws, i + 1, max - 1);
    }
}

/// One step of the parse: the atom produced at word index `i`, the warnings
/// that accompany it, and the index of the first word of the next step.
pub ghost struct StepV {
    pub atom: AtomV,
    pub warnings: Seq<Warning>,
    pub next: int,
}

/// The parser's defining model: what one call of [`Parser::next`] produces
/// when words remain.
pub open spec fn parse_step(src: Seq<u8>, ws: Seq<WordV>, i: int) -> StepV
    recommends
        0 <= i < ws.len(),
{
    let w = ws[i];
    let lv = lower(w.value);
    if w.value.len() >= 1 && w.value[0] == LEFT_ANGLE && w.value[w.value.len() - 1] == RIGHT_ANGLE
        && spec_in_registry(w.value) {
        StepV { atom: AtomV::Section(w), warnings: Seq::empty(), next: i + 1 }
    } else if lv == str_bytes("{") {
        StepV { atom: AtomV::OpenBlock(w), warnings: Seq::empty(), next: i + 1 }
    } else if lv == str_bytes("}") {
        StepV { atom: AtomV::CloseBlock(w), warnings: Seq::empty(), next: i + 1 }
    } else if lv == str_bytes("/*") {
        let k = find_comment_close(ws, i + 1);
        if k < ws.len() {
            StepV {
                atom: AtomV::Comment(w, src.subrange(w.end, ws[k].start), Some(ws[k])),
                warnings: Seq::empty(),
                next: k + 1,
            }
        } else {
            let last = if ws.len() > i + 1 {
                ws[ws.len() - 1]
            } else {
                w
            };
            StepV {
                atom: AtomV::Comment(w, src.subrange(w.end, src.len() as int), None),
                warnings: seq![
                    Warning {
                        kind: WarningKind::UnclosedComment,
                        span: word_span(w).spec_merge(word_span(last)),
                    },
                ],
                next: ws.len() as int,
            }
        }
    } else if lv == str_bytes("if") {
        if has_arg_at(ws, i + 1) {
            StepV { atom: AtomV::If(w, ws[i + 1]), warnings: Seq::empty(), next: i + 2 }
        } else {
            StepV {
                atom: AtomV::Other(w),
                warnings: seq![
                    Warning { kind: WarningKind::MissingIfCondition, span: word_span(w) },
                ],
                next: i + 1,
            }
        }
    } else if lv == str_bytes("elseif") {
        if has_arg_at(ws, i + 1) {
            StepV { atom: AtomV::ElseIf(w, ws[i + 1]), warnings: Seq::empty(), next: i + 2 }
        } else {
            StepV {
                atom: AtomV::Other(w),
                warnings: seq![
                    Warning { kind: WarningKind::MissingIfCondition, span: word_span(w) },
                ],
                next: i + 1,
            }
        }
    } else if lv == str_bytes("else") {
        StepV { atom: AtomV::Else(w), warnings: Seq::empty(), next: i + 1 }
    } else if lv == str_bytes("endif") {
        StepV { atom: AtomV::EndIf(w), warnings: Seq::empty(), next: i + 1 }
    } else if lv == str_bytes("start_random") {
        StepV { atom: AtomV::StartRandom(w), warnings: Seq::empty(), next: i + 1 }
    } else if lv == str_bytes("percent_chance") {
        if has_arg_at(ws, i + 1) {
            StepV { atom: AtomV::PercentChance(w, ws[i + 1]), warnings: Seq::empty(), next: i + 2 }
        } else {
            StepV {
                atom: AtomV::Other(w),
                warnings: seq![
                    Warning { kind: WarningKind::MissingPercentChance, span: word_span(w) },
                ],
                next: i + 1,
            }
        }
    } else if lv == str_bytes("end_random") {
        StepV { atom: AtomV::EndRandom(w), warnings: Seq::empty(), next: i + 1 }
    } else if lv == str_bytes("#define") {
        if has_arg_at(ws, i + 1) {
            StepV { atom: AtomV::Define(w, ws[i + 1]), warnings: Seq::empty(), next: i + 2 }
        } else {
            StepV {
                atom: AtomV::Other(w),
                warnings: seq![
                    Warning { kind: WarningKind::MissingDefineName, span: word_span(w) },
                ],
                next: i + 1,
            }
        }
    } else if lv == str_bytes("#const") {
        if has_arg_at(ws, i + 1) {
            if has_arg_at(ws, i + 2) {
                StepV {
                    atom: AtomV::Const(w, ws[i + 1], Some(ws[i + 2])),
                    warnings: Seq::empty(),
                    next: i + 3,
                }
            } else {
                StepV {
                    atom: AtomV::Const(w, ws[i + 1], None),
                    warnings: seq![
                        Warning {
                            kind: WarningKind::MissingConstValue,
                            span: word_span(w).spec_merge(word_span(ws[i + 1])),
                        },
                    ],
                    next: i + 2,
                }
            }
        } else {
            StepV {
                atom: AtomV::Other(w),
                warnings: seq![
                    Warning { kind: WarningKind::MissingConstName, span: word_span(w) },
                ],
                next: i + 1,
            }
        }
    } else if spec_command_info(lv) is Some {
        let info = spec_command_info(lv)->Some_0;
        let n = args_take(ws, i + 1, info.arity as int);
        let args = ws.subrange(i + 1, i + 1 + n);
        StepV {
            atom: AtomV::Command(w, args),
            warnings: if n < info.arity {
                seq![
                    Warning {
                        kind: WarningKind::MissingCommandArgs,
                        span: if n > 0 {
                            word_span(w).spec_merge(word_span(args[n - 1]))
                        } else {
                            word_span(w)
                        },
                    },
                ]
            } else {
                Seq::empty()
            },
            next: i + 1 + n,
        }
    } else {
        StepV { atom: AtomV::Other(w), warnings: Seq::empty(), next: i + 1 }
    }
}

pub proof fn lemma_parse_step_next(src: Seq<u8>, ws: Seq<WordV>, i: int)
    requires
        0 <= i < ws.len(),
    ensures
        i < parse_step(src, ws, i).next <= ws.len(),
{
    let w = ws[i];
    let lv = lower(w.value);
    lemma_find_comment_close_bounds(ws, i + 1);
    if spec_command_info(lv) is Some {
        lemma_args_take_bounds(ws, i + 1, spec_command_info(lv)->Some_0.arity as int);
    }
}

/// The whole parse from word index `i` on: the stream of atoms, each with
/// its warnings.
pub open spec fn parse_from(src: Seq<u8>, ws: Seq<WordV>, i: int) -> Seq<(AtomV, Seq<Warning>)>
    decreases ws.len() - i,
    via parse_from_dec
{
    if i < 0 || i >= ws.len() {
        Seq::empty()
    } else {
        let st = parse_step(src, ws, i);
        seq![(st.atom, st.warnings)] + parse_from(src, ws, st.next)
    }
}

#[via_fn]
proof fn parse_from_dec(src: Seq<u8>, ws: Seq<WordV>, i: int) {
    if 0 <= i < ws.len() {
        lemma_parse_step_next(src, ws, i);
    }
}

/// The parse of a source text: atoms and warnings from its word sequence.
pub open spec fn spec_parse(src: Seq<u8>, file: u32) -> Seq<(AtomV, Seq<Warning>)> {
    parse_from(src, spec_words(src, 0, file), 0)
}

/// A forgiving random map script parser, turning a stream of words into a
/// stream of atoms.
pub struct Parser {
    file: u32,
    src: Vec<u8>,
    words: Vec<Word>,
    pos: usize,
}

impl Parser {
    /// The source bytes being parsed.
    pub closed spec fn src(&self) -> Seq<u8> {
        self.src@
    }

    /// The word sequence of the source.
    pub closed spec fn words(&self) -> Seq<WordV> {
        self.words@.map_values(|w: Word| w@)
    }

    /// Index of the next word to be consumed.
    pub closed spec fn pos(&self) -> int {
        self.pos as int
    }

    /// The file identifier given at construction.
    pub closed spec fn file_id(&self) -> u32 {
        self.file
    }

    /// The cursor always lies between the start and the end of the word
    /// sequence.
    pub proof fn lemma_pos_bounds(&self)
        requires
            self.wf(),
        ensures
            0 <= self.pos() <= self.words().len(),
    {
    }

    /// Internal consistency: the words are exactly the tokenization of the
    /// source, lie inside it in increasing order, and the cursor is in
    /// range.
    pub closed spec fn wf(&self) -> bool {
        &&& self.words() == spec_words(self.src@, 0, self.file)
        &&& self.pos <= self.words@.len()
        &&& forall|k: int|
            0 <= k < self.words().len() ==> {
                let w = #[trigger] self.words()[k];
                &&& w.file == self.file
                &&& 0 <= w.start < w.end <= self.src@.len()
                &&& w.value == self.src@.subrange(w.start, w.end)
            }
        &&& forall|k1: int, k2: int|
            0 <= k1 < k2 < self.words().len() ==> #[trigger] self.words()[k1].end
                <= #[trigger] self.words()[k2].start
    }

    /// Build a parser over one source text.
    pub fn new(file_id: u32, source: &[u8]) -> (r: Parser)
        ensures
            r.wf(),
            r.src() == source@,
            r.file_id() == file_id,
            r.pos() == 0,
            r.words() == spec_words(source@, 0, file_id),
    {
        let words = crate::wordize::tokenize(file_id, source);
        proof {
            assert(source@.subrange(0, source@.len() as int) =~= source@);
            crate::wordize::lemma_spec_words_wf(source@, 0, file_id);
            let ws = words@.map_values(|w: Word| w@);
            assert forall|k1: int, k2: int| 0 <= k1 < k2 < ws.len() implies #[trigger] ws[k1].end
                <= #[trigger] ws[k2].start by {
                lemma_words_ordered(ws, k1, k2);
            }
        }
        Parser { file: file_id, src: crate::bytes::sub_bytes(source, 0, source.len()), words, pos: 0 }
    }

    /// Produce the next atom, or `None` at end of input. Exactly
    /// [`parse_step`] of the current position.
    pub fn next(&mut self) -> (r: Option<(Atom, Vec<Warning>)>)
        requires
            old(self).wf(),
        ensures
            final(self).wf(),
            final(self).src() == old(self).src(),
            final(self).words() == old(self).words(),
            final(self).file_id() == old(self).file_id(),
            old(self).pos() >= old(self).words().len() ==> r is None && final(self).pos() == old(
                self,
            ).pos(),
            old(self).pos() < old(self).words().len() ==> {
                let st = parse_step(old(self).src(), old(self).words(), old(self).pos());
                match r {
                    Some(p) => p.0@ == st.atom && p.1@ == st.warnings && final(self).pos()
                        == st.next,
                    None => false,
                }
            },
    {
        let ghost ws = self.words();
        let ghost src_v = self.src@;
        if self.pos >= self.words.len() {
            return None;
        }
        let ghost st = parse_step(src_v, ws, self.pos as int);
        let i = self.pos;
        let w = self.words[i].clone();
        let lv = crate::bytes::to_lower(w.value.as_slice());
        let lvs = lv.as_slice();
        let vs = w.value.as_slice();

        // A registered `<SECTION>` name.
        if w.value.len() >= 1 && w.value[0] == LEFT_ANGLE && w.value[w.value.len() - 1]
            == RIGHT_ANGLE && crate::registry::in_registry(vs) {
            self.pos = i + 1;
            return Some((Atom::Section(w), Vec::new()));
        }
        if crate::bytes::eq_str(lvs, "{") {
            self.pos = i + 1;
            return Some((Atom::OpenBlock(w), Vec::new()));
        }
        if crate::bytes::eq_str(lvs, "}") {
            self.pos = i + 1;
            return Some((Atom::CloseBlock(w), Vec::new()));
        }
        if crate::bytes::eq_str(lvs, "/*") {
            return Some(self.read_comment(w));
        }
        if crate::bytes::eq_str(lvs, "if") {
            return Some(self.one_arg_construct(w, WarningKind::MissingIfCondition, 0));
        }
        if crate::bytes::eq_str(lvs, "elseif") {
            return Some(self.one_arg_construct(w, WarningKind::MissingIfCondition, 1));
        }
        if crate::bytes::eq_str(lvs, "else") {
            self.pos = i + 1;
            return Some((Atom::Else(w), Vec::new()));
        }
        if crate::bytes::eq_str(lvs, "endif") {
            self.pos = i + 1;
            return Some((Atom::EndIf(w), Vec::new()));
        }
        if crate::bytes::eq_str(lvs, "start_random") {
            self.pos = i + 1;
            return Some((Atom::StartRandom(w), Vec::new()));
        }
        if crate::bytes::eq_str(lvs, "percent_chance") {
            return Some(self.one_arg_construct(w, WarningKind::MissingPercentChance, 2));
        }
        if crate::bytes::eq_str(lvs, "end_random") {
            self.pos = i + 1;
            return Some((Atom::EndRandom(w), Vec::new()));
        }
        if crate::bytes::eq_str(lvs, "#define") {
            return Some(self.one_arg_construct(w, WarningKind::MissingDefineName, 3));
        }
        if crate::bytes::eq_str(lvs, "#const") {
            return Some(self.read_const(w));
        }
        match crate::registry::command_info(lvs) {
            Some(info) => Some(self.read_command(w, info)),
            None => {
                self.pos = i + 1;
                Some((Atom::Other(w), Vec::new()))
            },
        }
    }

    /// Is there an argument word at index `idx`?
    fn has_arg(&self, idx: usize) -> (r: bool)
        requires
            self.wf(),
        ensures
            r == has_arg_at(self.words(), idx as int),
    {
        idx < self.words.len() && is_arg_word(&self.words[idx])
    }

    /// Read a construct of one keyword and one argument word: `if`,
    /// `elseif`, `percent_chance` or `#define`, selected by `which`.
    fn one_arg_construct(&mut self, w: Word, kind: WarningKind, which: u8) -> (r: (
        Atom,
        Vec<Warning>,
    ))
        requires
            old(self).wf(),
            old(self).pos() < old(self).words().len(),
            w@ == old(self).words()[old(self).pos()],
        ensures
            final(self).wf(),
            final(self).src() == old(self).src(),
            final(self).words() == old(self).words(),
            final(self).file_id() == old(self).file_id(),
            ({
                let ws = old(self).words();
                let i = old(self).pos();
                if has_arg_at(ws, i + 1) {
                    &&& r.0@ == (if which == 0 {
                        AtomV::If(w@, ws[i + 1])
                    } else if which == 1 {
                        AtomV::ElseIf(w@, ws[i + 1])
                    } else if which == 2 {
                        AtomV::PercentChance(w@, ws[i + 1])
                    } else {
                        AtomV::Define(w@, ws[i + 1])
                    })
                    &&& r.1@ == Seq::<Warning>::empty()
                    &&& final(self).pos() == i + 2
                } else {
                    &&& r.0@ == AtomV::Other(w@)
                    &&& r.1@ == seq![Warning { kind, span: word_span(w@) }]
                    &&& final(self).pos() == i + 1
                }
            }),
    {
        let total = self.words.len();
        proof {
            assert(self.words().len() == total as int);
        }
        let i = self.pos;
        if self.has_arg(i + 1) {
            let arg = self.words[i + 1].clone();
            self.pos = i + 2;
            let atom = if which == 0 {
                Atom::If(w, arg)
            } else if which == 1 {
                Atom::ElseIf(w, arg)
            } else if which == 2 {
                Atom::PercentChance(w, arg)
            } else {
                Atom::Define(w, arg)
            };
            (atom, Vec::new())
        } else {
            let span = w.span;
            self.pos = i + 1;
            let mut warnings: Vec<Warning> = Vec::new();
            warnings.push(Warning { kind, span });
            (Atom::Other(w), warnings)
        }
    }

    /// Read a `#const` with its name and optional value.
    fn read_const(&mut self, w: Word) -> (r: (Atom, Vec<Warning>))
        requires
            old(self).wf(),
            old(self).pos() < old(self).words().len(),
            w@ == old(self).words()[old(self).pos()],
        ensures
            final(self).wf(),
            final(self).src() == old(self).src(),
            final(self).words() == old(self).words(),
            final(self).file_id() == old(self).file_id(),
            ({
                let ws = old(self).words();
                let i = old(self).pos();
                if has_arg_at(ws, i + 1) {
                    if has_arg_at(ws, i + 2) {
                        &&& r.0@ == AtomV::Const(w@, ws[i + 1], Some(ws[i + 2]))
                        &&& r.1@ == Seq::<Warning>::empty()
                        &&& final(self).pos() == i + 3
                    } else {
                        &&& r.0@ == AtomV::Const(w@, ws[i + 1], None)
                        &&& r.1@ == seq![
                            Warning {
                                kind: WarningKind::MissingConstValue,
                                span: word_span(w@).spec_merge(word_span(ws[i + 1])),
                            },
                        ]
                        &&& final(self).pos() == i + 2
                    }
                } else {
                    &&& r.0@ == AtomV::Other(w@)
                    &&& r.1@ == seq![
                        Warning { kind: WarningKind::MissingConstName, span: word_span(w@) },
                    ]
                    &&& final(self).pos() == i + 1
                }
            }),
    {
        let total = self.words.len();
        proof {
            assert(self.words().len() == total as int);
        }
        let i = self.pos;
        if self.has_arg(i + 1) {
            let name = self.words[i + 1].clone();
            if self.has_arg(i + 2) {
                let value = self.words[i + 2].clone();
                self.pos = i + 3;
                (Atom::Const(w, name, Some(value)), Vec::new())
            } else {
                let span = w.span.merge(name.span);
                self.pos = i + 2;
                let mut warnings: Vec<Warning> = Vec::new();
                warnings.push(Warning { kind: WarningKind::MissingConstValue, span });
                (Atom::Const(w, name, None), warnings)
            }
        } else {
            let span = w.span;
            self.pos = i + 1;
            let mut warnings: Vec<Warning> = Vec::new();
            warnings.push(Warning { kind: WarningKind::MissingConstName, span });
            (Atom::Other(w), warnings)
        }
    }

    /// Read a comment opened by `w`, capturing all raw text until `*/` or
    /// end of input.
    fn read_comment(&mut self, w: Word) -> (r: (Atom, Vec<Warning>))
        requires
            old(self).wf(),
            old(self).pos() < old(self).words().len(),
            w@ == old(self).words()[old(self).pos()],
        ensures
            final(self).wf(),
            final(self).src() == old(self).src(),
            final(self).words() == old(self).words(),
            final(self).file_id() == old(self).file_id(),
            ({
                let ws = old(self).words();
                let src = old(self).src();
                let i = old(self).pos();
                let k = find_comment_close(ws, i + 1);
                if k < ws.len() {
                    &&& r.0@ == AtomV::Comment(w@, src.subrange(w@.end, ws[k].start), Some(ws[k]))
                    &&& r.1@ == Seq::<Warning>::empty()
                    &&& final(self).pos() == k + 1
                } else {
                    let last = if ws.len() > i + 1 {
                        ws[ws.len() - 1]
                    } else {
                        w@
                    };
                    &&& r.0@ == AtomV::Comment(w@, src.subrange(w@.end, src.len() as int), None)
                    &&& r.1@ == seq![
                        Warning {
                            kind: WarningKind::UnclosedComment,
                            span: word_span(w@).spec_merge(word_span(last)),
                        },
                    ]
                    &&& final(self).pos() == ws.len()
                }
            }),
    {
        let ghost ws = self.words();
        let total = self.words.len();
        proof {
            assert(self.words().len() == total as int);
        }
        let i = self.pos;
        let mut k: usize = i + 1;
        while k < self.words.len() && !crate::bytes::eq_str(self.words[k].value.as_slice(), "*/")
            invariant
                self.wf(),
                i + 1 <= k <= self.words@.len(),
                ws == self.words(),
                find_comment_close(ws, i + 1) == find_comment_close(ws, k as int),
            decreases self.words@.len() - k,
        {
            k = k + 1;
        }
        assert(find_comment_close(ws, i + 1) == if k < ws.len() {
            k as int
        } else {
            ws.len() as int
        });
        if k < self.words.len() {
            let closer = self.words[k].clone();
            proof {
                assert(ws[i as int].end <= ws[k as int].start);
            }
            let content = crate::bytes::sub_bytes(self.src.as_slice(), w.span.end, closer.span.start);
            self.pos = k + 1;
            (Atom::Comment(w, content, Some(closer)), Vec::new())
        } else {
            let content = crate::bytes::sub_bytes(self.src.as_slice(), w.span.end, self.src.len());
            let last_span = if self.words.len() > i + 1 {
                self.words[self.words.len() - 1].span
            } else {
                w.span
            };
            let span = w.span.merge(last_span);
            self.pos = self.words.len();
            let mut warnings: Vec<Warning> = Vec::new();
            warnings.push(Warning { kind: WarningKind::UnclosedComment, span });
            (Atom::Comment(w, content, None), warnings)
        }
    }

    /// Read a registered command and the argument words its arity asks for;
    /// a shortfall is flagged.
    fn read_command(&mut self, w: Word, info: CommandInfo) -> (r: (Atom, Vec<Warning>))
        requires
            old(self).wf(),
            old(self).pos() < old(self).words().len(),
            w@ == old(self).words()[old(self).pos()],
            spec_command_info(lower(w@.value)) == Some(info),
        ensures
            final(self).wf(),
            final(self).src() == old(self).src(),
            final(self).words() == old(self).words(),
            final(self).file_id() == old(self).file_id(),
            ({
                let ws = old(self).words();
                let i = old(self).pos();
                let n = args_take(ws, i + 1, info.arity as int);
                &&& r.0@ == AtomV::Command(w@, ws.subrange(i + 1, i + 1 + n))
                &&& r.1@ == (if n < info.arity {
                    seq![
                        Warning {
                            kind: WarningKind::MissingCommandArgs,
                            span: if n > 0 {
                                word_span(w@).spec_merge(word_span(ws[i + n]))
                            } else {
                                word_span(w@)
                            },
                        },
                    ]
                } else {
                    Seq::<Warning>::empty()
                })
                &&& final(self).pos() == i + 1 + n
            }),
    {
        let ghost ws = self.words();
        let total = self.words.len();
        proof {
            assert(self.words().len() == total as int);
        }
        let i = self.pos;
        let start = i + 1;
        let mut args: Vec<Word> = Vec::new();
        let mut n: usize = 0;
        while n < info.arity as usize && self.has_arg(start + n)
            invariant
                self.wf(),
                ws == self.words(),
                total as int == ws.len(),
                i + 1 == start,
                i < ws.len(),
                n <= info.arity as usize,
                start + n <= total,
                args@.len() == n,
                forall|k: int| 0 <= k < n ==> (#[trigger] args@[k])@ == ws[start + k],
                args_take(ws, start as int, info.arity as int) == n + args_take(
                    ws,
                    start + n,
                    info.arity - n,
                ),
            decreases info.arity - n,
        {
            args.push(self.words[start + n].clone());
            n = n + 1;
        }
        proof {
            assert(args_take(ws, start + n, info.arity - n) == 0);
            assert(args@.map_values(|x: Word| x@) =~= ws.subrange(start as int, start + n));
        }
        let mut warnings: Vec<Warning> = Vec::new();
        if n < info.arity as usize {
            let span = if n > 0 {
                w.span.merge(args[n - 1].span)
            } else {
                w.span
            };
            proof {
                if n > 0 {
                    assert(args@[n - 1]@ == ws[start + n - 1]);
                }
            }
            warnings.push(Warning { kind: WarningKind::MissingCommandArgs, span });
        }
        self.pos = start + n;
        (Atom::Command(w, args), warnings)
    }
}

/// Pairwise ordering of words follows from adjacent ordering.
proof fn lemma_words_ordered(ws: Seq<WordV>, k1: int, k2: int)
    requires
        0 <= k1 < k2 < ws.len(),
        forall|k: int|
            0 <= k < ws.len() ==> {
                let w = #[trigger] ws[k];
                &&& w.start < w.end
                &&& (k + 1 < ws.len() ==> w.end <= ws[k + 1].start)
            },
    ensures
        ws[k1].end <= ws[k2].start,
    decreases k2 - k1,
{
    if k1 + 1 < k2 {
        lemma_words_ordered(ws, k1 + 1, k2);
    }
}

} // verus!
