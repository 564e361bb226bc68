//! The formatter: a second consumer of the atom stream that re-serializes
//! it as canonically formatted text, with Windows line endings.
//!
//! Commands are column-aligned within their block, brace blocks indent
//! their contents, conditional chains and randomized-branch blocks indent
//! their bodies, trivial random branches are printed as aligned one-line
//! branches, and comments are reformatted in a Java style. The formatter
//! is total over any atom stream: atoms it has no printing rule for are
//! ignored.

use vstd::prelude::*;
use crate::bytes::sat_add;
use crate::bytes::sat_sub;
use crate::bytes::str_bytes;
use crate::bytes::SPACE;
use crate::checker::skip_ws;
use crate::parser::Atom;
use crate::parser::AtomV;
use crate::wordize::Word;
use crate::wordize::WordV;

verus! {

/// `n` space bytes.
pub open spec fn spaces(n: int) -> Seq<u8>
    decreases n,
{
    if n <= 0 {
        Seq::empty()
    } else {
        spaces(n - 1).push(SPACE)
    }
}

/// Mathematical image of a [`Formatter`].
#[verifier::ext_equal]
pub ghost struct FmtV {
    pub indent: int,
    pub needs_indent: bool,
    pub command_width: int,
    pub inside_block: int,
    pub result: Seq<u8>,
    pub prev: Option<AtomV>,
}

/// Re-serializes a stream of atoms as canonical source text.
pub struct Formatter {
    /// The current indentation level, in columns.
    pub indent: usize,
    /// Whether the current line still needs indentation: no text has been
    /// written to it yet.
    pub needs_indent: bool,
    /// Width commands are padded to within the current block.
    pub command_width: usize,
    /// How many command blocks are currently open.
    pub inside_block: usize,
    /// The formatted text.
    pub result: Vec<u8>,
    /// The last-written atom.
    pub prev: Option<Atom>,
}

impl View for Formatter {
    type V = FmtV;

    open spec fn view(&self) -> FmtV {
        FmtV {
            indent: self.indent as int,
            needs_indent: self.needs_indent,
            command_width: self.command_width as int,
            inside_block: self.inside_block as int,
            result: self.result@,
            prev: match &self.prev {
                Some(a) => Some(a@),
                None => None,
            },
        }
    }
}

/// A newline (Windows-style).
pub open spec fn spec_newline(st: FmtV) -> FmtV {
    FmtV { result: st.result + str_bytes("\r\n"), needs_indent: true, ..st }
}

/// Indentation for the current line, if it still needs it.
pub open spec fn spec_maybe_indent(st: FmtV) -> FmtV {
    if st.needs_indent {
        FmtV { result: st.result + spaces(st.indent), needs_indent: false, ..st }
    } else {
        st
    }
}

/// Text written to the current line.
pub open spec fn spec_text(st: FmtV, t: Seq<u8>) -> FmtV {
    let s1 = spec_maybe_indent(st);
    FmtV { result: s1.result + t, ..s1 }
}

/// The argument words of a command, each preceded by one space.
pub open spec fn spec_command_args(st: FmtV, args: Seq<WordV>, k: int) -> FmtV
    decreases args.len() - k,
{
    if k < 0 || k >= args.len() {
        st
    } else {
        let s1 = spec_text(FmtV { result: st.result.push(SPACE), ..st }, args[k].value);
        spec_command_args(s1, args, k + 1)
    }
}

/// A command: its name padded to the block's command width, its
/// arguments, and a newline — or a trailing space when a block opener
/// follows.
pub open spec fn spec_command(st: FmtV, name: WordV, args: Seq<WordV>, is_block: bool) -> FmtV {
    let s1 = spec_text(st, name.value);
    let s2 = FmtV {
        result: s1.result + spaces(sat_sub(st.command_width, name.value.len() as int)),
        ..s1
    };
    let s3 = spec_command_args(s2, args, 0);
    if is_block {
        FmtV { result: s3.result.push(SPACE), ..s3 }
    } else {
        spec_newline(s3)
    }
}

/// A section header, preceded by a blank line unless it is the very
/// first atom.
pub open spec fn spec_section(st: FmtV, name: WordV) -> FmtV {
    let s0 = if st.prev is Some {
        spec_newline(st)
    } else {
        st
    };
    spec_newline(spec_text(s0, name.value))
}

/// A `#define` statement.
pub open spec fn spec_define(st: FmtV, name: WordV) -> FmtV {
    spec_newline(spec_text(spec_text(st, str_bytes("#define ")), name.value))
}

/// A `#const` statement.
pub open spec fn spec_const(st: FmtV, name: WordV, value: Option<WordV>) -> FmtV {
    let s1 = spec_text(spec_text(spec_text(st, str_bytes("#const ")), name.value), str_bytes(" "));
    let s2 = match value {
        Some(v) => spec_text(s1, v.value),
        None => s1,
    };
    spec_newline(s2)
}

/// Does a comment continuation line already carry a `* ` bullet once
/// trimmed?
pub open spec fn line_has_bullet(l: Seq<u8>) -> bool {
    let t = crate::checker::trim_bytes(l);
    t.len() >= 2 && t[0] == crate::wordize::STAR && t[1] == SPACE
}

/// The continuation lines of a comment from byte position `pos` on, each
/// on its own bulleted line.
pub open spec fn spec_comment_rest(st: FmtV, content: Seq<u8>, pos: int) -> FmtV
    decreases content.len() - pos + 1,
    via spec_comment_rest_dec
{
    if pos < 0 || pos >= content.len() {
        st
    } else {
        let j = crate::checker::find_nl(content, pos);
        let l = crate::checker::strip_cr(content.subrange(pos, j));
        let s1 = spec_text(spec_newline(st), str_bytes(" * "));
        let s2 = if line_has_bullet(l) {
            spec_text(s1, l.skip(skip_ws(l, 0)))
        } else {
            spec_text(s1, l)
        };
        spec_comment_rest(s2, content, j + 1)
    }
}

#[via_fn]
proof fn spec_comment_rest_dec(st: FmtV, content: Seq<u8>, pos: int) {
    if 0 <= pos < content.len() {
        crate::checker::lemma_find_nl_bounds(content, pos);
    }
}

/// A comment, reformatted Java-style: `/* ` and the trimmed first line,
/// one aligned ` * ` continuation line per further line, and ` */`.
pub open spec fn spec_comment(st: FmtV, content: Seq<u8>) -> FmtV {
    let s1 = spec_text(st, str_bytes("/* "));
    if content.len() == 0 {
        spec_newline(spec_text(s1, str_bytes(" */")))
    } else {
        let j0 = crate::checker::find_nl(content, 0);
        let first = crate::checker::strip_cr(content.subrange(0, j0));
        let s2 = spec_text(s1, crate::checker::trim_bytes(first));
        let s3 = spec_comment_rest(s2, content, j0 + 1);
        let s4 = if j0 + 1 < content.len() {
            spec_newline(s3)
        } else {
            s3
        };
        spec_newline(spec_text(s4, str_bytes(" */")))
    }
}

/// Index of the first block closer in `[i, end)`, or `end`.
pub open spec fn find_close_block(atoms: Seq<AtomV>, i: int, end: int) -> int
    decreases end - i,
{
    if i < 0 || i >= end {
        end
    } else if atoms[i] is CloseBlock {
        i
    } else {
        find_close_block(atoms, i + 1, end)
    }
}

/// Index of the `endif` matching an already-open `if` at depth `depth`,
/// or `end`.
pub open spec fn find_endif(atoms: Seq<AtomV>, i: int, end: int, depth: int) -> int
    decreases end - i,
{
    if i < 0 || i >= end {
        end
    } else {
        match atoms[i] {
            AtomV::If(_, _) => find_endif(atoms, i + 1, end, depth + 1),
            AtomV::EndIf(_) => if depth == 1 {
                i
            } else {
                find_endif(atoms, i + 1, end, depth - 1)
            },
            _ => find_endif(atoms, i + 1, end, depth),
        }
    }
}

/// Index of the `end_random` matching an already-open `start_random` at
/// depth `depth`, or `end`.
pub open spec fn find_end_random(atoms: Seq<AtomV>, i: int, end: int, depth: int) -> int
    decreases end - i,
{
    if i < 0 || i >= end {
        end
    } else {
        match atoms[i] {
            AtomV::StartRandom(_) => find_end_random(atoms, i + 1, end, depth + 1),
            AtomV::EndRandom(_) => if depth == 1 {
                i
            } else {
                find_end_random(atoms, i + 1, end, depth - 1)
            },
            _ => find_end_random(atoms, i + 1, end, depth),
        }
    }
}

/// Index of the next branch opener (`percent_chance` at the current
/// random depth) in `[i, end)`, or `end`.
pub open spec fn next_branch(atoms: Seq<AtomV>, i: int, end: int, depth: int) -> int
    decreases end - i,
{
    if i < 0 || i >= end {
        end
    } else {
        match atoms[i] {
            AtomV::PercentChance(_, _) => if depth == 0 {
                i
            } else {
                next_branch(atoms, i + 1, end, depth)
            },
            AtomV::StartRandom(_) => next_branch(atoms, i + 1, end, depth + 1),
            AtomV::EndRandom(_) => next_branch(atoms, i + 1, end, depth - 1),
            _ => next_branch(atoms, i + 1, end, depth),
        }
    }
}

pub proof fn lemma_scan_bounds(atoms: Seq<AtomV>, i: int, end: int, depth: int)
    requires
        i <= end,
    ensures
        i <= find_close_block(atoms, i, end) <= end,
        i <= find_endif(atoms, i, end, depth) <= end,
        i <= find_end_random(atoms, i, end, depth) <= end,
        i <= next_branch(atoms, i, end, depth) <= end,
    decreases end - i,
{
    if i < end {
        lemma_scan_bounds(atoms, i + 1, end, depth);
        lemma_scan_bounds(atoms, i + 1, end, depth + 1);
        lemma_scan_bounds(atoms, i + 1, end, depth - 1);
    }
}

/// The first word index after the construct that starts at atom `i`:
/// block openers, conditionals and random blocks consume through their
/// closer; everything else is one atom long.
pub open spec fn atom_next(atoms: Seq<AtomV>, i: int, end: int) -> int {
    match atoms[i] {
        AtomV::OpenBlock(_) => {
            let c = find_close_block(atoms, i + 1, end);
            if c < end {
                c + 1
            } else {
                end
            }
        },
        AtomV::If(_, _) => {
            let e = find_endif(atoms, i + 1, end, 1);
            if e < end {
                e + 1
            } else {
                end
            }
        },
        AtomV::StartRandom(_) => {
            let e = find_end_random(atoms, i + 1, end, 1);
            if e < end {
                e + 1
            } else {
                end
            }
        },
        _ => i + 1,
    }
}

pub proof fn lemma_atom_next_bounds(atoms: Seq<AtomV>, i: int, end: int)
    requires
        0 <= i < end,
    ensures
        i < atom_next(atoms, i, end) <= end,
{
    lemma_scan_bounds(atoms, i + 1, end, 1);
}

/// The width of the longest command name directly in a block, taking the
/// extra indentation of conditional bodies into account.
pub open spec fn block_longest(atoms: Seq<AtomV>, i: int, end: int, ind: int, cur: int) -> int
    decreases end - i,
{
    if i < 0 || i >= end {
        cur
    } else {
        match atoms[i] {
            AtomV::Command(name, _) => block_longest(
                atoms,
                i + 1,
                end,
                ind,
                if sat_add(name.value.len() as int, ind) > cur {
                    sat_add(name.value.len() as int, ind)
                } else {
                    cur
                },
            ),
            AtomV::If(_, _) => block_longest(atoms, i + 1, end, sat_add(ind, 2), cur),
            AtomV::EndIf(_) => block_longest(atoms, i + 1, end, sat_sub(ind, 2), cur),
            _ => block_longest(atoms, i + 1, end, ind, cur),
        }
    }
}

/// May a random branch consisting of exactly this atom be printed on one
/// line?
pub open spec fn is_simple_stmt(a: AtomV) -> bool {
    a is Define || a is Const || a is Command
}

/// Are all branches of a random block trivial (at most one simple
/// statement each)? `b` is `end` or the index of a branch opener.
pub open spec fn branches_simple(atoms: Seq<AtomV>, b: int, end: int) -> bool
    decreases end - b,
    via branches_simple_dec
{
    if b < 0 || b >= end {
        true
    } else {
        let nb = next_branch(atoms, b + 1, end, 0);
        &&& nb - b - 1 <= 1
        &&& (nb - b - 1 == 1 ==> is_simple_stmt(atoms[b + 1]))
        &&& branches_simple(atoms, nb, end)
    }
}

#[via_fn]
proof fn branches_simple_dec(atoms: Seq<AtomV>, b: int, end: int) {
    if 0 <= b < end {
        lemma_scan_bounds(atoms, b + 1, end, 0);
    }
}

/// The chance word of a branch opener.
pub open spec fn branch_chance(a: AtomV) -> Seq<u8> {
    match a {
        AtomV::PercentChance(_, chance) => chance.value,
        _ => Seq::empty(),
    }
}

/// The width of the widest `percent_chance <weight>` line among the
/// branches.
pub open spec fn branches_longest(atoms: Seq<AtomV>, b: int, end: int, cur: int) -> int
    decreases end - b,
    via branches_longest_dec
{
    if b < 0 || b >= end {
        cur
    } else {
        let line_len = str_bytes("percent_chance ").len() + branch_chance(atoms[b]).len();
        let nb = next_branch(atoms, b + 1, end, 0);
        branches_longest(
            atoms,
            nb,
            end,
            if line_len > cur {
                line_len as int
            } else {
                cur
            },
        )
    }
}

#[via_fn]
proof fn branches_longest_dec(atoms: Seq<AtomV>, b: int, end: int, cur: int) {
    if 0 <= b < end {
        lemma_scan_bounds(atoms, b + 1, end, 0);
    }
}

/// One formatting step and where it continues. These functions mirror
/// the formatter exactly; the executable methods return precisely these
/// states.
pub open spec fn spec_write_atom(st: FmtV, atoms: Seq<AtomV>, i: int, end: int) -> FmtV
    decreases end - i, 2int,
    via spec_write_atom_dec
{
    let st0 = if st.prev matches Some(p) && p is CloseBlock {
        spec_newline(st)
    } else {
        st
    };
    let body = if i < 0 || i >= end {
        st0
    } else {
        match atoms[i] {
            AtomV::Section(name) => spec_section(st0, name),
            AtomV::Define(_, name) => spec_define(st0, name),
            AtomV::Const(_, name, value) => spec_const(st0, name, value),
            AtomV::Command(name, args) => spec_command(
                st0,
                name,
                args,
                i + 1 < end && atoms[i + 1] is OpenBlock,
            ),
            AtomV::OpenBlock(_) => spec_block(st0, atoms, i, end),
            AtomV::If(_, cond) => spec_condition(st0, cond, atoms, i, end),
            AtomV::StartRandom(_) => spec_random(st0, atoms, i, end),
            AtomV::Comment(_, content, _) => spec_comment(st0, content),
            _ => st0,
        }
    };
    if 0 <= i < end {
        FmtV { prev: Some(atoms[i]), ..body }
    } else {
        body
    }
}

/// A command block: `{`, the two-space-indented contents with commands
/// aligned to the block's own width, then `}`.
pub open spec fn spec_block(st0: FmtV, atoms: Seq<AtomV>, i: int, end: int) -> FmtV
    decreases end - i, 1int,
    via spec_block_dec
{
    if i < 0 || i >= end {
        st0
    } else {
        let close = find_close_block(atoms, i + 1, end);
        let longest = block_longest(atoms, i + 1, close, 0, 0);
        let s_a = FmtV { inside_block: sat_add(st0.inside_block, 1), ..st0 };
        let s_b = spec_newline(spec_text(s_a, str_bytes("{")));
        let s_c = FmtV { indent: sat_add(s_b.indent, 2), command_width: longest, ..s_b };
        let s_d = spec_write_range(s_c, atoms, i + 1, close);
        let s_e = FmtV {
            command_width: s_b.command_width,
            inside_block: sat_sub(s_d.inside_block, 1),
            indent: sat_sub(s_d.indent, 2),
            ..s_d
        };
        spec_newline(spec_text(s_e, str_bytes("}")))
    }
}

#[via_fn]
proof fn spec_block_dec(st0: FmtV, atoms: Seq<AtomV>, i: int, end: int) {
    if 0 <= i < end {
        lemma_scan_bounds(atoms, i + 1, end, 1);
    }
}

/// A conditional chain: `if`, `elseif` and `else` at the enclosing
/// indent, bodies two spaces further, `endif` at the enclosing indent,
/// and a blank line after a top-level chain.
pub open spec fn spec_condition(st0: FmtV, cond: WordV, atoms: Seq<AtomV>, i: int, end: int) -> FmtV
    decreases end - i, 1int,
    via spec_condition_dec
{
    if i < 0 || i >= end {
        st0
    } else {
        let e = find_endif(atoms, i + 1, end, 1);
        let s_a = spec_newline(spec_text(spec_text(st0, str_bytes("if ")), cond.value));
        let s_b = FmtV { indent: sat_add(s_a.indent, 2), command_width: 0, ..s_a };
        let s_c = spec_cond_body(s_b, atoms, i + 1, e);
        let s_d = FmtV { command_width: s_a.command_width, indent: sat_sub(s_c.indent, 2), ..s_c };
        let s_e = spec_newline(spec_text(s_d, str_bytes("endif")));
        if s_e.inside_block == 0 {
            spec_newline(s_e)
        } else {
            s_e
        }
    }
}

#[via_fn]
proof fn spec_condition_dec(st0: FmtV, cond: WordV, atoms: Seq<AtomV>, i: int, end: int) {
    if 0 <= i < end {
        lemma_scan_bounds(atoms, i + 1, end, 1);
    }
}

/// The body of a conditional chain: `elseif` and `else` branch headers
/// at the outer indent, everything else formatted as usual.
pub open spec fn spec_cond_body(st: FmtV, atoms: Seq<AtomV>, j: int, e: int) -> FmtV
    decreases e - j, 3int,
    via spec_cond_body_dec
{
    if j < 0 || j >= e {
        st
    } else {
        match atoms[j] {
            AtomV::ElseIf(_, cond) => {
                let s1 = FmtV { indent: sat_sub(st.indent, 2), ..st };
                let s2 = spec_newline(spec_text(spec_text(s1, str_bytes("elseif ")), cond.value));
                let s3 = FmtV { indent: sat_add(s2.indent, 2), ..s2 };
                spec_cond_body(s3, atoms, j + 1, e)
            },
            AtomV::Else(_) => {
                let s1 = FmtV { indent: sat_sub(st.indent, 2), ..st };
                let s2 = spec_newline(spec_text(s1, str_bytes("else")));
                let s3 = FmtV { indent: sat_add(s2.indent, 2), ..s2 };
                spec_cond_body(s3, atoms, j + 1, e)
            },
            _ => {
                let s1 = spec_write_atom(st, atoms, j, e);
                spec_cond_body(s1, atoms, atom_next(atoms, j, e), e)
            },
        }
    }
}

#[via_fn]
proof fn spec_cond_body_dec(st: FmtV, atoms: Seq<AtomV>, j: int, e: int) {
    if 0 <= j < e {
        lemma_atom_next_bounds(atoms, j, e);
    }
}

/// A randomized-branch block: `start_random`, the branches, then
/// `end_random`. Blocks whose branches are all trivial print each branch
/// as one aligned `percent_chance <weight>  <statement>` line; any other
/// shape prints each branch header on its own line with its body
/// indented beneath it.
pub open spec fn spec_random(st0: FmtV, atoms: Seq<AtomV>, i: int, end: int) -> FmtV
    decreases end - i, 1int,
    via spec_random_dec
{
    if i < 0 || i >= end {
        st0
    } else {
        let e = find_end_random(atoms, i + 1, end, 1);
        let b0 = next_branch(atoms, i + 1, e, 0);
        let s_a = spec_newline(spec_text(st0, str_bytes("start_random")));
        let s_b = FmtV { indent: sat_add(s_a.indent, 2), command_width: 0, ..s_a };
        let s_c = spec_write_range(s_b, atoms, i + 1, b0);
        let s_d = if branches_simple(atoms, b0, e) {
            spec_simple_branches(s_c, atoms, b0, e, branches_longest(atoms, b0, e, 0))
        } else {
            spec_general_branches(s_c, atoms, b0, e)
        };
        let s_e = FmtV { command_width: s_a.command_width, indent: sat_sub(s_d.indent, 2), ..s_d };
        spec_newline(spec_text(s_e, str_bytes("end_random")))
    }
}

#[via_fn]
proof fn spec_random_dec(st0: FmtV, atoms: Seq<AtomV>, i: int, end: int) {
    if 0 <= i < end {
        lemma_scan_bounds(atoms, i + 1, end, 1);
        lemma_scan_bounds(atoms, i + 1, find_end_random(atoms, i + 1, end, 1), 0);
    }
}

/// Trivial branches, one aligned line each.
pub open spec fn spec_simple_branches(
    st: FmtV,
    atoms: Seq<AtomV>,
    b: int,
    e: int,
    longest: int,
) -> FmtV
    decreases e - b, 2int,
    via spec_simple_branches_dec
{
    if b < 0 || b >= e {
        st
    } else {
        let line = str_bytes("percent_chance ") + branch_chance(atoms[b]);
        let nb = next_branch(atoms, b + 1, e, 0);
        let s1 = spec_text(st, line + spaces(longest - line.len()));
        let s2 = if nb - b - 1 >= 1 {
            let s1b = FmtV { result: s1.result.push(SPACE), ..s1 };
            spec_write_atom(s1b, atoms, b + 1, b + 2)
        } else {
            spec_newline(s1)
        };
        spec_simple_branches(s2, atoms, nb, e, longest)
    }
}

#[via_fn]
proof fn spec_simple_branches_dec(st: FmtV, atoms: Seq<AtomV>, b: int, e: int, longest: int) {
    if 0 <= b < e {
        lemma_scan_bounds(atoms, b + 1, e, 0);
    }
}

/// General branches: a `percent_chance` header line, then the branch
/// body indented beneath it.
pub open spec fn spec_general_branches(st: FmtV, atoms: Seq<AtomV>, b: int, e: int) -> FmtV
    decreases e - b, 2int,
    via spec_general_branches_dec
{
    if b < 0 || b >= e {
        st
    } else {
        let nb = next_branch(atoms, b + 1, e, 0);
        let s1 = spec_newline(
            spec_text(spec_text(st, str_bytes("percent_chance ")), branch_chance(atoms[b])),
        );
        let s2 = FmtV { indent: sat_add(s1.indent, 2), ..s1 };
        let s3 = spec_write_range(s2, atoms, b + 1, nb);
        let s4 = FmtV { indent: sat_sub(s3.indent, 2), ..s3 };
        spec_general_branches(s4, atoms, nb, e)
    }
}

#[via_fn]
proof fn spec_general_branches_dec(st: FmtV, atoms: Seq<AtomV>, b: int, e: int) {
    if 0 <= b < e {
        lemma_scan_bounds(atoms, b + 1, e, 0);
    }
}

/// The whole atom range `[i, end)`, formatted in order.
pub open spec fn spec_write_range(st: FmtV, atoms: Seq<AtomV>, i: int, end: int) -> FmtV
    decreases end - i, 3int,
    via spec_write_range_dec
{
    if i < 0 || i >= end {
        st
    } else {
        let s1 = spec_write_atom(st, atoms, i, end);
        spec_write_range(s1, atoms, atom_next(atoms, i, end), end)
    }
}

#[via_fn]
proof fn spec_write_range_dec(st: FmtV, atoms: Seq<AtomV>, i: int, end: int) {
    if 0 <= i < end {
        lemma_atom_next_bounds(atoms, i, end);
    }
}

#[via_fn]
proof fn spec_write_atom_dec(st: FmtV, atoms: Seq<AtomV>, i: int, end: int) {
}

/// A fresh formatter's state.
pub open spec fn initial_fmt() -> FmtV {
    FmtV {
        indent: 0,
        needs_indent: false,
        command_width: 0,
        inside_block: 0,
        result: Seq::empty(),
        prev: None,
    }
}

/// The canonical text of a whole atom stream.
pub open spec fn spec_format(atoms: Seq<AtomV>) -> Seq<u8> {
    spec_write_range(initial_fmt(), atoms, 0, atoms.len() as int).result
}

/// The canonical text of a source: its parse's atoms, formatted.
pub open spec fn spec_format_source(src: Seq<u8>) -> Seq<u8> {
    spec_format(
        crate::parser::spec_parse(src, 0).map_values(
            |p: (AtomV, Seq<crate::parser::Warning>)| p.0,
        ),
    )
}


/// The atoms of a vector, mathematically.
pub open spec fn atoms_view(atoms: &Vec<Atom>) -> Seq<AtomV> {
    atoms@.map_values(|a: Atom| a@)
}

impl Default for Formatter {
    /// A fresh formatter: no indentation, no output yet.
    fn default() -> (r: Formatter)
        ensures
            r@ == initial_fmt(),
    {
        let r = Formatter {
            indent: 0,
            needs_indent: false,
            command_width: 0,
            inside_block: 0,
            result: Vec::new(),
            prev: None,
        };
        proof {
            assert(r@ =~~= initial_fmt());
        }
        r
    }
}

/// First index at or after `i` whose atom is a block closer, or `end`.
fn find_close_block_exec(atoms: &Vec<Atom>, i: usize, end: usize) -> (r: usize)
    requires
        i <= end <= atoms@.len(),
    ensures
        r == find_close_block(atoms_view(atoms), i as int, end as int),
        i <= r <= end,
    decreases end - i,
{
    if i >= end {
        return end;
    }
    proof {
        assert(atoms_view(atoms)[i as int] == atoms@[i as int]@);
    }
    match &atoms[i] {
        Atom::CloseBlock(_) => i,
        _ => find_close_block_exec(atoms, i + 1, end),
    }
}

/// Index of the matching `endif`, or `end`.
fn find_endif_exec(atoms: &Vec<Atom>, i: usize, end: usize, depth: u128) -> (r: usize)
    requires
        i <= end <= atoms@.len(),
        1 <= depth,
        depth as int + (end - i) < u128::MAX as int,
    ensures
        r == find_endif(atoms_view(atoms), i as int, end as int, depth as int),
        i <= r <= end,
    decreases end - i,
{
    if i >= end {
        return end;
    }
    proof {
        assert(atoms_view(atoms)[i as int] == atoms@[i as int]@);
    }
    match &atoms[i] {
        Atom::If(_, _) => find_endif_exec(atoms, i + 1, end, depth + 1),
        Atom::EndIf(_) => {
            if depth == 1 {
                i
            } else {
                find_endif_exec(atoms, i + 1, end, depth - 1)
            }
        },
        _ => find_endif_exec(atoms, i + 1, end, depth),
    }
}

/// Index of the matching `end_random`, or `end`.
fn find_end_random_exec(atoms: &Vec<Atom>, i: usize, end: usize, depth: u128) -> (r: usize)
    requires
        i <= end <= atoms@.len(),
        1 <= depth,
        depth as int + (end - i) < u128::MAX as int,
    ensures
        r == find_end_random(atoms_view(atoms), i as int, end as int, depth as int),
        i <= r <= end,
    decreases end - i,
{
    if i >= end {
        return end;
    }
    proof {
        assert(atoms_view(atoms)[i as int] == atoms@[i as int]@);
    }
    match &atoms[i] {
        Atom::StartRandom(_) => find_end_random_exec(atoms, i + 1, end, depth + 1),
        Atom::EndRandom(_) => {
            if depth == 1 {
                i
            } else {
                find_end_random_exec(atoms, i + 1, end, depth - 1)
            }
        },
        _ => find_end_random_exec(atoms, i + 1, end, depth),
    }
}

/// Index of the next branch opener at the current depth, or `end`.
fn next_branch_exec(atoms: &Vec<Atom>, i: usize, end: usize, depth: i128) -> (r: usize)
    requires
        i <= end <= atoms@.len(),
        depth as int + (end - i) < i128::MAX as int,
        depth as int - (end - i) > i128::MIN as int,
    ensures
        r == next_branch(atoms_view(atoms), i as int, end as int, depth as int),
        i <= r <= end,
    decreases end - i,
{
    if i >= end {
        return end;
    }
    proof {
        assert(atoms_view(atoms)[i as int] == atoms@[i as int]@);
    }
    match &atoms[i] {
        Atom::PercentChance(_, _) => {
            if depth == 0 {
                i
            } else {
                next_branch_exec(atoms, i + 1, end, depth)
            }
        },
        Atom::StartRandom(_) => next_branch_exec(atoms, i + 1, end, depth + 1),
        Atom::EndRandom(_) => next_branch_exec(atoms, i + 1, end, depth - 1),
        _ => next_branch_exec(atoms, i + 1, end, depth),
    }
}

/// The width of the longest command name directly in a block.
fn block_longest_exec(atoms: &Vec<Atom>, i: usize, end: usize, ind: usize, cur: usize) -> (r:
    usize)
    requires
        i <= end <= atoms@.len(),
    ensures
        r == block_longest(atoms_view(atoms), i as int, end as int, ind as int, cur as int),
    decreases end - i,
{
    if i >= end {
        return cur;
    }
    proof {
        assert(atoms_view(atoms)[i as int] == atoms@[i as int]@);
    }
    match &atoms[i] {
        Atom::Command(name, _) => {
            let cand = crate::bytes::sat_add_usize(name.value.len(), ind);
            let next_cur = if cand > cur {
                cand
            } else {
                cur
            };
            block_longest_exec(atoms, i + 1, end, ind, next_cur)
        },
        Atom::If(_, _) => block_longest_exec(
            atoms,
            i + 1,
            end,
            crate::bytes::sat_add_usize(ind, 2),
            cur,
        ),
        Atom::EndIf(_) => block_longest_exec(
            atoms,
            i + 1,
            end,
            crate::bytes::sat_sub_usize(ind, 2),
            cur,
        ),
        _ => block_longest_exec(atoms, i + 1, end, ind, cur),
    }
}

/// Are all branches of a random block trivial?
fn branches_simple_exec(atoms: &Vec<Atom>, b: usize, e: usize) -> (r: bool)
    requires
        b <= e <= atoms@.len(),
    ensures
        r == branches_simple(atoms_view(atoms), b as int, e as int),
    decreases e - b,
{
    if b >= e {
        return true;
    }
    let ghost ws = atoms_view(atoms);
    let nb = next_branch_exec(atoms, b + 1, e, 0);
    if nb - b - 1 > 1 {
        return false;
    }
    if nb - b - 1 == 1 {
        proof {
            assert(ws[b + 1] == atoms@[b as int + 1]@);
        }
        let simple = match &atoms[b + 1] {
            Atom::Define(_, _) => true,
            Atom::Const(_, _, _) => true,
            Atom::Command(_, _) => true,
            _ => false,
        };
        if !simple {
            return false;
        }
    }
    branches_simple_exec(atoms, nb, e)
}

/// The width of the widest `percent_chance <weight>` line.
fn branches_longest_exec(atoms: &Vec<Atom>, b: usize, e: usize, cur: usize) -> (r: usize)
    requires
        b <= e <= atoms@.len(),
    ensures
        r == branches_longest(atoms_view(atoms), b as int, e as int, cur as int),
    decreases e - b,
{
    if b >= e {
        return cur;
    }
    let ghost ws = atoms_view(atoms);
    proof {
        assert(ws[b as int] == atoms@[b as int]@);
    }
    let mut line: Vec<u8> = Vec::new();
    crate::bytes::push_str(&mut line, "percent_chance ");
    match &atoms[b] {
        Atom::PercentChance(_, chance) => {
            crate::bytes::push_bytes(&mut line, chance.value.as_slice());
        },
        _ => {},
    }
    proof {
        assert(line@ =~= str_bytes("percent_chance ") + branch_chance(ws[b as int]));
    }
    let line_len = line.len();
    let nb = next_branch_exec(atoms, b + 1, e, 0);
    let next_cur = if line_len > cur {
        line_len
    } else {
        cur
    };
    branches_longest_exec(atoms, nb, e, next_cur)
}

impl Formatter {
    /// Write a newline (Windows-style).
    pub fn newline(&mut self)
        ensures
            final(self)@ == spec_newline(old(self)@),
    {
        crate::bytes::push_str(&mut self.result, "\r\n");
        self.needs_indent = true;
        proof {
            assert(self@ =~~= spec_newline(old(self)@));
        }
    }

    /// Indent the current line if it still needs it.
    pub fn maybe_indent(&mut self)
        ensures
            final(self)@ == spec_maybe_indent(old(self)@),
    {
        if self.needs_indent {
            let n = self.indent;
            let mut k: usize = 0;
            while k < n
                invariant
                    k <= n,
                    self.indent == old(self).indent,
                    self.needs_indent == old(self).needs_indent,
                    self.command_width == old(self).command_width,
                    self.inside_block == old(self).inside_block,
                    self.prev == old(self).prev,
                    self.result@ == old(self).result@ + spaces(k as int),
                decreases n - k,
            {
                let ghost pre = self.result@;
                self.result.push(SPACE);
                proof {
                    assert(self.result@ =~= old(self).result@ + spaces(k + 1));
                }
                k = k + 1;
            }
            self.needs_indent = false;
            proof {
                assert(self@ =~~= spec_maybe_indent(old(self)@));
            }
        } else {
            proof {
                assert(self@ =~~= spec_maybe_indent(old(self)@));
            }
        }
    }

    /// Write bytes to the current line.
    pub fn text(&mut self, t: &[u8])
        ensures
            final(self)@ == spec_text(old(self)@, t@),
    {
        self.maybe_indent();
        crate::bytes::push_bytes(&mut self.result, t);
        proof {
            assert(self@ =~~= spec_text(old(self)@, t@));
        }
    }

    /// Write a literal to the current line.
    fn text_str(&mut self, t: &str)
        ensures
            final(self)@ == spec_text(old(self)@, str_bytes(t)),
    {
        self.maybe_indent();
        crate::bytes::push_str(&mut self.result, t);
        proof {
            assert(self@ =~~= spec_text(old(self)@, str_bytes(t)));
        }
    }

    /// Write a command, padded to the block's command width.
    pub fn command(&mut self, name: &Word, args: &Vec<Word>, is_block: bool)
        ensures
            final(self)@ == spec_command(
                old(self)@,
                name@,
                args@.map_values(|w: Word| w@),
                is_block,
            ),
    {
        let ghost argsv = args@.map_values(|w: Word| w@);
        self.text(name.value.as_slice());
        let ghost s1 = self@;
        let pad = crate::bytes::sat_sub_usize(self.command_width, name.value.len());
        let mut k: usize = 0;
        while k < pad
            invariant
                k <= pad,
                self.indent == s1.indent,
                self.needs_indent == s1.needs_indent,
                self.command_width as int == s1.command_width,
                self.inside_block as int == s1.inside_block,
                self@.prev == s1.prev,
                self.result@ == s1.result + spaces(k as int),
            decreases pad - k,
        {
            self.result.push(SPACE);
            proof {
                assert(self.result@ =~= s1.result + spaces(k + 1));
            }
            k = k + 1;
        }
        proof {
            assert(spaces(pad as int) == spaces(
                sat_sub(old(self)@.command_width, name@.value.len() as int),
            ));
            assert(self@ =~~= (FmtV {
                result: s1.result + spaces(
                    sat_sub(old(self)@.command_width, name@.value.len() as int),
                ),
                ..s1
            }));
        }
        let ghost s2 = self@;
        let mut idx: usize = 0;
        while idx < args.len()
            invariant
                idx <= args@.len(),
                argsv == args@.map_values(|w: Word| w@),
                spec_command_args(s2, argsv, 0) == spec_command_args(self@, argsv, idx as int),
            decreases args@.len() - idx,
        {
            let ghost before = self@;
            self.result.push(SPACE);
            proof {
                assert(self@ =~~= (FmtV { result: before.result.push(SPACE), ..before }));
                assert(argsv[idx as int] == args@[idx as int]@);
            }
            self.text(args[idx].value.as_slice());
            idx = idx + 1;
        }
        if is_block {
            let ghost s3 = self@;
            self.result.push(SPACE);
            proof {
                assert(self@ =~~= (FmtV { result: s3.result.push(SPACE), ..s3 }));
            }
        } else {
            self.newline();
        }
        proof {
            assert(self@ =~~= spec_command(old(self)@, name@, argsv, is_block));
        }
    }

    /// Write a section header.
    pub fn section(&mut self, name: &Word)
        ensures
            final(self)@ == spec_section(old(self)@, name@),
    {
        let has_prev = match &self.prev {
            Some(_) => true,
            None => false,
        };
        if has_prev {
            self.newline();
        }
        self.text(name.value.as_slice());
        self.newline();
    }

    /// Write a `#define` statement.
    pub fn define(&mut self, name: &Word)
        ensures
            final(self)@ == spec_define(old(self)@, name@),
    {
        self.text_str("#define ");
        self.text(name.value.as_slice());
        self.newline();
    }

    /// Write a `#const` statement.
    pub fn const_(&mut self, name: &Word, value: &Option<Word>)
        ensures
            final(self)@ == spec_const(
                old(self)@,
                name@,
                match value {
                    Some(v) => Some(v@),
                    None => None,
                },
            ),
    {
        self.text_str("#const ");
        self.text(name.value.as_slice());
        self.text_str(" ");
        match value {
            Some(v) => {
                self.text(v.value.as_slice());
            },
            None => {},
        }
        self.newline();
    }

    /// Write the continuation lines of a comment.
    fn comment_rest(&mut self, content: &[u8], pos: usize)
        requires
            pos <= content@.len(),
        ensures
            final(self)@ == spec_comment_rest(old(self)@, content@, pos as int),
        decreases content@.len() - pos,
    {
        if pos >= content.len() {
            return ;
        }
        let mut j: usize = pos;
        while j < content.len() && content[j] != crate::bytes::LINE_FEED
            invariant
                pos <= j <= content@.len(),
                crate::checker::find_nl(content@, pos as int) == crate::checker::find_nl(
                    content@,
                    j as int,
                ),
            decreases content@.len() - j,
        {
            j = j + 1;
        }
        assert(crate::checker::find_nl(content@, pos as int) == j);
        let j2: usize = if j > pos && content[j - 1] == crate::bytes::CARRIAGE_RETURN {
            j - 1
        } else {
            j
        };
        let line = crate::bytes::sub_bytes(content, pos, j2);
        proof {
            let raw = content@.subrange(pos as int, j as int);
            if j > pos && content@[j - 1] == crate::bytes::CARRIAGE_RETURN {
                assert(raw[raw.len() - 1] == crate::bytes::CARRIAGE_RETURN);
                assert(content@.subrange(pos as int, j2 as int) =~= raw.drop_last());
            } else {
                if raw.len() > 0 {
                    assert(raw[raw.len() - 1] == content@[j - 1]);
                }
            }
            assert(line@ == crate::checker::strip_cr(raw));
        }
        self.newline();
        self.text_str(" * ");
        let (a, b) = crate::checker::trim_range(line.as_slice());
        let bullet = b - a >= 2 && line[a] == crate::wordize::STAR && line[a + 1] == SPACE;
        proof {
            let t = crate::checker::trim_bytes(line@);
            assert(t.len() == b - a);
            if t.len() >= 2 {
                assert(t[0] == line@[a as int]);
                assert(t[1] == line@[a as int + 1]);
            }
            assert(bullet == line_has_bullet(line@));
        }
        if bullet {
            let tail = crate::bytes::sub_bytes(line.as_slice(), a, line.len());
            proof {
                assert(tail@ =~= line@.skip(skip_ws(line@, 0)));
            }
            self.text(tail.as_slice());
        } else {
            self.text(line.as_slice());
        }
        self.comment_rest(content, if j < content.len() {
            j + 1
        } else {
            content.len()
        });
        proof {
            if j < content@.len() {
            } else {
                assert(spec_comment_rest(
                    spec_text(
                        spec_text(spec_newline(old(self)@), str_bytes(" * ")),
                        if line_has_bullet(line@) {
                            line@.skip(skip_ws(line@, 0))
                        } else {
                            line@
                        },
                    ),
                    content@,
                    j + 1,
                ) == spec_comment_rest(
                    spec_text(
                        spec_text(spec_newline(old(self)@), str_bytes(" * ")),
                        if line_has_bullet(line@) {
                            line@.skip(skip_ws(line@, 0))
                        } else {
                            line@
                        },
                    ),
                    content@,
                    content@.len() as int,
                ));
            }
        }
    }

    /// Write a comment, reformatted Java-style.
    pub fn comment(&mut self, content: &[u8])
        ensures
            final(self)@ == spec_comment(old(self)@, content@),
    {
        self.text_str("/* ");
        if content.len() == 0 {
            self.text_str(" */");
            self.newline();
            return ;
        }
        let mut j: usize = 0;
        while j < content.len() && content[j] != crate::bytes::LINE_FEED
            invariant
                j <= content@.len(),
                crate::checker::find_nl(content@, 0) == crate::checker::find_nl(content@, j as int),
            decreases content@.len() - j,
        {
            j = j + 1;
        }
        assert(crate::checker::find_nl(content@, 0) == j);
        let j2: usize = if j > 0 && content[j - 1] == crate::bytes::CARRIAGE_RETURN {
            j - 1
        } else {
            j
        };
        let first = crate::bytes::sub_bytes(content, 0, j2);
        proof {
            let raw = content@.subrange(0, j as int);
            if j > 0 && content@[j - 1] == crate::bytes::CARRIAGE_RETURN {
                assert(raw[raw.len() - 1] == crate::bytes::CARRIAGE_RETURN);
                assert(content@.subrange(0, j2 as int) =~= raw.drop_last());
            } else {
                if raw.len() > 0 {
                    assert(raw[raw.len() - 1] == content@[j - 1]);
                }
            }
            assert(first@ == crate::checker::strip_cr(raw));
        }
        let (a, b) = crate::checker::trim_range(first.as_slice());
        let trimmed = crate::bytes::sub_bytes(first.as_slice(), a, b);
        self.text(trimmed.as_slice());
        let next_pos = if j < content.len() {
            j + 1
        } else {
            content.len()
        };
        self.comment_rest(content, next_pos);
        proof {
            if j >= content@.len() {
                assert(spec_comment_rest(self@, content@, j + 1) == spec_comment_rest(
                    self@,
                    content@,
                    content@.len() as int,
                ));
            }
        }
        if j < content.len() && j + 1 < content.len() {
            self.newline();
        }
        self.text_str(" */");
        self.newline();
        proof {
            assert(self@ =~~= spec_comment(old(self)@, content@));
        }
    }
}


impl Formatter {
    /// Write one atom (and, for block/conditional/random openers, the
    /// whole construct they open), returning the index formatting
    /// continues at.
    pub fn write_atom(&mut self, atoms: &Vec<Atom>, i: usize, end: usize) -> (r: usize)
        requires
            i < end <= atoms@.len(),
        ensures
            final(self)@ == spec_write_atom(old(self)@, atoms_view(atoms), i as int, end as int),
            r == atom_next(atoms_view(atoms), i as int, end as int),
            i < r <= end,
        decreases end - i, 2int,
    {
        let ghost ws = atoms_view(atoms);
        proof {
            assert(ws[i as int] == atoms@[i as int]@);
            lemma_atom_next_bounds(ws, i as int, end as int);
        }
        let prev_close = match &self.prev {
            Some(Atom::CloseBlock(_)) => true,
            _ => false,
        };
        if prev_close {
            self.newline();
        }
        let next: usize = match &atoms[i] {
            Atom::Section(name) => {
                self.section(name);
                i + 1
            },
            Atom::Define(_, name) => {
                self.define(name);
                i + 1
            },
            Atom::Const(_, name, value) => {
                self.const_(name, value);
                i + 1
            },
            Atom::Command(name, args) => {
                let is_block = i + 1 < end && (match &atoms[i + 1] {
                    Atom::OpenBlock(_) => true,
                    _ => false,
                });
                proof {
                    if i + 1 < end {
                        assert(ws[i as int + 1] == atoms@[i as int + 1]@);
                    }
                }
                self.command(name, args, is_block);
                i + 1
            },
            Atom::OpenBlock(_) => self.block(atoms, i, end),
            Atom::If(_, cond) => self.condition(cond, atoms, i, end),
            Atom::StartRandom(_) => self.random(atoms, i, end),
            Atom::Comment(_, content, _) => {
                self.comment(content.as_slice());
                i + 1
            },
            _ => { i + 1 },
        };
        self.prev = Some(atoms[i].clone());
        proof {
            assert(self@ =~~= spec_write_atom(old(self)@, ws, i as int, end as int));
        }
        next
    }

    /// Write every atom of the range `[i, end)` in order.
    pub fn write_range(&mut self, atoms: &Vec<Atom>, i: usize, end: usize)
        requires
            i <= end <= atoms@.len(),
        ensures
            final(self)@ == spec_write_range(old(self)@, atoms_view(atoms), i as int, end as int),
        decreases end - i, 3int,
    {
        if i < end {
            let j = self.write_atom(atoms, i, end);
            self.write_range(atoms, j, end);
        }
    }

    /// Write a command block: `{`, the two-space-indented contents with
    /// commands aligned to the block's own width, then `}`.
    pub fn block(&mut self, atoms: &Vec<Atom>, i: usize, end: usize) -> (r: usize)
        requires
            i < end <= atoms@.len(),
        ensures
            final(self)@ == spec_block(old(self)@, atoms_view(atoms), i as int, end as int),
            r == atom_next_for_close(atoms_view(atoms), i as int, end as int),
        decreases end - i, 1int,
    {
        let ghost ws = atoms_view(atoms);
        let close = find_close_block_exec(atoms, i + 1, end);
        let longest = block_longest_exec(atoms, i + 1, close, 0, 0);
        self.inside_block = crate::bytes::sat_add_usize(self.inside_block, 1);
        self.text_str("{");
        self.newline();
        self.indent = crate::bytes::sat_add_usize(self.indent, 2);
        let saved = self.command_width;
        self.command_width = longest;
        self.write_range(atoms, i + 1, close);
        self.command_width = saved;
        self.inside_block = crate::bytes::sat_sub_usize(self.inside_block, 1);
        self.indent = crate::bytes::sat_sub_usize(self.indent, 2);
        self.text_str("}");
        self.newline();
        proof {
            assert(self@ =~~= spec_block(old(self)@, ws, i as int, end as int));
        }
        if close < end {
            close + 1
        } else {
            end
        }
    }

    /// Write a conditional chain: `if`, its body, any `elseif`/`else`
    /// branches, then `endif`.
    pub fn condition(&mut self, cond: &Word, atoms: &Vec<Atom>, i: usize, end: usize) -> (r: usize)
        requires
            i < end <= atoms@.len(),
        ensures
            final(self)@ == spec_condition(
                old(self)@,
                cond@,
                atoms_view(atoms),
                i as int,
                end as int,
            ),
            r == atom_next_for_endif(atoms_view(atoms), i as int, end as int),
        decreases end - i, 1int,
    {
        let ghost ws = atoms_view(atoms);
        self.text_str("if ");
        self.text(cond.value.as_slice());
        self.newline();
        self.indent = crate::bytes::sat_add_usize(self.indent, 2);
        let saved = self.command_width;
        self.command_width = 0;
        let e = find_endif_exec(atoms, i + 1, end, 1);
        self.cond_body(atoms, i + 1, e);
        self.command_width = saved;
        self.indent = crate::bytes::sat_sub_usize(self.indent, 2);
        self.text_str("endif");
        self.newline();
        if self.inside_block == 0 {
            self.newline();
        }
        proof {
            assert(self@ =~~= spec_condition(old(self)@, cond@, ws, i as int, end as int));
        }
        if e < end {
            e + 1
        } else {
            end
        }
    }

    /// Write the body of a conditional chain, keeping `elseif` and
    /// `else` headers at the outer indent.
    fn cond_body(&mut self, atoms: &Vec<Atom>, j: usize, e: usize)
        requires
            j <= e <= atoms@.len(),
        ensures
            final(self)@ == spec_cond_body(old(self)@, atoms_view(atoms), j as int, e as int),
        decreases e - j, 3int,
    {
        if j >= e {
            return ;
        }
        let ghost ws = atoms_view(atoms);
        proof {
            assert(ws[j as int] == atoms@[j as int]@);
        }
        match &atoms[j] {
            Atom::ElseIf(_, cond) => {
                self.indent = crate::bytes::sat_sub_usize(self.indent, 2);
                self.text_str("elseif ");
                self.text(cond.value.as_slice());
                self.newline();
                self.indent = crate::bytes::sat_add_usize(self.indent, 2);
                self.cond_body(atoms, j + 1, e);
            },
            Atom::Else(_) => {
                self.indent = crate::bytes::sat_sub_usize(self.indent, 2);
                self.text_str("else");
                self.newline();
                self.indent = crate::bytes::sat_add_usize(self.indent, 2);
                self.cond_body(atoms, j + 1, e);
            },
            _ => {
                let nj = self.write_atom(atoms, j, e);
                self.cond_body(atoms, nj, e);
            },
        }
    }

    /// Write a randomized-branch block.
    pub fn random(&mut self, atoms: &Vec<Atom>, i: usize, end: usize) -> (r: usize)
        requires
            i < end <= atoms@.len(),
        ensures
            final(self)@ == spec_random(old(self)@, atoms_view(atoms), i as int, end as int),
            r == atom_next_for_end_random(atoms_view(atoms), i as int, end as int),
        decreases end - i, 1int,
    {
        let ghost ws = atoms_view(atoms);
        self.text_str("start_random");
        self.newline();
        self.indent = crate::bytes::sat_add_usize(self.indent, 2);
        let saved = self.command_width;
        self.command_width = 0;
        let e = find_end_random_exec(atoms, i + 1, end, 1);
        let b0 = next_branch_exec(atoms, i + 1, e, 0);
        self.write_range(atoms, i + 1, b0);
        if branches_simple_exec(atoms, b0, e) {
            let longest = branches_longest_exec(atoms, b0, e, 0);
            self.simple_branches(atoms, b0, e, longest);
        } else {
            self.general_branches(atoms, b0, e);
        }
        self.command_width = saved;
        self.indent = crate::bytes::sat_sub_usize(self.indent, 2);
        self.text_str("end_random");
        self.newline();
        proof {
            assert(self@ =~~= spec_random(old(self)@, ws, i as int, end as int));
        }
        if e < end {
            e + 1
        } else {
            end
        }
    }

    /// Write trivial random branches, one aligned line each.
    fn simple_branches(&mut self, atoms: &Vec<Atom>, b: usize, e: usize, longest: usize)
        requires
            b <= e <= atoms@.len(),
        ensures
            final(self)@ == spec_simple_branches(
                old(self)@,
                atoms_view(atoms),
                b as int,
                e as int,
                longest as int,
            ),
        decreases e - b, 2int,
    {
        if b >= e {
            return ;
        }
        let ghost ws = atoms_view(atoms);
        proof {
            assert(ws[b as int] == atoms@[b as int]@);
        }
        let mut line: Vec<u8> = Vec::new();
        crate::bytes::push_str(&mut line, "percent_chance ");
        match &atoms[b] {
            Atom::PercentChance(_, chance) => {
                crate::bytes::push_bytes(&mut line, chance.value.as_slice());
            },
            _ => {},
        }
        let ghost bare = str_bytes("percent_chance ") + branch_chance(ws[b as int]);
        proof {
            assert(line@ =~= bare);
        }
        let base_len = line.len();
        let pad = crate::bytes::sat_sub_usize(longest, base_len);
        let mut k: usize = 0;
        while k < pad
            invariant
                k <= pad,
                line@ == bare + spaces(k as int),
            decreases pad - k,
        {
            line.push(SPACE);
            proof {
                assert(line@ =~= bare + spaces(k + 1));
            }
            k = k + 1;
        }
        proof {
            assert(spaces(pad as int) == spaces(longest - bare.len()));
            assert(line@ =~= bare + spaces(longest - bare.len()));
        }
        let nb = next_branch_exec(atoms, b + 1, e, 0);
        self.text(line.as_slice());
        if nb > b + 1 {
            let ghost s1 = self@;
            self.result.push(SPACE);
            proof {
                assert(self@ =~~= (FmtV { result: s1.result.push(SPACE), ..s1 }));
            }
            let _ = self.write_atom(atoms, b + 1, b + 2);
        } else {
            self.newline();
        }
        self.simple_branches(atoms, nb, e, longest);
    }

    /// Write general random branches: each header on its own line, its
    /// body indented beneath it.
    fn general_branches(&mut self, atoms: &Vec<Atom>, b: usize, e: usize)
        requires
            b <= e <= atoms@.len(),
        ensures
            final(self)@ == spec_general_branches(
                old(self)@,
                atoms_view(atoms),
                b as int,
                e as int,
            ),
        decreases e - b, 2int,
    {
        if b >= e {
            return ;
        }
        let ghost ws = atoms_view(atoms);
        proof {
            assert(ws[b as int] == atoms@[b as int]@);
        }
        let nb = next_branch_exec(atoms, b + 1, e, 0);
        self.text_str("percent_chance ");
        match &atoms[b] {
            Atom::PercentChance(_, chance) => {
                self.text(chance.value.as_slice());
            },
            _ => {
                let empty: Vec<u8> = Vec::new();
                self.text(empty.as_slice());
            },
        }
        self.newline();
        self.indent = crate::bytes::sat_add_usize(self.indent, 2);
        self.write_range(atoms, b + 1, nb);
        self.indent = crate::bytes::sat_sub_usize(self.indent, 2);
        self.general_branches(atoms, nb, e);
    }

    /// Format a whole atom stream.
    pub fn format(self, atoms: &Vec<Atom>) -> (r: Vec<u8>)
        ensures
            r@ == spec_write_range(self@, atoms_view(atoms), 0, atoms@.len() as int).result,
    {
        let mut f = self;
        let end = atoms.len();
        f.write_range(atoms, 0, end);
        f.result
    }
}

/// The continuation index after a brace block.
pub open spec fn atom_next_for_close(atoms: Seq<AtomV>, i: int, end: int) -> int {
    let c = find_close_block(atoms, i + 1, end);
    if c < end {
        c + 1
    } else {
        end
    }
}

/// The continuation index after a conditional chain.
pub open spec fn atom_next_for_endif(atoms: Seq<AtomV>, i: int, end: int) -> int {
    let e = find_endif(atoms, i + 1, end, 1);
    if e < end {
        e + 1
    } else {
        end
    }
}

/// The continuation index after a randomized-branch block.
pub open spec fn atom_next_for_end_random(atoms: Seq<AtomV>, i: int, end: int) -> int {
    let e = find_end_random(atoms, i + 1, end, 1);
    if e < end {
        e + 1
    } else {
        end
    }
}

/// Format a whole source text: parse it and re-serialize the atoms.
pub fn format(source: &[u8]) -> (r: Vec<u8>)
    ensures
        r@ == spec_format_source(source@),
{
    let mut parser = crate::parser::Parser::new(0, source);
    let ghost items = crate::parser::spec_parse(source@, 0);
    let mut atoms: Vec<Atom> = Vec::new();
    let ghost mut k: int = 0;
    proof {
        assert(crate::parser::parse_from(parser.src(), parser.words(), 0) == items);
        assert(items.skip(0) =~= items);
    }
    loop
        invariant
            parser.wf(),
            parser.src() == source@,
            crate::parser::parse_from(parser.src(), parser.words(), 0) == items,
            0 <= k <= items.len(),
            crate::parser::parse_from(parser.src(), parser.words(), parser.pos()) == items.skip(k),
            atoms@.map_values(|a: Atom| a@) == items.take(k).map_values(
                |p: (AtomV, Seq<crate::parser::Warning>)| p.0,
            ),
        ensures
            atoms@.map_values(|a: Atom| a@) == items.map_values(
                |p: (AtomV, Seq<crate::parser::Warning>)| p.0,
            ),
        decreases items.len() - k,
    {
        let ghost pre_pos = parser.pos();
        let ghost src0 = parser.src();
        let ghost ws0 = parser.words();
        proof {
            parser.lemma_pos_bounds();
        }
        match parser.next() {
            Some((atom, _warnings)) => {
                proof {
                    assert(pre_pos < ws0.len());
                    let st = crate::parser::parse_step(src0, ws0, pre_pos);
                    assert(crate::parser::parse_from(src0, ws0, pre_pos) == seq![
                        (st.atom, st.warnings),
                    ] + crate::parser::parse_from(src0, ws0, st.next));
                    assert(items.skip(k)[0] == (st.atom, st.warnings));
                    assert(items[k] == (st.atom, st.warnings));
                    assert(items.skip(k).drop_first() =~= items.skip(k + 1));
                    assert(crate::parser::parse_from(parser.src(), parser.words(), parser.pos())
                        == items.skip(k + 1));
                }
                let ghost pre = atoms@.map_values(|a: Atom| a@);
                atoms.push(atom);
                proof {
                    assert(atoms@.map_values(|a: Atom| a@) =~= pre.push(items[k].0));
                    assert(items.take(k + 1).map_values(
                        |p: (AtomV, Seq<crate::parser::Warning>)| p.0,
                    ) =~= items.take(k).map_values(
                        |p: (AtomV, Seq<crate::parser::Warning>)| p.0,
                    ).push(items[k].0));
                    k = k + 1;
                }
            },
            None => {
                proof {
                    assert(items.skip(k) =~= Seq::<
                        (AtomV, Seq<crate::parser::Warning>),
                    >::empty());
                    assert(k == items.len());
                    assert(items.take(k) =~= items);
                }
                break ;
            },
        }
    }
    let f = Formatter::default();
    let r = f.format(&atoms);
    proof {
        assert(atoms@.map_values(|a: Atom| a@) == items.map_values(
            |p: (AtomV, Seq<crate::parser::Warning>)| p.0,
        ));
    }
    r
}

} // verus!
