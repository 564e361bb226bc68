//! Laws of the nesting-balance machine.
//!
//! A recognizer for well-formed nesting sequences is defined here,
//! together with proofs that the checker's stack machine accepts them:
//! a balanced sequence produces no unbalanced-nesting diagnostic and
//! leaves the stack as it found it; and removing the final closer from
//! a balanced sequence leaves exactly one construct open, of the kind
//! the removed closer would have closed, which end-of-input reporting
//! surfaces as exactly one diagnostic.

use vstd::prelude::*;
use crate::checker::nest_update;
use crate::checker::run_steps;
use crate::checker::spec_checker_step;
use crate::checker::spec_state_update;
use crate::checker::spec_unclosed;
use crate::checker::NestStepV;
use crate::checker::NestingV;
use crate::checker::StateV;
use crate::parser::AtomV;

verus! {

/// The result of running the nesting machine over a range of atoms.
#[verifier::ext_equal]
pub ghost struct NestRunV {
    pub stack: Seq<NestingV>,
    pub errs: int,
}

/// Run the nesting machine over the atoms of `[i, j)` from a given
/// stack, counting the unbalanced-nesting diagnostics raised.
pub open spec fn run_nest(stack: Seq<NestingV>, atoms: Seq<AtomV>, i: int, j: int) -> NestRunV
    decreases j - i,
{
    if i < 0 || i >= j {
        NestRunV { stack, errs: 0 }
    } else {
        let st = nest_update(stack, atoms[i]);
        let rest = run_nest(st.stack, atoms, i + 1, j);
        NestRunV {
            stack: rest.stack,
            errs: (if st.warning is Some {
                1int
            } else {
                0int
            }) + rest.errs,
        }
    }
}

/// Atoms with no effect on the nesting stack.
pub open spec fn is_plain(a: AtomV) -> bool {
    !(a is OpenBlock || a is CloseBlock || a is If || a is ElseIf || a is Else || a is EndIf
        || a is StartRandom || a is PercentChance || a is EndRandom)
}

/// Recursive-descent recognizer for one well-formed construct starting
/// at `i` within `[i, j)`: a plain atom, a brace block, a conditional
/// chain, or a randomized-branch block. Returns the position after the
/// construct, or a negative value when none starts here.
pub open spec fn chk_construct(atoms: Seq<AtomV>, i: int, j: int) -> int
    decreases j - i, 2int,
{
    if i < 0 || i >= j || j > atoms.len() {
        -1
    } else if is_plain(atoms[i]) {
        i + 1
    } else if atoms[i] is OpenBlock {
        let m = chk_seq(atoms, i + 1, j);
        if i + 1 <= m < j && atoms[m] is CloseBlock {
            m + 1
        } else {
            -1
        }
    } else if atoms[i] is If {
        let m = chk_seq(atoms, i + 1, j);
        if i + 1 <= m <= j {
            chk_if_tail(atoms, m, j)
        } else {
            -1
        }
    } else if atoms[i] is StartRandom {
        let m = chk_seq(atoms, i + 1, j);
        if i + 1 <= m <= j {
            chk_rand_tail(atoms, m, j)
        } else {
            -1
        }
    } else {
        -1
    }
}

/// Recognizer for the continuation of a conditional chain from one
/// branch boundary: `endif`, or an `elseif`/`else` branch and the rest.
pub open spec fn chk_if_tail(atoms: Seq<AtomV>, m: int, j: int) -> int
    decreases j - m, 1int,
{
    if m < 0 || m >= j || j > atoms.len() {
        -1
    } else if atoms[m] is EndIf {
        m + 1
    } else if atoms[m] is ElseIf {
        let p = chk_seq(atoms, m + 1, j);
        if m + 1 <= p <= j {
            chk_if_tail(atoms, p, j)
        } else {
            -1
        }
    } else if atoms[m] is Else {
        let p = chk_seq(atoms, m + 1, j);
        if m + 1 <= p < j && atoms[p] is EndIf {
            p + 1
        } else {
            -1
        }
    } else {
        -1
    }
}

/// Recognizer for the continuation of a randomized-branch block from
/// one branch boundary: `end_random`, or a `percent_chance` branch and
/// the rest.
pub open spec fn chk_rand_tail(atoms: Seq<AtomV>, m: int, j: int) -> int
    decreases j - m, 1int,
{
    if m < 0 || m >= j || j > atoms.len() {
        -1
    } else if atoms[m] is EndRandom {
        m + 1
    } else if atoms[m] is PercentChance {
        let p = chk_seq(atoms, m + 1, j);
        if m + 1 <= p <= j {
            chk_rand_tail(atoms, p, j)
        } else {
            -1
        }
    } else {
        -1
    }
}

/// Recognizer for a maximal sequence of complete constructs from `i`:
/// consumes constructs until none starts, and returns the position
/// reached.
pub open spec fn chk_seq(atoms: Seq<AtomV>, i: int, j: int) -> int
    decreases j - i, 3int,
{
    if i < 0 || i >= j || j > atoms.len() {
        i
    } else {
        let k = chk_construct(atoms, i, j);
        if i < k <= j {
            chk_seq(atoms, k, j)
        } else {
            i
        }
    }
}

/// A whole atom stream is balanced when it is one complete sequence of
/// well-formed constructs.
pub open spec fn balanced(atoms: Seq<AtomV>) -> bool {
    chk_seq(atoms, 0, atoms.len() as int) == atoms.len()
}

/// The sequence recognizer never moves backwards and never passes `j`.
pub proof fn lemma_chk_bounds(atoms: Seq<AtomV>, i: int, j: int)
    ensures
        i <= chk_seq(atoms, i, j),
        i <= j ==> chk_seq(atoms, i, j) <= j,
    decreases j - i, 6int,
{
    if 0 <= i < j <= atoms.len() {
        let k = chk_construct(atoms, i, j);
        if i < k <= j {
            lemma_chk_bounds(atoms, k, j);
        }
    }
}

/// Running over `[i, j)` equals running over `[i, m)` and then `[m, j)`.
proof fn lemma_run_split(stack: Seq<NestingV>, atoms: Seq<AtomV>, i: int, m: int, j: int)
    requires
        0 <= i <= m <= j,
    ensures
        run_nest(stack, atoms, i, j) == (NestRunV {
            stack: run_nest(run_nest(stack, atoms, i, m).stack, atoms, m, j).stack,
            errs: run_nest(stack, atoms, i, m).errs + run_nest(
                run_nest(stack, atoms, i, m).stack,
                atoms,
                m,
                j,
            ).errs,
        }),
    decreases m - i,
{
    if i < m {
        let st = nest_update(stack, atoms[i]);
        lemma_run_split(st.stack, atoms, i + 1, m, j);
        assert(run_nest(stack, atoms, i, j) =~~= (NestRunV {
            stack: run_nest(run_nest(stack, atoms, i, m).stack, atoms, m, j).stack,
            errs: run_nest(stack, atoms, i, m).errs + run_nest(
                run_nest(stack, atoms, i, m).stack,
                atoms,
                m,
                j,
            ).errs,
        }));
    } else {
        assert(run_nest(stack, atoms, i, j) =~~= (NestRunV {
            stack: run_nest(run_nest(stack, atoms, i, m).stack, atoms, m, j).stack,
            errs: run_nest(stack, atoms, i, m).errs + run_nest(
                run_nest(stack, atoms, i, m).stack,
                atoms,
                m,
                j,
            ).errs,
        }));
    }
}

/// Running the machine over a recognized sequence of constructs, from
/// any stack, returns that stack unchanged and raises no diagnostic.
pub proof fn lemma_seq_run(atoms: Seq<AtomV>, i: int, j: int, stack: Seq<NestingV>)
    requires
        0 <= i <= j <= atoms.len(),
    ensures
        run_nest(stack, atoms, i, chk_seq(atoms, i, j)) == (NestRunV { stack, errs: 0 }),
    decreases j - i, 3int,
{
    reveal_with_fuel(run_nest, 4);
    lemma_chk_bounds(atoms, i, j);
    if i < j {
        let k = chk_construct(atoms, i, j);
        if i < k <= j {
            lemma_chk_bounds(atoms, k, j);
            lemma_construct_run(atoms, i, j, stack);
            lemma_seq_run(atoms, k, j, stack);
            lemma_run_split(stack, atoms, i, k, chk_seq(atoms, k, j));
            assert(run_nest(stack, atoms, i, chk_seq(atoms, i, j)) =~~= (NestRunV {
                stack,
                errs: 0,
            }));
        } else {
            assert(run_nest(stack, atoms, i, i) =~~= (NestRunV { stack, errs: 0 }));
        }
    } else {
        assert(run_nest(stack, atoms, i, chk_seq(atoms, i, j)) =~~= (NestRunV {
            stack,
            errs: 0,
        }));
    }
}

/// Running the machine over one recognized construct, from any stack,
/// returns that stack unchanged and raises no diagnostic.
pub proof fn lemma_construct_run(atoms: Seq<AtomV>, i: int, j: int, stack: Seq<NestingV>)
    requires
        0 <= i < j <= atoms.len(),
        i < chk_construct(atoms, i, j) <= j,
    ensures
        run_nest(stack, atoms, i, chk_construct(atoms, i, j)) == (NestRunV { stack, errs: 0 }),
    decreases j - i, 2int,
{
    reveal_with_fuel(run_nest, 4);
    let k = chk_construct(atoms, i, j);
    lemma_chk_bounds(atoms, i + 1, j);
    if is_plain(atoms[i]) {
        assert(nest_update(stack, atoms[i]) =~~= (NestStepV { stack, warning: None }));
        assert(run_nest(stack, atoms, i, k) =~~= (NestRunV { stack, errs: 0 }));
    } else if atoms[i] is OpenBlock {
        let m = chk_seq(atoms, i + 1, j);
        let s1 = stack.push(NestingV::Brace(atoms[i]));
        assert(nest_update(stack, atoms[i]) =~~= (NestStepV { stack: s1, warning: None }));
        lemma_seq_run(atoms, i + 1, j, s1);
        assert(s1.last() is Brace);
        assert(s1.drop_last() =~= stack);
        assert(nest_update(s1, atoms[m]) =~~= (NestStepV { stack, warning: None }));
        lemma_run_split(s1, atoms, i + 1, m, k);
        assert(run_nest(s1, atoms, m, k) =~~= (NestRunV { stack, errs: 0 }));
        assert(run_nest(stack, atoms, i, k) =~~= (NestRunV { stack, errs: 0 }));
    } else if atoms[i] is If {
        let m = chk_seq(atoms, i + 1, j);
        let f = NestingV::If(atoms[i]);
        let s1 = stack.push(f);
        assert(nest_update(stack, atoms[i]) =~~= (NestStepV { stack: s1, warning: None }));
        lemma_seq_run(atoms, i + 1, j, s1);
        lemma_if_tail_run(atoms, m, j, stack, f);
        lemma_run_split(s1, atoms, i + 1, m, k);
        assert(run_nest(stack, atoms, i, k) =~~= (NestRunV { stack, errs: 0 }));
    } else {
        let m = chk_seq(atoms, i + 1, j);
        let f = NestingV::StartRandom(atoms[i]);
        let s1 = stack.push(f);
        assert(nest_update(stack, atoms[i]) =~~= (NestStepV { stack: s1, warning: None }));
        lemma_seq_run(atoms, i + 1, j, s1);
        lemma_rand_tail_run(atoms, m, j, stack, f, None);
        lemma_run_split(s1, atoms, i + 1, m, k);
        assert(run_nest(stack, atoms, i, k) =~~= (NestRunV { stack, errs: 0 }));
    }
}

/// A recognized conditional-chain continuation, run from the chain's
/// own frame on top of any stack, closes that frame cleanly.
pub proof fn lemma_if_tail_run(
    atoms: Seq<AtomV>,
    m: int,
    j: int,
    stack: Seq<NestingV>,
    f: NestingV,
)
    requires
        0 <= m <= j <= atoms.len(),
        0 <= chk_if_tail(atoms, m, j),
        f is If || f is ElseIf,
    ensures
        run_nest(stack.push(f), atoms, m, chk_if_tail(atoms, m, j)) == (NestRunV {
            stack,
            errs: 0,
        }),
    decreases j - m, 1int,
{
    reveal_with_fuel(run_nest, 4);
    let k = chk_if_tail(atoms, m, j);
    let s1 = stack.push(f);
    assert(s1.last() == f);
    assert(s1.drop_last() =~= stack);
    lemma_chk_bounds(atoms, m + 1, j);
    if atoms[m] is EndIf {
        assert(nest_update(s1, atoms[m]) =~~= (NestStepV { stack, warning: None }));
        assert(run_nest(s1, atoms, m, k) =~~= (NestRunV { stack, errs: 0 }));
    } else if atoms[m] is ElseIf {
        let p = chk_seq(atoms, m + 1, j);
        let f2 = NestingV::ElseIf(atoms[m]);
        let s2 = stack.push(f2);
        assert(nest_update(s1, atoms[m]) =~~= (NestStepV { stack: s2, warning: None }));
        lemma_seq_run(atoms, m + 1, j, s2);
        lemma_if_tail_run(atoms, p, j, stack, f2);
        lemma_run_split(s2, atoms, m + 1, p, k);
        assert(run_nest(s1, atoms, m, k) =~~= (NestRunV { stack, errs: 0 }));
    } else {
        let p = chk_seq(atoms, m + 1, j);
        let f2 = NestingV::Else(atoms[m]);
        let s2 = stack.push(f2);
        assert(nest_update(s1, atoms[m]) =~~= (NestStepV { stack: s2, warning: None }));
        lemma_seq_run(atoms, m + 1, j, s2);
        assert(s2.last() == f2);
        assert(s2.drop_last() =~= stack);
        assert(nest_update(s2, atoms[p]) =~~= (NestStepV { stack, warning: None }));
        lemma_run_split(s2, atoms, m + 1, p, k);
        assert(run_nest(s2, atoms, p, k) =~~= (NestRunV { stack, errs: 0 }));
        assert(run_nest(s1, atoms, m, k) =~~= (NestRunV { stack, errs: 0 }));
    }
}

/// A recognized randomized-branch continuation, run from its
/// `start_random` frame (and possibly a trailing branch frame) on top
/// of any stack, closes them cleanly.
pub proof fn lemma_rand_tail_run(
    atoms: Seq<AtomV>,
    m: int,
    j: int,
    stack: Seq<NestingV>,
    sr: NestingV,
    pc: Option<NestingV>,
)
    requires
        0 <= m <= j <= atoms.len(),
        0 <= chk_rand_tail(atoms, m, j),
        sr is StartRandom,
        pc matches Some(p) ==> p is PercentChance,
    ensures
        run_nest(
            match pc {
                Some(p) => stack.push(sr).push(p),
                None => stack.push(sr),
            },
            atoms,
            m,
            chk_rand_tail(atoms, m, j),
        ) == (NestRunV { stack, errs: 0 }),
    decreases j - m, 1int,
{
    reveal_with_fuel(run_nest, 4);
    let k = chk_rand_tail(atoms, m, j);
    let s0 = match pc {
        Some(p) => stack.push(sr).push(p),
        None => stack.push(sr),
    };
    match pc {
        Some(p) => {
            assert(s0.last() == p);
            assert(s0.drop_last() =~= stack.push(sr));
        },
        None => {
            assert(s0.last() == sr);
        },
    }
    let s_sr = stack.push(sr);
    assert(s_sr.last() == sr);
    assert(s_sr.drop_last() =~= stack);
    lemma_chk_bounds(atoms, m + 1, j);
    if atoms[m] is EndRandom {
        assert(nest_update(s0, atoms[m]) =~~= (NestStepV { stack, warning: None }));
        assert(run_nest(s0, atoms, m, k) =~~= (NestRunV { stack, errs: 0 }));
    } else {
        let p = chk_seq(atoms, m + 1, j);
        let f2 = NestingV::PercentChance(atoms[m]);
        let s2 = stack.push(sr).push(f2);
        assert(nest_update(s0, atoms[m]) =~~= (NestStepV { stack: s2, warning: None }));
        lemma_seq_run(atoms, m + 1, j, s2);
        lemma_rand_tail_run(atoms, p, j, stack, sr, Some(f2));
        lemma_run_split(s2, atoms, m + 1, p, k);
        assert(run_nest(s0, atoms, m, k) =~~= (NestRunV { stack, errs: 0 }));
    }
}

/// Balance symmetry, first half: a balanced atom stream produces no
/// unbalanced-nesting diagnostic, and nothing is left open at end of
/// input, so the whole check raises no nesting diagnostic at all.
pub proof fn lemma_balanced_no_diagnostics(atoms: Seq<AtomV>)
    requires
        balanced(atoms),
    ensures
        run_nest(Seq::empty(), atoms, 0, atoms.len() as int) == (NestRunV {
            stack: Seq::empty(),
            errs: 0,
        }),
        spec_unclosed(run_nest(Seq::empty(), atoms, 0, atoms.len() as int).stack, 0) == Seq::<
            crate::diagnostics::WarningV,
        >::empty(),
{
    lemma_seq_run(atoms, 0, atoms.len() as int, Seq::empty());
    assert(spec_unclosed(Seq::<NestingV>::empty(), 0) =~= Seq::<
        crate::diagnostics::WarningV,
    >::empty());
}


/// Start of the last construct of a recognized sequence.
pub open spec fn last_construct_start(atoms: Seq<AtomV>, i: int, j: int) -> int
    decreases j - i, 7int,
{
    if i < 0 || i >= j || j > atoms.len() {
        -1
    } else {
        let k = chk_construct(atoms, i, j);
        if i < k <= j {
            if k == j {
                i
            } else {
                last_construct_start(atoms, k, j)
            }
        } else {
            -1
        }
    }
}

/// A recognized sequence splits into a clean prefix and a final
/// construct that ends exactly at `j`.
proof fn lemma_run_to_last(atoms: Seq<AtomV>, i: int, j: int, stack: Seq<NestingV>)
    requires
        0 <= i < j <= atoms.len(),
        chk_seq(atoms, i, j) == j,
    ensures
        ({
            let m = last_construct_start(atoms, i, j);
            &&& i <= m < j
            &&& chk_construct(atoms, m, j) == j
            &&& run_nest(stack, atoms, i, m) == (NestRunV { stack, errs: 0 })
        }),
    decreases j - i,
{
    reveal_with_fuel(run_nest, 3);
    let k = chk_construct(atoms, i, j);
    let m = last_construct_start(atoms, i, j);
    if k == j {
        assert(m == i);
        assert(run_nest(stack, atoms, i, i) =~~= (NestRunV { stack, errs: 0 }));
    } else {
        assert(i < k < j);
        lemma_run_to_last(atoms, k, j, stack);
        lemma_construct_run(atoms, i, j, stack);
        lemma_run_split(stack, atoms, i, k, m);
        assert(run_nest(stack, atoms, i, m) =~~= (NestRunV { stack, errs: 0 }));
    }
}

/// Running a conditional-chain continuation up to, but not including,
/// its final `endif` leaves exactly the chain's current branch frame on
/// the stack.
proof fn lemma_if_tail_prefix(
    atoms: Seq<AtomV>,
    m: int,
    j: int,
    stack: Seq<NestingV>,
    f: NestingV,
)
    requires
        0 <= m < j <= atoms.len(),
        chk_if_tail(atoms, m, j) == j,
        f is If || f is ElseIf,
    ensures
        atoms[j - 1] is EndIf,
        ({
            let r = run_nest(stack.push(f), atoms, m, j - 1);
            &&& r.errs == 0
            &&& r.stack.len() == stack.len() + 1
            &&& r.stack.take(stack.len() as int) == stack
            &&& (r.stack.last() is If || r.stack.last() is ElseIf || r.stack.last() is Else)
        }),
    decreases j - m,
{
    reveal_with_fuel(run_nest, 4);
    let s1 = stack.push(f);
    assert(s1.last() == f);
    assert(s1.drop_last() =~= stack);
    lemma_chk_bounds(atoms, m + 1, j);
    if atoms[m] is EndIf {
        assert(j == m + 1);
        assert(run_nest(s1, atoms, m, m) =~~= (NestRunV { stack: s1, errs: 0 }));
        assert(s1.take(stack.len() as int) =~= stack);
    } else if atoms[m] is ElseIf {
        reveal_with_fuel(chk_if_tail, 3);
        let p = chk_seq(atoms, m + 1, j);
        assert(p < j) by {
            if p == j {
                assert(chk_if_tail(atoms, p, j) == -1);
            }
        }
        let f2 = NestingV::ElseIf(atoms[m]);
        let s2 = stack.push(f2);
        assert(nest_update(s1, atoms[m]) =~~= (NestStepV { stack: s2, warning: None }));
        lemma_seq_run(atoms, m + 1, j, s2);
        lemma_if_tail_prefix(atoms, p, j, stack, f2);
        lemma_run_split(s2, atoms, m + 1, p, j - 1);
        assert(run_nest(s1, atoms, m, j - 1) =~~= run_nest(s2, atoms, p, j - 1));
    } else {
        let p = chk_seq(atoms, m + 1, j);
        assert(atoms[m] is Else);
        assert(m + 1 <= p < j && atoms[p] is EndIf && j == p + 1);
        let f2 = NestingV::Else(atoms[m]);
        let s2 = stack.push(f2);
        assert(nest_update(s1, atoms[m]) =~~= (NestStepV { stack: s2, warning: None }));
        lemma_seq_run(atoms, m + 1, j, s2);
        lemma_run_split(s2, atoms, m + 1, p, j - 1);
        assert(run_nest(s1, atoms, m, j - 1) =~~= (NestRunV { stack: s2, errs: 0 }));
        assert(s2.take(stack.len() as int) =~= stack);
    }
}

/// Running a randomized-branch continuation up to, but not including,
/// its final `end_random` leaves the `start_random` frame (and possibly
/// one branch frame) on the stack.
proof fn lemma_rand_tail_prefix(
    atoms: Seq<AtomV>,
    m: int,
    j: int,
    stack: Seq<NestingV>,
    sr: NestingV,
    pc: Option<NestingV>,
)
    requires
        0 <= m < j <= atoms.len(),
        chk_rand_tail(atoms, m, j) == j,
        sr is StartRandom,
        pc matches Some(p) ==> p is PercentChance,
    ensures
        atoms[j - 1] is EndRandom,
        ({
            let s0 = match pc {
                Some(p) => stack.push(sr).push(p),
                None => stack.push(sr),
            };
            let r = run_nest(s0, atoms, m, j - 1);
            &&& r.errs == 0
            &&& stack.len() < r.stack.len() <= stack.len() + 2
            &&& r.stack.take(stack.len() as int) == stack
            &&& r.stack[stack.len() as int] is StartRandom
            &&& (r.stack.len() == stack.len() + 2 ==> r.stack.last() is PercentChance)
        }),
    decreases j - m,
{
    reveal_with_fuel(run_nest, 4);
    let s0 = match pc {
        Some(p) => stack.push(sr).push(p),
        None => stack.push(sr),
    };
    match pc {
        Some(p) => {
            assert(s0.last() == p);
            assert(s0.drop_last() =~= stack.push(sr));
            assert(s0.take(stack.len() as int) =~= stack);
            assert(s0[stack.len() as int] == sr);
        },
        None => {
            assert(s0.last() == sr);
            assert(s0.take(stack.len() as int) =~= stack);
            assert(s0[stack.len() as int] == sr);
        },
    }
    lemma_chk_bounds(atoms, m + 1, j);
    if atoms[m] is EndRandom {
        assert(j == m + 1);
        assert(run_nest(s0, atoms, m, m) =~~= (NestRunV { stack: s0, errs: 0 }));
    } else {
        assert(atoms[m] is PercentChance);
        reveal_with_fuel(chk_rand_tail, 3);
        let p = chk_seq(atoms, m + 1, j);
        assert(p < j) by {
            if p == j {
                assert(chk_rand_tail(atoms, p, j) == -1);
            }
        }
        let f2 = NestingV::PercentChance(atoms[m]);
        let s2 = stack.push(sr).push(f2);
        assert(nest_update(s0, atoms[m]) =~~= (NestStepV { stack: s2, warning: None }));
        lemma_seq_run(atoms, m + 1, j, s2);
        lemma_rand_tail_prefix(atoms, p, j, stack, sr, Some(f2));
        lemma_run_split(s2, atoms, m + 1, p, j - 1);
        assert(run_nest(s0, atoms, m, j - 1) =~~= run_nest(s2, atoms, p, j - 1));
    }
}

/// Running one construct up to, but not including, its final closer
/// leaves exactly the construct's open frames on the stack, without any
/// diagnostic.
proof fn lemma_construct_prefix(atoms: Seq<AtomV>, m: int, j: int, stack: Seq<NestingV>)
    requires
        0 <= m < j <= atoms.len(),
        chk_construct(atoms, m, j) == j,
        atoms[j - 1] is CloseBlock || atoms[j - 1] is EndIf || atoms[j - 1] is EndRandom,
    ensures
        ({
            let r = run_nest(stack, atoms, m, j - 1);
            &&& r.errs == 0
            &&& stack.len() < r.stack.len() <= stack.len() + 2
            &&& r.stack.take(stack.len() as int) == stack
            &&& (atoms[j - 1] is CloseBlock ==> r.stack.len() == stack.len() + 1
                && r.stack.last() is Brace)
            &&& (atoms[j - 1] is EndIf ==> r.stack.len() == stack.len() + 1 && (
            r.stack.last() is If || r.stack.last() is ElseIf || r.stack.last() is Else))
            &&& (atoms[j - 1] is EndRandom ==> r.stack[stack.len() as int] is StartRandom && (
            r.stack.len() == stack.len() + 2 ==> r.stack.last() is PercentChance))
        }),
{
    reveal_with_fuel(run_nest, 4);
    lemma_chk_bounds(atoms, m + 1, j);
    if is_plain(atoms[m]) {
        assert(j == m + 1);
        assert(false);
    } else if atoms[m] is OpenBlock {
        let mm = chk_seq(atoms, m + 1, j);
        assert(mm == j - 1 && atoms[mm] is CloseBlock);
        let s1 = stack.push(NestingV::Brace(atoms[m]));
        assert(nest_update(stack, atoms[m]) =~~= (NestStepV { stack: s1, warning: None }));
        lemma_seq_run(atoms, m + 1, j, s1);
        lemma_run_split(s1, atoms, m + 1, mm, j - 1);
        assert(run_nest(stack, atoms, m, j - 1) =~~= (NestRunV { stack: s1, errs: 0 }));
        assert(s1.take(stack.len() as int) =~= stack);
    } else if atoms[m] is If {
        let mm = chk_seq(atoms, m + 1, j);
        let f = NestingV::If(atoms[m]);
        let s1 = stack.push(f);
        assert(nest_update(stack, atoms[m]) =~~= (NestStepV { stack: s1, warning: None }));
        lemma_seq_run(atoms, m + 1, j, s1);
        lemma_if_tail_prefix(atoms, mm, j, stack, f);
        lemma_run_split(s1, atoms, m + 1, mm, j - 1);
        assert(run_nest(stack, atoms, m, j - 1) =~~= run_nest(s1, atoms, mm, j - 1));
    } else {
        assert(atoms[m] is StartRandom);
        let mm = chk_seq(atoms, m + 1, j);
        let f = NestingV::StartRandom(atoms[m]);
        let s1 = stack.push(f);
        assert(nest_update(stack, atoms[m]) =~~= (NestStepV { stack: s1, warning: None }));
        lemma_seq_run(atoms, m + 1, j, s1);
        lemma_rand_tail_prefix(atoms, mm, j, stack, f, None);
        lemma_run_split(s1, atoms, m + 1, mm, j - 1);
        assert(run_nest(stack, atoms, m, j - 1) =~~= run_nest(s1, atoms, mm, j - 1));
    }
}

/// Balance symmetry, second half: removing the final closer from a
/// balanced atom stream produces no diagnostic during the run, and
/// leaves exactly one construct open at end of input — of the very kind
/// the removed closer would have closed — so end-of-input reporting
/// raises exactly one diagnostic for it.
pub proof fn lemma_removed_closer_one_unclosed(atoms: Seq<AtomV>)
    requires
        balanced(atoms),
        atoms.len() > 0,
        atoms.last() is CloseBlock || atoms.last() is EndIf || atoms.last() is EndRandom,
    ensures
        ({
            let r = run_nest(Seq::empty(), atoms, 0, atoms.len() - 1);
            &&& r.errs == 0
            &&& spec_unclosed(r.stack, 0).len() == 1
            &&& (atoms.last() is CloseBlock ==> r.stack[0] is Brace)
            &&& (atoms.last() is EndIf ==> (r.stack[0] is If || r.stack[0] is ElseIf
                || r.stack[0] is Else))
            &&& (atoms.last() is EndRandom ==> r.stack[0] is StartRandom)
        }),
{
    let j = atoms.len() as int;
    let empty = Seq::<NestingV>::empty();
    lemma_run_to_last(atoms, 0, j, empty);
    let m = last_construct_start(atoms, 0, j);
    lemma_construct_prefix(atoms, m, j, empty);
    lemma_run_split(empty, atoms, 0, m, j - 1);
    let r = run_nest(empty, atoms, 0, j - 1);
    let rc = run_nest(empty, atoms, m, j - 1);
    assert(r.stack == rc.stack && r.errs == rc.errs);
    reveal_with_fuel(spec_unclosed, 4);
    assert(spec_unclosed(rc.stack, 0).len() == 1);
}


/// The header and symbol-table update never touches the nesting stack.
proof fn lemma_update_keeps_nesting(sv: StateV, a: AtomV)
    ensures
        spec_state_update(sv, a).nesting == sv.nesting,
{
}

/// The checker's state fold drives the nesting stack exactly as the
/// nesting machine does: what the balance laws above say of the machine
/// holds of a whole checking session.
pub proof fn lemma_checker_follows_machine(sv: StateV, atoms: Seq<AtomV>, k: int)
    requires
        0 <= k <= atoms.len(),
    ensures
        run_steps(sv, atoms, k).nesting == run_nest(
            sv.nesting,
            atoms,
            k,
            atoms.len() as int,
        ).stack,
    decreases atoms.len() - k,
{
    if k < atoms.len() {
        lemma_update_keeps_nesting(sv, atoms[k]);
        let sv2 = spec_checker_step(sv, atoms[k]);
        assert(sv2.nesting == nest_update(sv.nesting, atoms[k]).stack);
        lemma_checker_follows_machine(sv2, atoms, k + 1);
    }
}

} // verus!
