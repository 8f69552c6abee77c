//! Why the run loop ends. Read the call stack and the program counter as a
//! sequence of frames, oldest first: a saved counter `r` as the digit `2r`
//! (its call is in progress) and the live counter `p` as `2p + 1`. Every
//! cycle that does not stop the machine makes that sequence larger in
//! lexicographic order: an addition moves the live frame forward, a call
//! turns it into a saved one that is further on, and a return resumes the
//! newest saved frame just past its call. Being bounded, the sequence
//! cannot grow forever.
use vstd::prelude::*;

use crate::cpu::{step_spec, CpuView, STACK_CAPACITY};

verus! {

/// One more than the largest frame digit.
pub open spec fn digit_base() -> int {
    0x20000
}

/// The digit of frame `i` of `s`; zero past the live frame.
pub open spec fn frame_digit(s: CpuView, i: int) -> int {
    if i < s.stack.len() {
        2 * s.stack[i]
    } else if i == s.stack.len() {
        2 * s.pc + 1
    } else {
        0
    }
}

/// The frame digits of `s`, one for each stack slot and one for the live
/// frame.
pub open spec fn frame_digits(s: CpuView) -> Seq<int> {
    Seq::new((STACK_CAPACITY + 1) as nat, |i: int| frame_digit(s, i))
}

/// The number that `ds` spells in base `digit_base()`, first digit most
/// significant.
pub open spec fn lex_value(ds: Seq<int>) -> int
    decreases ds.len(),
{
    if ds.len() == 0 {
        0
    } else {
        lex_value(ds.drop_last()) * digit_base() + ds.last()
    }
}

/// `digit_base()` to the power `n`.
pub open spec fn lex_limit(n: nat) -> int
    decreases n,
{
    if n == 0 {
        1
    } else {
        lex_limit((n - 1) as nat) * digit_base()
    }
}

/// How far the machine has come: grows with every cycle that does not stop it.
pub open spec fn progress(s: CpuView) -> int {
    lex_value(frame_digits(s))
}

/// A bound above every value of `progress`.
pub open spec fn progress_limit() -> int {
    lex_limit((STACK_CAPACITY + 1) as nat)
}

/// Every digit of `ds` is one that `digit_base()` can spell.
pub open spec fn digits_in_range(ds: Seq<int>) -> bool {
    forall|i: int| 0 <= i < ds.len() ==> 0 <= #[trigger] ds[i] < digit_base()
}

proof fn lemma_lex_bounds(ds: Seq<int>)
    requires
        digits_in_range(ds),
    ensures
        0 <= lex_value(ds) < lex_limit(ds.len()),
    decreases ds.len(),
{
    if ds.len() > 0 {
        let front = ds.drop_last();
        lemma_lex_bounds(front);
        let v = lex_value(front);
        let l = lex_limit(front.len());
        let d = ds.last();
        assert(0 <= v * digit_base() + d < l * digit_base()) by (nonlinear_arith)
            requires
                0 <= v < l,
                0 <= d < digit_base(),
                digit_base() == 0x20000,
        ;
    }
}

/// Two digit sequences of one length that agree before position `k` and
/// differ there compare as their digits at `k` do.
proof fn lemma_lex_order(a: Seq<int>, b: Seq<int>, k: int)
    requires
        a.len() == b.len(),
        digits_in_range(a),
        digits_in_range(b),
        0 <= k < a.len(),
        forall|i: int| 0 <= i < k ==> a[i] == b[i],
        a[k] < b[k],
    ensures
        lex_value(a) < lex_value(b),
    decreases a.len(),
{
    let n = a.len() - 1;
    let fa = a.drop_last();
    let fb = b.drop_last();
    if k == n {
        assert(fa =~= fb);
    } else {
        lemma_lex_order(fa, fb, k);
        let va = lex_value(fa);
        let vb = lex_value(fb);
        let da = a.last();
        let db = b.last();
        assert(va * digit_base() + da < vb * digit_base() + db) by (nonlinear_arith)
            requires
                va < vb,
                0 <= da < digit_base(),
                0 <= db,
                digit_base() == 0x20000,
        ;
    }
}

/// Every cycle that leaves the machine running keeps its bounds and makes
/// progress, which stays below `progress_limit()`: so the run loop ends.
pub proof fn lemma_step_makes_progress(s: CpuView)
    requires
        s.wf(),
        step_spec(s).1 is None,
    ensures
        step_spec(s).0.wf(),
        0 <= progress(s) < progress(step_spec(s).0) < progress_limit(),
{
    let t = step_spec(s).0;
    let a = frame_digits(s);
    let b = frame_digits(t);
    let n = s.stack.len() as int;
    assert(t.wf());
    assert(digits_in_range(a));
    assert(digits_in_range(b));
    if t.stack.len() < s.stack.len() {
        lemma_lex_order(a, b, n - 1);
    } else {
        lemma_lex_order(a, b, n);
    }
    lemma_lex_bounds(a);
    lemma_lex_bounds(b);
}

} // verus!
