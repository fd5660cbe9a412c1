//! Polynomial evaluators built from a coefficient sequence.
//!
//! A coefficient sequence `c` of length `n` denotes the polynomial
//! `c[0] + c[1]*x + ... + c[n-1]*x^(n-1)`. [`polynomial`] builds an
//! evaluator that borrows the sequence from the caller, so the evaluator is
//! usable only while the sequence lives; [`polynomial_shared`] builds one
//! that holds a shared, reference-counted handle on the sequence, so the
//! evaluator keeps it alive on its own. Both compute the exact value of the
//! polynomial at a point, or report that the computation would leave the
//! `i64` range.

use std::rc::Rc;
use vstd::arithmetic::power::{lemma_pow0, pow};
use vstd::prelude::*;

verus! {

/// Value of the polynomial with coefficient sequence `c` at the point `x`:
/// the sum of `c[i] * x^i` over all indices `i` of `c`, and `0` when `c` is
/// empty.
pub open spec fn poly_eval(c: Seq<i64>, x: int) -> int
    decreases c.len(),
{
    if c.len() == 0 {
        0
    } else {
        poly_eval(c.drop_last(), x) + c.last() * pow(x, (c.len() - 1) as nat)
    }
}

/// Whether the mathematical value `v` fits in an `i64`.
pub open spec fn fits_i64(v: int) -> bool {
    i64::MIN <= v <= i64::MAX
}

/// Whether the left-to-right power-sum accumulation of the polynomial with
/// coefficient sequence `c` at the point `x` stays within the `i64` range
/// throughout: every power of `x` that is formed, every term, and every
/// partial sum.
pub open spec fn eval_fits(c: Seq<i64>, x: int) -> bool {
    &&& forall|i: nat| i < c.len() ==> fits_i64(#[trigger] pow(x, i))
    &&& forall|i: nat| i < c.len() ==> fits_i64(c[i as int] * #[trigger] pow(x, i))
    &&& forall|k: int| 0 <= k <= c.len() ==> fits_i64(poly_eval(#[trigger] c.subrange(0, k), x))
}

/// The result evaluation owes: the exact value of the polynomial when the
/// accumulation stays in the `i64` range, and nothing otherwise.
pub open spec fn eval_result(c: Seq<i64>, x: int) -> Option<int> {
    if eval_fits(c, x) {
        Some(poly_eval(c, x))
    } else {
        None
    }
}

/// The machine result `r` read as a mathematical one.
pub open spec fn as_int_result(r: Option<i64>) -> Option<int> {
    match r {
        Some(v) => Some(v as int),
        None => None,
    }
}

/// Extending a prefix of `c` by one coefficient adds one term to the sum.
proof fn lemma_prefix_extend(c: Seq<i64>, x: int, i: int)
    requires
        0 <= i < c.len(),
    ensures
        poly_eval(c.subrange(0, i + 1), x) == poly_eval(c.subrange(0, i), x) + c[i] * pow(
            x,
            i as nat,
        ),
{
    let p = c.subrange(0, i + 1);
    assert(p.drop_last() =~= c.subrange(0, i));
    assert(p.last() == c[i]);
}

/// Evaluates the polynomial with coefficient sequence `c` at the point `x`
/// by left-to-right power-sum accumulation, every step checked against
/// overflow.
pub fn evaluate_at(c: &[i64], x: i64) -> (r: Option<i64>)
    ensures
        as_int_result(r) == eval_result(c@, x as int),
{
    let n = c.len();
    let mut acc: i64 = 0;
    let mut pw: i64 = 1;
    let mut i: usize = 0;
    proof {
        lemma_pow0(x as int);
    }
    while i < n
        invariant
            n == c@.len(),
            i <= n,
            acc == poly_eval(c@.subrange(0, i as int), x as int),
            i < n ==> pw == pow(x as int, i as nat),
            forall|j: nat| j < i ==> fits_i64(#[trigger] pow(x as int, j)),
            forall|j: nat| j < i ==> fits_i64(c@[j as int] * #[trigger] pow(x as int, j)),
            forall|k: int|
                0 <= k <= i ==> fits_i64(poly_eval(#[trigger] c@.subrange(0, k), x as int)),
        decreases n - i,
    {
        let term = match c[i].checked_mul(pw) {
            Some(t) => t,
            None => {
                return None;
            },
        };
        proof {
            lemma_prefix_extend(c@, x as int, i as int);
        }
        let sum = match acc.checked_add(term) {
            Some(s) => s,
            None => {
                return None;
            },
        };
        acc = sum;
        if i + 1 < n {
            pw = match x.checked_mul(pw) {
                Some(p) => p,
                None => {
                    proof {
                        reveal(pow);
                        assert(pow(x as int, (i + 1) as nat) == x as int * pow(x as int, i as nat));
                    }
                    return None;
                },
            };
            proof {
                reveal(pow);
                assert(pow(x as int, (i + 1) as nat) == x as int * pow(x as int, i as nat));
            }
        }
        i = i + 1;
    }
    proof {
        assert(c@.subrange(0, n as int) =~= c@);
    }
    Some(acc)
}

/// An evaluator that borrows its coefficient sequence from the caller. It
/// is usable only while the borrow lives: the borrow checker rejects any
/// attempt to keep the evaluator beyond the sequence's scope.
pub struct Evaluator<'a> {
    coeffs: &'a [i64],
}

impl<'a> View for Evaluator<'a> {
    type V = Seq<i64>;

    closed spec fn view(&self) -> Seq<i64> {
        self.coeffs@
    }
}

impl<'a> Evaluator<'a> {
    /// Value of the polynomial at the point `x`, or `None` when the
    /// accumulation would leave the `i64` range.
    pub fn evaluate(&self, x: i64) -> (r: Option<i64>)
        ensures
            as_int_result(r) == eval_result(self@, x as int),
    {
        evaluate_at(self.coeffs, x)
    }
}

/// Builds an evaluator for the polynomial with coefficient sequence
/// `coeffs`, borrowing the sequence: the evaluator's validity window lies
/// within the sequence's.
pub fn polynomial<'a>(coeffs: &'a [i64]) -> (e: Evaluator<'a>)
    ensures
        e@ == coeffs@,
{
    Evaluator { coeffs }
}

/// An evaluator that holds a shared, reference-counted handle on its
/// coefficient sequence. The handle keeps the sequence alive as long as the
/// evaluator exists, so the evaluator stays valid after every other handle
/// is dropped.
pub struct SharedEvaluator {
    coeffs: Rc<Vec<i64>>,
}

impl View for SharedEvaluator {
    type V = Seq<i64>;

    closed spec fn view(&self) -> Seq<i64> {
        self.coeffs@
    }
}

impl SharedEvaluator {
    /// Value of the polynomial at the point `x`, or `None` when the
    /// accumulation would leave the `i64` range.
    pub fn evaluate(&self, x: i64) -> (r: Option<i64>)
        ensures
            as_int_result(r) == eval_result(self@, x as int),
    {
        evaluate_at((*self.coeffs).as_slice(), x)
    }
}

/// Builds an evaluator for the polynomial with coefficient sequence
/// `coeffs`, taking shared ownership of the sequence.
pub fn polynomial_shared(coeffs: Rc<Vec<i64>>) -> (e: SharedEvaluator)
    ensures
        e@ == coeffs@,
{
    SharedEvaluator { coeffs }
}

/// The empty coefficient sequence denotes the zero polynomial: evaluation
/// at every point stays in range and returns `0`.
pub proof fn lemma_eval_empty(x: int)
    ensures
        poly_eval(Seq::<i64>::empty(), x) == 0,
        eval_result(Seq::<i64>::empty(), x) == Some(0int),
{
    let c = Seq::<i64>::empty();
    assert forall|k: int| 0 <= k <= c.len() implies fits_i64(
        poly_eval(#[trigger] c.subrange(0, k), x),
    ) by {
        assert(c.subrange(0, k) =~= c);
    }
}

/// A single-coefficient sequence denotes a constant polynomial: evaluation
/// at every point stays in range and returns that coefficient.
pub proof fn lemma_eval_constant(a: i64, x: int)
    ensures
        poly_eval(seq![a], x) == a,
        eval_result(seq![a], x) == Some(a as int),
{
    let c = seq![a];
    lemma_pow0(x);
    assert(c.drop_last() =~= Seq::<i64>::empty());
    assert(poly_eval(Seq::<i64>::empty(), x) == 0);
    assert(poly_eval(c, x) == a);
    assert forall|i: nat| i < c.len() implies fits_i64(#[trigger] pow(x, i)) by {
        assert(pow(x, 0) == 1);
    }
    assert forall|i: nat| i < c.len() implies fits_i64(c[i as int] * #[trigger] pow(x, i)) by {
        assert(c[i as int] * pow(x, i) == a);
    }
    assert forall|k: int| 0 <= k <= c.len() implies fits_i64(
        poly_eval(#[trigger] c.subrange(0, k), x),
    ) by {
        if k == 0 {
            assert(c.subrange(0, 0) =~= Seq::<i64>::empty());
        } else {
            assert(c.subrange(0, 1) =~= c);
        }
    }
}

/// Evaluation is pure: the result an evaluator owes is a function of its
/// coefficient sequence and the point alone, so repeated invocations of one
/// evaluator at one point return the identical value.
pub proof fn lemma_evaluation_deterministic(c: Seq<i64>, x: int, r1: Option<i64>, r2: Option<i64>)
    requires
        as_int_result(r1) == eval_result(c, x),
        as_int_result(r2) == eval_result(c, x),
    ensures
        r1 == r2,
{
}

} // verus!
