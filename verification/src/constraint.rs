//! The constraint that every row of the table has to satisfy: the filter
//! is 0 or 1.
//!
//! The constraint is the polynomial `filter * (1 - filter)`, which has to
//! vanish on every row. It has degree 2. It says nothing of the opcode or
//! of the program counter: that an opcode is one of the instruction set's,
//! or that the program counters ascend, is not checked by it.

use crate::trace::{lemma_trace_rows, trace_rows};
use crate::vm_specs::Instruction;
use vstd::arithmetic::div_mod::{
    lemma_fundamental_div_mod, lemma_mod_add_multiples_vanish, lemma_mod_multiples_basic,
    lemma_mul_mod_noop_general, lemma_small_mod, lemma_sub_mod_noop_right,
};
use vstd::prelude::*;

verus! {

/// The degree of the constraint polynomial.
pub const FILTER_CONSTRAINT_DEGREE: usize = 2;

/// The constraint polynomial, over the integers.
pub open spec fn filter_constraint(filter: int) -> int {
    filter * (1 - filter)
}

/// The value of the constraint polynomial in the prime field of the given
/// order, at the element whose canonical representative is `filter`; the
/// value is given by its canonical representative too.
pub open spec fn filter_constraint_in_field(filter: int, order: int) -> int {
    filter_constraint(filter) % order
}

/// Whether `p` is a prime number.
pub open spec fn is_prime(p: int) -> bool {
    &&& p >= 2
    &&& forall|d: int| 1 < d < p ==> #[trigger] (p % d) != 0
}

/// Over the integers the constraint vanishes at 0 and at 1, and nowhere
/// else.
pub proof fn lemma_filter_constraint_boolean(filter: int)
    ensures
        filter_constraint(filter) == 0 <==> (filter == 0 || filter == 1),
{
    assert(filter * (1 - filter) == 0 <==> (filter == 0 || filter == 1)) by (nonlinear_arith);
}

/// In every field the constraint vanishes at the field's zero and at its
/// one.
pub proof fn lemma_filter_constraint_vanishes(filter: int, order: int)
    requires
        order >= 2,
        filter == 0 || filter == 1,
    ensures
        filter_constraint_in_field(filter, order) == 0,
{
    lemma_filter_constraint_boolean(filter);
    lemma_small_mod(0, order as nat);
}

/// A prime that divides a product divides one of its factors. Here the
/// first factor lies strictly between 0 and the prime, so the prime
/// divides the second.
proof fn lemma_prime_divides_factor(p: int, a: int, b: int)
    requires
        is_prime(p),
        0 < a < p,
        (a * b) % p == 0,
    ensures
        b % p == 0,
    decreases a,
{
    if a == 1 {
        assert(a * b == b);
    } else {
        let q = p / a;
        let r = p % a;
        lemma_fundamental_div_mod(p, a);
        assert(p == a * q + r);
        assert(0 < r < a);
        // r * b = p * b - q * (a * b), and p divides both terms.
        let k = (a * b) / p;
        lemma_fundamental_div_mod(a * b, p);
        assert(a * b == p * k);
        assert(r * b == p * (b - q * k)) by (nonlinear_arith)
            requires
                p == a * q + r,
                a * b == p * k,
        ;
        lemma_multiple_mod(p, b - q * k);
        lemma_prime_divides_factor(p, r, b);
    }
}

/// A multiple of `m` leaves no remainder on division by `m`.
proof fn lemma_multiple_mod(m: int, k: int)
    requires
        m > 0,
    ensures
        (m * k) % m == 0,
{
    lemma_mod_multiples_basic(k, m);
    assert(m * k == k * m) by (nonlinear_arith);
}

/// In a prime field the constraint vanishes only at the field's zero and
/// at its one: a row that satisfies it has a filter of exactly 0 or 1.
pub proof fn lemma_filter_constraint_sound(filter: int, order: int)
    requires
        is_prime(order),
        0 <= filter < order,
    ensures
        filter_constraint_in_field(filter, order) == 0 <==> (filter == 0 || filter == 1),
{
    if filter == 0 || filter == 1 {
        lemma_filter_constraint_vanishes(filter, order);
    } else if filter_constraint_in_field(filter, order) == 0 {
        lemma_prime_divides_factor(order, filter, 1 - filter);
        // 1 - filter lies strictly between -order and 0.
        lemma_mod_add_multiples_vanish(1 - filter, order);
        lemma_small_mod((order + 1 - filter) as nat, order as nat);
        assert(false);
    }
}

/// Every row of the trace of a program satisfies the constraint, over the
/// integers and so in every field.
pub proof fn lemma_trace_satisfies_filter_constraint(code: Map<u8, Instruction>)
    ensures
        forall|i: int|
            0 <= i < trace_rows(code).len() ==> filter_constraint(
                (#[trigger] trace_rows(code)[i]).filter as int,
            ) == 0,
        forall|i: int, order: int|
            0 <= i < trace_rows(code).len() && order >= 2 ==> #[trigger] filter_constraint_in_field(
                trace_rows(code)[i].filter as int,
                order,
            ) == 0,
{
    lemma_trace_rows(code);
    assert forall|i: int| 0 <= i < trace_rows(code).len() implies filter_constraint(
        (#[trigger] trace_rows(code)[i]).filter as int,
    ) == 0 by {
        let filter = trace_rows(code)[i].filter as int;
        assert(filter == 0 || filter == 1);
        lemma_filter_constraint_boolean(filter);
    }
    assert forall|i: int, order: int|
        0 <= i < trace_rows(code).len() && order >= 2 implies #[trigger] filter_constraint_in_field(
        trace_rows(code)[i].filter as int,
        order,
    ) == 0 by {
        let filter = trace_rows(code)[i].filter as int;
        assert(filter_constraint((#[trigger] trace_rows(code)[i]).filter as int) == 0);
        lemma_small_mod(0, order as nat);
    }
}

/// The value of the constraint in the field of the given order, at the
/// element that `filter` stands for. A `filter` that is not below the order
/// stands for the element that it is congruent to.
pub fn eval_filter_constraint(filter: u64, order: u64) -> (value: u64)
    requires
        order >= 2,
    ensures
        value == filter_constraint_in_field(filter as int, order as int),
{
    let canonical: u64 = filter % order;
    let one_minus_filter: u64 = if canonical <= 1 {
        1 - canonical
    } else {
        order - canonical + 1
    };
    proof {
        if canonical <= 1 {
            lemma_small_mod((1 - canonical) as nat, order as nat);
        } else {
            lemma_mod_add_multiples_vanish(1 - canonical, order as int);
            lemma_small_mod((order + 1 - canonical) as nat, order as nat);
        }
        assert(one_minus_filter == (1 - canonical) % (order as int));
        lemma_sub_mod_noop_right(1, filter as int, order as int);
        lemma_mul_mod_noop_general(filter as int, 1 - filter, order as int);
        assert(canonical * one_minus_filter <= u64::MAX * u64::MAX) by (nonlinear_arith)
            requires
                0 <= canonical <= u64::MAX,
                0 <= one_minus_filter <= u64::MAX,
        ;
    }
    let product: u128 = (canonical as u128) * (one_minus_filter as u128);
    (product % (order as u128)) as u64
}

} // verus!
