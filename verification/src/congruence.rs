//! Congruence modulo the group order, and the rules by which field
//! expressions are read as integer polynomials.

use crate::field::{
    field_add, field_inv, field_mul, field_neg, field_sub, is_field_inverse, scalar_modulus,
};
use vstd::arithmetic::div_mod::{
    lemma_add_mod_noop, lemma_mod_pos_bound, lemma_mul_mod_noop_general, lemma_sub_mod_noop,
};
use vstd::prelude::*;

verus! {

/// Two integers that leave the same remainder modulo the group order.
pub open spec fn congruent(x: int, y: int) -> bool {
    x % (scalar_modulus() as int) == y % (scalar_modulus() as int)
}

/// Reduced representatives that are congruent are equal.
pub proof fn lemma_congruent_reduced(x: nat, y: nat)
    requires
        x < scalar_modulus(),
        y < scalar_modulus(),
        congruent(x as int, y as int),
    ensures
        x == y,
{
}

/// Congruence is kept by addition.
pub proof fn lemma_congruent_add(x1: int, y1: int, x2: int, y2: int)
    requires
        congruent(x1, y1),
        congruent(x2, y2),
    ensures
        congruent(x1 + x2, y1 + y2),
{
    let m = scalar_modulus() as int;
    lemma_add_mod_noop(x1, x2, m);
    lemma_add_mod_noop(y1, y2, m);
}

/// Congruence is kept by subtraction.
pub proof fn lemma_congruent_sub(x1: int, y1: int, x2: int, y2: int)
    requires
        congruent(x1, y1),
        congruent(x2, y2),
    ensures
        congruent(x1 - x2, y1 - y2),
{
    let m = scalar_modulus() as int;
    lemma_sub_mod_noop(x1, x2, m);
    lemma_sub_mod_noop(y1, y2, m);
}

/// Congruence is kept by multiplication.
pub proof fn lemma_congruent_mul(x1: int, y1: int, x2: int, y2: int)
    requires
        congruent(x1, y1),
        congruent(x2, y2),
    ensures
        congruent(x1 * x2, y1 * y2),
{
    let m = scalar_modulus() as int;
    lemma_mul_mod_noop_general(x1, x2, m);
    lemma_mul_mod_noop_general(y1, y2, m);
}

/// A field sum stands for the sum of what its arguments stand for.
pub proof fn lemma_lift_add(a: nat, ea: int, b: nat, eb: int)
    requires
        congruent(a as int, ea),
        congruent(b as int, eb),
    ensures
        congruent(field_add(a, b) as int, ea + eb),
        field_add(a, b) < scalar_modulus(),
{
    let m = scalar_modulus() as int;
    lemma_congruent_add(a as int, ea, b as int, eb);
    lemma_mod_pos_bound((a + b) as int, m);
}

/// A field difference stands for the difference of what its arguments stand
/// for.
pub proof fn lemma_lift_sub(a: nat, ea: int, b: nat, eb: int)
    requires
        congruent(a as int, ea),
        congruent(b as int, eb),
    ensures
        congruent(field_sub(a, b) as int, ea - eb),
        field_sub(a, b) < scalar_modulus(),
{
    lemma_congruent_sub(a as int, ea, b as int, eb);
}

/// A field product stands for the product of what its arguments stand for.
pub proof fn lemma_lift_mul(a: nat, ea: int, b: nat, eb: int)
    requires
        congruent(a as int, ea),
        congruent(b as int, eb),
    ensures
        congruent(field_mul(a, b) as int, ea * eb),
        field_mul(a, b) < scalar_modulus(),
{
    let m = scalar_modulus() as int;
    lemma_congruent_mul(a as int, ea, b as int, eb);
    lemma_mod_pos_bound((a * b) as int, m);
}

/// A field negative stands for the negative of what its argument stands for.
pub proof fn lemma_lift_neg(a: nat, ea: int)
    requires
        congruent(a as int, ea),
    ensures
        congruent(field_neg(a) as int, -ea),
        field_neg(a) < scalar_modulus(),
{
    lemma_congruent_sub(0, 0, a as int, ea);
}

/// A number has at most one reduced multiplicative inverse.
pub proof fn lemma_field_inverse_unique(a: nat, x: nat, y: nat)
    requires
        is_field_inverse(a, x),
    ensures
        is_field_inverse(a, field_inv(a)),
        is_field_inverse(a, y) ==> x == y,
{
    if is_field_inverse(a, y) {
        let ax = (a * x) as int;
        let ay = (a * y) as int;
        lemma_congruent_mul(ax, 1, y as int, y as int);
        lemma_congruent_mul(x as int, x as int, ay, 1);
        assert(ax * y == x * ay) by (nonlinear_arith)
            requires
                ax == a * x,
                ay == a * y,
        ;
        lemma_congruent_reduced(x, y);
    }
}

} // verus!
