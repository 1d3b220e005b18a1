//! The representation proof of three secrets: knowledge of `x`, `lambda` and
//! `r` with `X = x * g1` and `T = lambda * (X + r * g3 + g4)`.

use crate::congruence::{
    congruent, lemma_congruent_add, lemma_congruent_mul, lemma_congruent_reduced,
    lemma_congruent_sub, lemma_lift_add, lemma_lift_mul, lemma_lift_neg, lemma_lift_sub,
};
use crate::curve::{
    g1_text, group_add, group_msm, group_scale, lemma_msm3, lemma_msm4, point_indices,
    scalar_values, G1Point,
};
use crate::field::{
    field_add, field_inv, field_mul, field_neg, field_sub, has_field_inverse, scalar_modulus,
    Scalar,
};
use crate::hash::{challenge, hash_to_scalar};
use crate::params::{PublicParams, PublicParamsView};
use rand::rngs::ThreadRng;
use vstd::prelude::*;
use vstd::string::StringExecFns;

verus! {

/// A proof of the representation: the challenge and the three responses.
#[derive(Clone, Copy, Debug, PartialEq, Eq)]
pub struct REP3Proof {
    pub ch: Scalar,
    pub resp1: Scalar,
    pub resp2: Scalar,
    pub resp3: Scalar,
}

/// The values of a proof of the representation.
pub ghost struct REP3ProofView {
    pub ch: nat,
    pub resp1: nat,
    pub resp2: nat,
    pub resp3: nat,
}

impl View for REP3Proof {
    type V = REP3ProofView;

    open spec fn view(&self) -> REP3ProofView {
        REP3ProofView {
            ch: self.ch@,
            resp1: self.resp1@,
            resp2: self.resp2@,
            resp3: self.resp3@,
        }
    }
}

impl REP3Proof {
    /// The values of a proof determine the proof.
    pub proof fn lemma_view_injective(p: REP3Proof, q: REP3Proof)
        ensures
            (p@ == q@) <==> (p == q),
    {
        Scalar::lemma_view_injective(p.ch, q.ch);
        Scalar::lemma_view_injective(p.resp1, q.resp1);
        Scalar::lemma_view_injective(p.resp2, q.resp2);
        Scalar::lemma_view_injective(p.resp3, q.resp3);
    }
}

/// The transcript of the proof: the parameters, the statement and the two
/// commitments, in this order.
pub open spec fn rep3_transcript(
    pp: PublicParamsView,
    x_pub: nat,
    t: nat,
    comm1: nat,
    comm2: nat,
) -> Seq<char> {
    pp.text() + g1_text(x_pub) + g1_text(t) + g1_text(comm1) + g1_text(comm2)
}

/// What the secrets are to satisfy: `x_pub` is `g1` taken `x` times, and `t` is
/// `x_pub + r * g3 + g4` taken `lambda` times.
pub open spec fn rep3_relation(
    pp: PublicParamsView,
    x_pub: nat,
    t: nat,
    x: nat,
    lambda: nat,
    r: nat,
) -> bool {
    &&& x_pub == group_scale(pp.g1, x)
    &&& t == group_scale(group_add(group_add(x_pub, group_scale(pp.g3, r)), pp.g4), lambda)
}

/// The proof that the prover makes from the secrets and the nonces `a`, `b`
/// and `c`.
pub open spec fn rep3_response(
    pp: PublicParamsView,
    x_pub: nat,
    t: nat,
    x: nat,
    lambda: nat,
    r: nat,
    a: nat,
    b: nat,
    c: nat,
) -> REP3ProofView {
    let comm1 = group_scale(pp.g1, a);
    let comm2 = group_msm(seq![pp.g1, pp.g3, t], seq![a, b, c]);
    let ch = challenge(rep3_transcript(pp, x_pub, t, comm1, comm2));
    REP3ProofView {
        ch,
        resp1: field_sub(a, field_mul(ch, x)),
        resp2: field_sub(b, field_mul(ch, r)),
        resp3: field_add(c, field_mul(ch, field_inv(lambda))),
    }
}

/// The first commitment as the verifier recomputes it.
pub open spec fn rep3_recommit1(pp: PublicParamsView, x_pub: nat, pi: REP3ProofView) -> nat {
    group_add(group_scale(pp.g1, pi.resp1), group_scale(x_pub, pi.ch))
}

/// The second commitment as the verifier recomputes it.
pub open spec fn rep3_recommit2(pp: PublicParamsView, t: nat, pi: REP3ProofView) -> nat {
    group_msm(
        seq![pp.g1, pp.g3, t, pp.g4],
        seq![pi.resp1, pi.resp2, pi.resp3, field_neg(pi.ch)],
    )
}

/// Whether the verifier accepts: the challenge of the transcript with the
/// recomputed commitments is the challenge of the proof.
pub open spec fn rep3_accepts(pp: PublicParamsView, x_pub: nat, t: nat, pi: REP3ProofView) -> bool {
    pi.ch == challenge(
        rep3_transcript(pp, x_pub, t, rep3_recommit1(pp, x_pub, pi), rep3_recommit2(pp, t, pi)),
    )
}

/// The text of the transcript.
fn rep3_transcript_text(
    pp: &PublicParams,
    x_pub: &G1Point,
    t: &G1Point,
    comm1: &G1Point,
    comm2: &G1Point,
) -> (s: String)
    ensures
        s@ == rep3_transcript(pp@, x_pub@, t@, comm1@, comm2@),
{
    let mut s = pp.to_string();
    s.append(x_pub.to_string().as_str());
    s.append(t.to_string().as_str());
    s.append(comm1.to_string().as_str());
    s.append(comm2.to_string().as_str());
    s
}

/// The proof made from the secrets and the given nonces. It is accepted where
/// the secrets satisfy the relation.
pub fn rep3_prove_with(
    pp: &PublicParams,
    x_pub: G1Point,
    t: G1Point,
    x: Scalar,
    lambda: Scalar,
    r: Scalar,
    a: Scalar,
    b: Scalar,
    c: Scalar,
) -> (pi: REP3Proof)
    requires
        lambda@ != 0,
    ensures
        pi@ == rep3_response(pp@, x_pub@, t@, x@, lambda@, r@, a@, b@, c@),
        rep3_relation(pp@, x_pub@, t@, x@, lambda@, r@) ==> rep3_accepts(pp@, x_pub@, t@, pi@),
{
    let comm1 = pp.g1.mul(&a);
    let bases = vec![pp.g1, pp.g3, t];
    let coeffs = vec![a, b, c];
    proof {
        use_type_invariant(&pp.g1);
        use_type_invariant(&pp.g3);
        use_type_invariant(&t);
        use_type_invariant(&a);
        use_type_invariant(&b);
        use_type_invariant(&c);
        assert(point_indices(bases@) =~= seq![pp.g1@, pp.g3@, t@]);
        assert(scalar_values(coeffs@) =~= seq![a@, b@, c@]);
    }
    let comm2 = G1Point::msm(bases.as_slice(), coeffs.as_slice());
    let d = rep3_transcript_text(pp, &x_pub, &t, &comm1, &comm2);
    let ch = hash_to_scalar(d.as_str());
    let lambda_inv = match lambda.inverse() {
        Some(v) => v,
        None => vstd::pervasive::unreached(),
    };
    let resp1 = a.sub(&ch.mul(&x));
    let resp2 = b.sub(&ch.mul(&r));
    let resp3 = c.add(&ch.mul(&lambda_inv));
    proof {
        if rep3_relation(pp@, x_pub@, t@, x@, lambda@, r@) {
            lemma_rep3_complete(pp@, x_pub@, t@, x@, lambda@, r@, a@, b@, c@);
        }
    }
    REP3Proof { ch, resp1, resp2, resp3 }
}

/// A proof made from the secrets and fresh nonces. It is accepted where the
/// secrets satisfy the relation.
pub fn rep3_prove(
    rng: &mut ThreadRng,
    pp: &PublicParams,
    x_pub: G1Point,
    t: G1Point,
    x: Scalar,
    lambda: Scalar,
    r: Scalar,
) -> (pi: REP3Proof)
    requires
        lambda@ != 0,
    ensures
        exists|a: nat, b: nat, c: nat|
            a < scalar_modulus() && b < scalar_modulus() && c < scalar_modulus() && pi@
                == #[trigger] rep3_response(pp@, x_pub@, t@, x@, lambda@, r@, a, b, c),
        rep3_relation(pp@, x_pub@, t@, x@, lambda@, r@) ==> rep3_accepts(pp@, x_pub@, t@, pi@),
{
    let a = Scalar::random(rng);
    let b = Scalar::random(rng);
    let c = Scalar::random(rng);
    let pi = rep3_prove_with(pp, x_pub, t, x, lambda, r, a, b, c);
    proof {
        use_type_invariant(&a);
        use_type_invariant(&b);
        use_type_invariant(&c);
    }
    pi
}

/// Whether a proof of the representation is accepted for the statement `x_pub`,
/// `t`.
pub fn rep3_verify(pp: &PublicParams, x_pub: G1Point, t: G1Point, pi_c: &REP3Proof) -> (ok: bool)
    ensures
        ok == rep3_accepts(pp@, x_pub@, t@, pi_c@),
{
    let comm1 = pp.g1.mul(&pi_c.resp1).add(&x_pub.mul(&pi_c.ch));
    let bases = vec![pp.g1, pp.g3, t, pp.g4];
    let neg_ch = pi_c.ch.neg();
    let coeffs = vec![pi_c.resp1, pi_c.resp2, pi_c.resp3, neg_ch];
    proof {
        use_type_invariant(&pp.g1);
        use_type_invariant(&pp.g3);
        use_type_invariant(&t);
        use_type_invariant(&pp.g4);
        use_type_invariant(&pi_c.resp1);
        use_type_invariant(&pi_c.resp2);
        use_type_invariant(&pi_c.resp3);
        use_type_invariant(&neg_ch);
        assert(point_indices(bases@) =~= seq![pp.g1@, pp.g3@, t@, pp.g4@]);
        assert(scalar_values(coeffs@) =~= seq![
            pi_c.resp1@,
            pi_c.resp2@,
            pi_c.resp3@,
            field_neg(pi_c.ch@),
        ]);
    }
    let comm2 = G1Point::msm(bases.as_slice(), coeffs.as_slice());
    let d = rep3_transcript_text(pp, &x_pub, &t, &comm1, &comm2);
    let ch = hash_to_scalar(d.as_str());
    proof {
        Scalar::lemma_view_injective(pi_c.ch, ch);
    }
    pi_c.ch == ch
}

/// Completeness: where the secrets satisfy the relation and `lambda` has an
/// inverse, the verifier accepts the proof that the prover makes from them,
/// whatever the nonces.
pub proof fn lemma_rep3_complete(
    pp: PublicParamsView,
    x_pub: nat,
    t: nat,
    x: nat,
    lambda: nat,
    r: nat,
    a: nat,
    b: nat,
    c: nat,
)
    requires
        rep3_relation(pp, x_pub, t, x, lambda, r),
        has_field_inverse(lambda),
    ensures
        rep3_accepts(pp, x_pub, t, rep3_response(pp, x_pub, t, x, lambda, r, a, b, c)),
{
    let pi = rep3_response(pp, x_pub, t, x, lambda, r, a, b, c);
    let comm1 = group_scale(pp.g1, a);
    let comm2 = group_msm(seq![pp.g1, pp.g3, t], seq![a, b, c]);
    let li = field_inv(lambda);
    let neg_ch = field_neg(pi.ch);
    // The same numbers as integers.
    let (g1, g3, g4) = (pp.g1 as int, pp.g3 as int, pp.g4 as int);
    let (xi, ri, lam, lii) = (x as int, r as int, lambda as int, li as int);
    let (ai, bi, ci, ch, ti) = (a as int, b as int, c as int, pi.ch as int, t as int);
    let (r1, r2, r3, nch) = (pi.resp1 as int, pi.resp2 as int, pi.resp3 as int, neg_ch as int);
    // What each value stands for, as a polynomial in the secrets.
    let e_x = g1 * xi;
    let e_p = g1 * xi + g3 * ri + g4;
    let e_t = e_p * lam;
    let e_r1 = ai - ch * xi;
    let e_r2 = bi - ch * ri;
    let e_r3 = ci + ch * lii;
    lemma_lift_mul(pp.g1, g1, x, xi);
    lemma_lift_mul(pp.g3, g3, r, ri);
    lemma_lift_add(x_pub, e_x, group_scale(pp.g3, r), g3 * ri);
    lemma_lift_add(group_add(x_pub, group_scale(pp.g3, r)), e_x + g3 * ri, pp.g4, g4);
    lemma_lift_mul(group_add(group_add(x_pub, group_scale(pp.g3, r)), pp.g4), e_p, lambda, lam);
    lemma_lift_mul(pi.ch, ch, x, xi);
    lemma_lift_sub(a, ai, field_mul(pi.ch, x), ch * xi);
    lemma_lift_mul(pi.ch, ch, r, ri);
    lemma_lift_sub(b, bi, field_mul(pi.ch, r), ch * ri);
    lemma_lift_mul(pi.ch, ch, li, lii);
    lemma_lift_add(c, ci, field_mul(pi.ch, li), ch * lii);
    lemma_lift_neg(pi.ch, ch);

    // The first commitment.
    lemma_lift_mul(pp.g1, g1, a, ai);
    lemma_lift_mul(pp.g1, g1, pi.resp1, e_r1);
    lemma_lift_mul(x_pub, e_x, pi.ch, ch);
    lemma_lift_add(group_scale(pp.g1, pi.resp1), g1 * e_r1, group_scale(x_pub, pi.ch), e_x * ch);
    assert(g1 * e_r1 + e_x * ch == g1 * ai) by (nonlinear_arith)
        requires
            e_r1 == ai - ch * xi,
            e_x == g1 * xi,
    ;
    lemma_congruent_reduced(rep3_recommit1(pp, x_pub, pi), comm1);

    // The second commitment.
    lemma_msm3(pp.g1, a, pp.g3, b, t, c);
    lemma_msm4(pp.g1, pi.resp1, pp.g3, pi.resp2, t, pi.resp3, pp.g4, neg_ch);
    let e3 = g1 * ai + g3 * bi + e_t * ci;
    let e4 = g1 * e_r1 + g3 * e_r2 + e_t * e_r3 + g4 * (-ch);
    lemma_congruent_mul(ti, e_t, ci, ci);
    lemma_congruent_add(g1 * ai + g3 * bi, g1 * ai + g3 * bi, ti * ci, e_t * ci);
    lemma_congruent_mul(g1, g1, r1, e_r1);
    lemma_congruent_mul(g3, g3, r2, e_r2);
    lemma_congruent_mul(ti, e_t, r3, e_r3);
    lemma_congruent_mul(g4, g4, nch, -ch);
    lemma_congruent_add(g1 * r1, g1 * e_r1, g3 * r2, g3 * e_r2);
    lemma_congruent_add(g1 * r1 + g3 * r2, g1 * e_r1 + g3 * e_r2, ti * r3, e_t * e_r3);
    lemma_congruent_add(
        g1 * r1 + g3 * r2 + ti * r3,
        g1 * e_r1 + g3 * e_r2 + e_t * e_r3,
        g4 * nch,
        g4 * (-ch),
    );
    // The two polynomials differ by a multiple of `lambda * li - 1`.
    let k = ch * e_p;
    let q = lam * lii;
    let (gx, gr) = (g1 * xi, g3 * ri);
    assert(g1 * e_r1 == g1 * ai - ch * gx) by (nonlinear_arith)
        requires
            e_r1 == ai - ch * xi,
            gx == g1 * xi,
    ;
    assert(g3 * e_r2 == g3 * bi - ch * gr) by (nonlinear_arith)
        requires
            e_r2 == bi - ch * ri,
            gr == g3 * ri,
    ;
    assert(e_t * e_r3 == e_t * ci + k * q) by (nonlinear_arith)
        requires
            e_r3 == ci + ch * lii,
            e_t == e_p * lam,
            k == ch * e_p,
            q == lam * lii,
    ;
    assert(ch * gx + ch * gr + g4 * ch == k) by (nonlinear_arith)
        requires
            e_p == gx + gr + g4,
            k == ch * e_p,
    ;
    assert(g4 * (-ch) == -(g4 * ch)) by (nonlinear_arith);
    lemma_congruent_mul(k, k, q, 1);
    lemma_congruent_add(e3 - k, e3 - k, k * q, k * 1);
    assert(congruent(e4, e3));
    lemma_congruent_reduced(rep3_recommit2(pp, t, pi), comm2);
}

/// Determinism: two proofs made from the same statement, the same secrets and
/// the same nonces are the same proof.
pub proof fn lemma_rep3_deterministic(
    pp: PublicParamsView,
    x_pub: nat,
    t: nat,
    x: nat,
    lambda: nat,
    r: nat,
    a: nat,
    b: nat,
    c: nat,
    p: REP3Proof,
    q: REP3Proof,
)
    requires
        p@ == rep3_response(pp, x_pub, t, x, lambda, r, a, b, c),
        q@ == rep3_response(pp, x_pub, t, x, lambda, r, a, b, c),
    ensures
        p == q,
{
    REP3Proof::lemma_view_injective(p, q);
}

/// Special soundness: two proofs that recompute to the same commitments under
/// challenges whose difference has an inverse give the secrets. With `w` the
/// inverse of the difference of the challenges, the differences of the
/// responses times `w` are an `x` with `x_pub = x * g1`, an `r` and a `mu` with
/// `mu * t = x_pub + r * g3 + g4`: the relation, with `mu` the inverse of the
/// blinding.
pub proof fn lemma_rep3_special_soundness(
    pp: PublicParamsView,
    x_pub: nat,
    t: nat,
    p: REP3ProofView,
    q: REP3ProofView,
)
    requires
        x_pub < scalar_modulus(),
        rep3_recommit1(pp, x_pub, p) == rep3_recommit1(pp, x_pub, q),
        rep3_recommit2(pp, t, p) == rep3_recommit2(pp, t, q),
        has_field_inverse(field_sub(q.ch, p.ch)),
    ensures
        ({
            let w = field_inv(field_sub(q.ch, p.ch));
            let x = field_mul(field_sub(p.resp1, q.resp1), w);
            let r = field_mul(field_sub(p.resp2, q.resp2), w);
            let mu = field_mul(field_sub(q.resp3, p.resp3), w);
            &&& x_pub == group_scale(pp.g1, x)
            &&& group_scale(t, mu) == group_add(group_add(x_pub, group_scale(pp.g3, r)), pp.g4)
        }),
{
    let d = field_sub(q.ch, p.ch);
    let w = field_inv(d);
    let x = field_mul(field_sub(p.resp1, q.resp1), w);
    let r = field_mul(field_sub(p.resp2, q.resp2), w);
    let mu = field_mul(field_sub(q.resp3, p.resp3), w);
    let (g1, g3, g4, xp, ti) = (pp.g1 as int, pp.g3 as int, pp.g4 as int, x_pub as int, t as int);
    let (pr1, pr2, pr3, pc) = (p.resp1 as int, p.resp2 as int, p.resp3 as int, p.ch as int);
    let (qr1, qr2, qr3, qc) = (q.resp1 as int, q.resp2 as int, q.resp3 as int, q.ch as int);
    let wi = w as int;
    let dw = (qc - pc) * wi;
    lemma_lift_sub(q.ch, qc, p.ch, pc);
    lemma_congruent_mul(d as int, qc - pc, wi, wi);
    assert(congruent(dw, 1));

    // The first commitment gives `x`.
    lemma_lift_mul(pp.g1, g1, p.resp1, pr1);
    lemma_lift_mul(x_pub, xp, p.ch, pc);
    lemma_lift_add(group_scale(pp.g1, p.resp1), g1 * pr1, group_scale(x_pub, p.ch), xp * pc);
    lemma_lift_mul(pp.g1, g1, q.resp1, qr1);
    lemma_lift_mul(x_pub, xp, q.ch, qc);
    lemma_lift_add(group_scale(pp.g1, q.resp1), g1 * qr1, group_scale(x_pub, q.ch), xp * qc);
    assert(congruent(g1 * pr1 + xp * pc, g1 * qr1 + xp * qc));
    lemma_congruent_sub(
        g1 * pr1 + xp * pc,
        g1 * qr1 + xp * qc,
        g1 * qr1 + xp * pc,
        g1 * qr1 + xp * pc,
    );
    let lhs1 = g1 * (pr1 - qr1);
    let rhs1 = xp * (qc - pc);
    assert(lhs1 == (g1 * pr1 + xp * pc) - (g1 * qr1 + xp * pc)) by (nonlinear_arith)
        requires
            lhs1 == g1 * (pr1 - qr1),
    ;
    assert(rhs1 == (g1 * qr1 + xp * qc) - (g1 * qr1 + xp * pc)) by (nonlinear_arith)
        requires
            rhs1 == xp * (qc - pc),
    ;
    lemma_congruent_mul(lhs1, rhs1, wi, wi);
    lemma_congruent_mul(xp, xp, dw, 1);
    assert(rhs1 * wi == xp * dw) by (nonlinear_arith)
        requires
            rhs1 == xp * (qc - pc),
            dw == (qc - pc) * wi,
    ;
    assert(lhs1 * wi == g1 * ((pr1 - qr1) * wi)) by (nonlinear_arith)
        requires
            lhs1 == g1 * (pr1 - qr1),
    ;
    lemma_lift_sub(p.resp1, pr1, q.resp1, qr1);
    lemma_lift_mul(field_sub(p.resp1, q.resp1), pr1 - qr1, w, wi);
    lemma_lift_mul(pp.g1, g1, x, (pr1 - qr1) * wi);
    assert(congruent(group_scale(pp.g1, x) as int, xp));
    lemma_congruent_reduced(group_scale(pp.g1, x), x_pub);

    // The second commitment gives `r` and `mu`.
    let neg_pc = field_neg(p.ch);
    let neg_qc = field_neg(q.ch);
    let (npc, nqc) = (neg_pc as int, neg_qc as int);
    lemma_msm4(pp.g1, p.resp1, pp.g3, p.resp2, t, p.resp3, pp.g4, neg_pc);
    lemma_msm4(pp.g1, q.resp1, pp.g3, q.resp2, t, q.resp3, pp.g4, neg_qc);
    lemma_lift_neg(p.ch, pc);
    lemma_lift_neg(q.ch, qc);
    lemma_congruent_mul(g4, g4, npc, -pc);
    lemma_congruent_mul(g4, g4, nqc, -qc);
    let sp = g1 * pr1 + g3 * pr2 + ti * pr3;
    let sq = g1 * qr1 + g3 * qr2 + ti * qr3;
    lemma_congruent_add(sp, sp, g4 * npc, g4 * (-pc));
    lemma_congruent_add(sq, sq, g4 * nqc, g4 * (-qc));
    assert(congruent(sp + g4 * (-pc), sq + g4 * (-qc)));
    lemma_congruent_sub(sp + g4 * (-pc), sq + g4 * (-qc), sq + g4 * (-pc), sq + g4 * (-pc));
    // g1 * (pr1 - qr1) + g3 * (pr2 - qr2) - t * (qr3 - pr3) is congruent to -g4 * (qc - pc)
    let a1 = g1 * ((pr1 - qr1) * wi);
    let a2 = g3 * ((pr2 - qr2) * wi);
    let a3 = ti * ((qr3 - pr3) * wi);
    let lhs2 = (sp + g4 * (-pc)) - (sq + g4 * (-pc));
    let rhs2 = (sq + g4 * (-qc)) - (sq + g4 * (-pc));
    lemma_congruent_mul(lhs2, rhs2, wi, wi);
    let (d1, d2, d3) = (pr1 - qr1, pr2 - qr2, qr3 - pr3);
    let (u1, u2, u3) = (g1 * d1, g3 * d2, ti * d3);
    assert(u1 == g1 * pr1 - g1 * qr1) by (nonlinear_arith)
        requires
            u1 == g1 * d1,
            d1 == pr1 - qr1,
    ;
    assert(u2 == g3 * pr2 - g3 * qr2) by (nonlinear_arith)
        requires
            u2 == g3 * d2,
            d2 == pr2 - qr2,
    ;
    assert(u3 == ti * qr3 - ti * pr3) by (nonlinear_arith)
        requires
            u3 == ti * d3,
            d3 == qr3 - pr3,
    ;
    assert(lhs2 == u1 + u2 - u3);
    assert(lhs2 * wi == u1 * wi + u2 * wi - u3 * wi) by (nonlinear_arith)
        requires
            lhs2 == u1 + u2 - u3,
    ;
    assert(u1 * wi == a1) by (nonlinear_arith)
        requires
            u1 == g1 * d1,
            a1 == g1 * (d1 * wi),
    ;
    assert(u2 * wi == a2) by (nonlinear_arith)
        requires
            u2 == g3 * d2,
            a2 == g3 * (d2 * wi),
    ;
    assert(u3 * wi == a3) by (nonlinear_arith)
        requires
            u3 == ti * d3,
            a3 == ti * (d3 * wi),
    ;
    assert(rhs2 * wi == -(g4 * dw)) by (nonlinear_arith)
        requires
            rhs2 == (sq + g4 * (-qc)) - (sq + g4 * (-pc)),
            dw == (qc - pc) * wi,
    ;
    lemma_congruent_mul(g4, g4, dw, 1);
    lemma_congruent_sub(0, 0, g4 * dw, g4 * 1);
    assert(congruent(a1 + a2 - a3, -g4));
    lemma_congruent_sub(a1 + a2, a1 + a2, a1 + a2 - a3, -g4);
    assert(congruent(a3, a1 + a2 + g4));
    lemma_lift_sub(p.resp2, pr2, q.resp2, qr2);
    lemma_lift_mul(field_sub(p.resp2, q.resp2), pr2 - qr2, w, wi);
    lemma_lift_mul(pp.g3, g3, r, (pr2 - qr2) * wi);
    lemma_lift_sub(q.resp3, qr3, p.resp3, pr3);
    lemma_lift_mul(field_sub(q.resp3, p.resp3), qr3 - pr3, w, wi);
    lemma_lift_mul(t, ti, mu, (qr3 - pr3) * wi);
    lemma_lift_add(x_pub, a1, group_scale(pp.g3, r), a2);
    lemma_lift_add(group_add(x_pub, group_scale(pp.g3, r)), a1 + a2, pp.g4, g4);
    lemma_congruent_reduced(
        group_scale(t, mu),
        group_add(group_add(x_pub, group_scale(pp.g3, r)), pp.g4),
    );
}

} // verus!
