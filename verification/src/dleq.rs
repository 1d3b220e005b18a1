//! The proof of equal discrete logarithms: knowledge of `y` with
//! `Y = y * g2` and `T - s * S = y * S`.

use crate::congruence::{
    congruent, lemma_congruent_mul, lemma_congruent_reduced, lemma_congruent_sub, lemma_lift_add,
    lemma_lift_mul, lemma_lift_sub,
};
use crate::curve::{g1_text, g2_text, group_scale, group_sub, G1Point, G2Point};
use crate::field::{
    field_add, field_inv, field_mul, field_sub, has_field_inverse, scalar_modulus, Scalar,
};
use crate::hash::{challenge, hash_to_scalar};
use crate::params::{PublicParams, PublicParamsView};
use rand::rngs::ThreadRng;
use vstd::prelude::*;
use vstd::string::StringExecFns;

verus! {

/// A proof of equal discrete logarithms: the challenge and the response.
#[derive(Clone, Copy, Debug, PartialEq, Eq)]
pub struct DLEQProof {
    pub ch: Scalar,
    pub resp: Scalar,
}

/// The values of a proof of equal discrete logarithms.
pub ghost struct DLEQProofView {
    pub ch: nat,
    pub resp: nat,
}

impl View for DLEQProof {
    type V = DLEQProofView;

    open spec fn view(&self) -> DLEQProofView {
        DLEQProofView { ch: self.ch@, resp: self.resp@ }
    }
}

impl DLEQProof {
    /// The values of a proof determine the proof.
    pub proof fn lemma_view_injective(p: DLEQProof, q: DLEQProof)
        ensures
            (p@ == q@) <==> (p == q),
    {
        Scalar::lemma_view_injective(p.ch, q.ch);
        Scalar::lemma_view_injective(p.resp, q.resp);
    }
}

/// The element that the issued value is to carry to under the secret:
/// `T - s * S`.
pub open spec fn dleq_target(s_pt: nat, t: nat, s: nat) -> nat {
    group_sub(t, group_scale(s_pt, s))
}

/// The transcript of the proof: the parameters, the statement and the two
/// commitments, in this order.
pub open spec fn dleq_transcript(
    pp: PublicParamsView,
    y_pub: nat,
    s_pt: nat,
    target: nat,
    comm1: nat,
    comm2: nat,
) -> Seq<char> {
    pp.text() + g2_text(y_pub) + g1_text(s_pt) + g1_text(target) + g2_text(comm1) + g1_text(
        comm2,
    )
}

/// What the secret is to satisfy: `y_pub` is `g2` taken `y` times, and
/// `T - s * S` is `S` taken `y` times.
pub open spec fn dleq_relation(
    pp: PublicParamsView,
    y_pub: nat,
    s_pt: nat,
    t: nat,
    s: nat,
    y: nat,
) -> bool {
    &&& y_pub == group_scale(pp.g2, y)
    &&& dleq_target(s_pt, t, s) == group_scale(s_pt, y)
}

/// The proof that the prover makes from the secret and the nonce `a`.
pub open spec fn dleq_response(
    pp: PublicParamsView,
    y_pub: nat,
    s_pt: nat,
    t: nat,
    s: nat,
    y: nat,
    a: nat,
) -> DLEQProofView {
    let comm1 = group_scale(pp.g2, a);
    let comm2 = group_scale(s_pt, a);
    let ch = challenge(dleq_transcript(pp, y_pub, s_pt, dleq_target(s_pt, t, s), comm1, comm2));
    DLEQProofView { ch, resp: field_add(a, field_mul(ch, y)) }
}

/// The first commitment as the verifier recomputes it.
pub open spec fn dleq_recommit1(pp: PublicParamsView, y_pub: nat, pi: DLEQProofView) -> nat {
    group_sub(group_scale(pp.g2, pi.resp), group_scale(y_pub, pi.ch))
}

/// The second commitment as the verifier recomputes it.
pub open spec fn dleq_recommit2(s_pt: nat, t: nat, s: nat, pi: DLEQProofView) -> nat {
    group_sub(group_scale(s_pt, pi.resp), group_scale(dleq_target(s_pt, t, s), pi.ch))
}

/// Whether the verifier accepts: the challenge of the transcript with the
/// recomputed commitments is the challenge of the proof.
pub open spec fn dleq_accepts(
    pp: PublicParamsView,
    y_pub: nat,
    s_pt: nat,
    t: nat,
    s: nat,
    pi: DLEQProofView,
) -> bool {
    pi.ch == challenge(
        dleq_transcript(
            pp,
            y_pub,
            s_pt,
            dleq_target(s_pt, t, s),
            dleq_recommit1(pp, y_pub, pi),
            dleq_recommit2(s_pt, t, s, pi),
        ),
    )
}

/// The text of the transcript.
fn dleq_transcript_text(
    pp: &PublicParams,
    y_pub: &G2Point,
    s_pt: &G1Point,
    target: &G1Point,
    comm1: &G2Point,
    comm2: &G1Point,
) -> (d: String)
    ensures
        d@ == dleq_transcript(pp@, y_pub@, s_pt@, target@, comm1@, comm2@),
{
    let mut d = pp.to_string();
    d.append(y_pub.to_string().as_str());
    d.append(s_pt.to_string().as_str());
    d.append(target.to_string().as_str());
    d.append(comm1.to_string().as_str());
    d.append(comm2.to_string().as_str());
    d
}

/// The proof made from the secret and the given nonce. It is accepted where
/// the secret satisfies the relation.
pub fn dleq_prove_with(
    pp: &PublicParams,
    y_pub: G2Point,
    s_pt: G1Point,
    t: G1Point,
    s: Scalar,
    y: Scalar,
    a: Scalar,
) -> (pi: DLEQProof)
    ensures
        pi@ == dleq_response(pp@, y_pub@, s_pt@, t@, s@, y@, a@),
        dleq_relation(pp@, y_pub@, s_pt@, t@, s@, y@) ==> dleq_accepts(
            pp@,
            y_pub@,
            s_pt@,
            t@,
            s@,
            pi@,
        ),
{
    let comm1 = pp.g2.mul(&a);
    let comm2 = s_pt.mul(&a);
    let ss = s_pt.mul(&s);
    let target = t.sub(&ss);
    let d = dleq_transcript_text(pp, &y_pub, &s_pt, &target, &comm1, &comm2);
    let ch = hash_to_scalar(d.as_str());
    let resp = a.add(&ch.mul(&y));
    proof {
        if dleq_relation(pp@, y_pub@, s_pt@, t@, s@, y@) {
            lemma_dleq_complete(pp@, y_pub@, s_pt@, t@, s@, y@, a@);
        }
    }
    DLEQProof { ch, resp }
}

/// A proof made from the secret and a fresh nonce. It is accepted where the
/// secret satisfies the relation.
pub fn dleq_prove(
    rng: &mut ThreadRng,
    pp: &PublicParams,
    y_pub: G2Point,
    s_pt: G1Point,
    t: G1Point,
    s: Scalar,
    y: Scalar,
) -> (pi: DLEQProof)
    ensures
        exists|a: nat|
            a < scalar_modulus() && pi@ == #[trigger] dleq_response(
                pp@,
                y_pub@,
                s_pt@,
                t@,
                s@,
                y@,
                a,
            ),
        dleq_relation(pp@, y_pub@, s_pt@, t@, s@, y@) ==> dleq_accepts(
            pp@,
            y_pub@,
            s_pt@,
            t@,
            s@,
            pi@,
        ),
{
    let a = Scalar::random(rng);
    let pi = dleq_prove_with(pp, y_pub, s_pt, t, s, y, a);
    proof {
        use_type_invariant(&a);
    }
    pi
}

/// Whether a proof of equal discrete logarithms is accepted for the statement
/// `y_pub`, `s_pt`, `t`, `s`.
pub fn dleq_verify(
    pp: &PublicParams,
    y_pub: G2Point,
    s_pt: G1Point,
    t: G1Point,
    s: Scalar,
    pi_s: &DLEQProof,
) -> (ok: bool)
    ensures
        ok == dleq_accepts(pp@, y_pub@, s_pt@, t@, s@, pi_s@),
{
    let target = t.sub(&s_pt.mul(&s));
    let comm1 = pp.g2.mul(&pi_s.resp).sub(&y_pub.mul(&pi_s.ch));
    let comm2 = s_pt.mul(&pi_s.resp).sub(&target.mul(&pi_s.ch));
    let d = dleq_transcript_text(pp, &y_pub, &s_pt, &target, &comm1, &comm2);
    let ch = hash_to_scalar(d.as_str());
    proof {
        Scalar::lemma_view_injective(pi_s.ch, ch);
    }
    pi_s.ch == ch
}

/// Completeness: where the secret satisfies the relation, the verifier accepts
/// the proof that the prover makes from it, whatever the nonce.
pub proof fn lemma_dleq_complete(
    pp: PublicParamsView,
    y_pub: nat,
    s_pt: nat,
    t: nat,
    s: nat,
    y: nat,
    a: nat,
)
    requires
        dleq_relation(pp, y_pub, s_pt, t, s, y),
    ensures
        dleq_accepts(pp, y_pub, s_pt, t, s, dleq_response(pp, y_pub, s_pt, t, s, y, a)),
{
    let pi = dleq_response(pp, y_pub, s_pt, t, s, y, a);
    let target = dleq_target(s_pt, t, s);
    let (g2, sp) = (pp.g2 as int, s_pt as int);
    let (yi, ai, ch) = (y as int, a as int, pi.ch as int);
    let e_resp = ai + ch * yi;
    lemma_lift_mul(pi.ch, ch, y, yi);
    lemma_lift_add(a, ai, field_mul(pi.ch, y), ch * yi);
    assert(congruent(pi.resp as int, e_resp));

    // The first commitment.
    lemma_lift_mul(pp.g2, g2, y, yi);
    lemma_lift_mul(pp.g2, g2, a, ai);
    lemma_lift_mul(pp.g2, g2, pi.resp, e_resp);
    lemma_lift_mul(y_pub, g2 * yi, pi.ch, ch);
    lemma_lift_sub(
        group_scale(pp.g2, pi.resp),
        g2 * e_resp,
        group_scale(y_pub, pi.ch),
        (g2 * yi) * ch,
    );
    assert(g2 * e_resp - (g2 * yi) * ch == g2 * ai) by (nonlinear_arith)
        requires
            e_resp == ai + ch * yi,
    ;
    lemma_congruent_reduced(dleq_recommit1(pp, y_pub, pi), group_scale(pp.g2, a));

    // The second commitment.
    lemma_lift_mul(s_pt, sp, y, yi);
    lemma_lift_mul(s_pt, sp, a, ai);
    lemma_lift_mul(s_pt, sp, pi.resp, e_resp);
    lemma_lift_mul(target, sp * yi, pi.ch, ch);
    lemma_lift_sub(
        group_scale(s_pt, pi.resp),
        sp * e_resp,
        group_scale(target, pi.ch),
        (sp * yi) * ch,
    );
    assert(sp * e_resp - (sp * yi) * ch == sp * ai) by (nonlinear_arith)
        requires
            e_resp == ai + ch * yi,
    ;
    lemma_congruent_reduced(dleq_recommit2(s_pt, t, s, pi), group_scale(s_pt, a));
}

/// Determinism: two proofs made from the same statement, the same secret and
/// the same nonce are the same proof.
pub proof fn lemma_dleq_deterministic(
    pp: PublicParamsView,
    y_pub: nat,
    s_pt: nat,
    t: nat,
    s: nat,
    y: nat,
    a: nat,
    p: DLEQProof,
    q: DLEQProof,
)
    requires
        p@ == dleq_response(pp, y_pub, s_pt, t, s, y, a),
        q@ == dleq_response(pp, y_pub, s_pt, t, s, y, a),
    ensures
        p == q,
{
    DLEQProof::lemma_view_injective(p, q);
}

/// The secret that two proofs give: the difference of the responses over the
/// difference of the challenges.
pub open spec fn dleq_extracted(p: DLEQProofView, q: DLEQProofView) -> nat {
    field_mul(field_sub(p.resp, q.resp), field_inv(field_sub(p.ch, q.ch)))
}

/// Where `base` taken `resp` times less `z` taken `ch` times is the same for
/// two proofs, and the difference of the challenges has an inverse, `z` is
/// `base` taken as many times as the secret that the proofs give.
proof fn lemma_dleq_extract(base: nat, z: nat, p: DLEQProofView, q: DLEQProofView)
    requires
        z < scalar_modulus(),
        group_sub(group_scale(base, p.resp), group_scale(z, p.ch)) == group_sub(
            group_scale(base, q.resp),
            group_scale(z, q.ch),
        ),
        has_field_inverse(field_sub(p.ch, q.ch)),
    ensures
        z == group_scale(base, dleq_extracted(p, q)),
{
    let d = field_sub(p.ch, q.ch);
    let w = field_inv(d);
    let (bi, zi, wi) = (base as int, z as int, w as int);
    let (pr, pc, qr, qc) = (p.resp as int, p.ch as int, q.resp as int, q.ch as int);
    let dw = (pc - qc) * wi;
    lemma_lift_sub(p.ch, pc, q.ch, qc);
    lemma_congruent_mul(d as int, pc - qc, wi, wi);
    assert(congruent(dw, 1));
    lemma_lift_mul(base, bi, p.resp, pr);
    lemma_lift_mul(z, zi, p.ch, pc);
    lemma_lift_sub(group_scale(base, p.resp), bi * pr, group_scale(z, p.ch), zi * pc);
    lemma_lift_mul(base, bi, q.resp, qr);
    lemma_lift_mul(z, zi, q.ch, qc);
    lemma_lift_sub(group_scale(base, q.resp), bi * qr, group_scale(z, q.ch), zi * qc);
    assert(congruent(bi * pr - zi * pc, bi * qr - zi * qc));
    // base * (pr - qr) is congruent to z * (pc - qc)
    lemma_congruent_sub(bi * pr - zi * pc, bi * qr - zi * qc, bi * qr - zi * pc, bi * qr - zi * pc);
    let lhs = bi * (pr - qr);
    let rhs = zi * (pc - qc);
    assert(lhs == (bi * pr - zi * pc) - (bi * qr - zi * pc)) by (nonlinear_arith)
        requires
            lhs == bi * (pr - qr),
    ;
    assert(rhs == (bi * qr - zi * qc) - (bi * qr - zi * pc)) by (nonlinear_arith)
        requires
            rhs == zi * (pc - qc),
    ;
    lemma_congruent_mul(lhs, rhs, wi, wi);
    lemma_congruent_mul(zi, zi, dw, 1);
    assert(rhs * wi == zi * dw) by (nonlinear_arith)
        requires
            rhs == zi * (pc - qc),
            dw == (pc - qc) * wi,
    ;
    assert(lhs * wi == bi * ((pr - qr) * wi)) by (nonlinear_arith)
        requires
            lhs == bi * (pr - qr),
    ;
    lemma_lift_sub(p.resp, pr, q.resp, qr);
    lemma_lift_mul(field_sub(p.resp, q.resp), pr - qr, w, wi);
    lemma_lift_mul(base, bi, dleq_extracted(p, q), (pr - qr) * wi);
    lemma_congruent_reduced(group_scale(base, dleq_extracted(p, q)), z);
}

/// Special soundness: two proofs that recompute to the same commitments under
/// challenges whose difference has an inverse give a secret that satisfies
/// the relation.
pub proof fn lemma_dleq_special_soundness(
    pp: PublicParamsView,
    y_pub: nat,
    s_pt: nat,
    t: nat,
    s: nat,
    p: DLEQProofView,
    q: DLEQProofView,
)
    requires
        y_pub < scalar_modulus(),
        dleq_recommit1(pp, y_pub, p) == dleq_recommit1(pp, y_pub, q),
        dleq_recommit2(s_pt, t, s, p) == dleq_recommit2(s_pt, t, s, q),
        has_field_inverse(field_sub(p.ch, q.ch)),
    ensures
        dleq_relation(pp, y_pub, s_pt, t, s, dleq_extracted(p, q)),
{
    lemma_dleq_extract(pp.g2, y_pub, p, q);
    lemma_dleq_extract(s_pt, dleq_target(s_pt, t, s), p, q);
}

} // verus!
