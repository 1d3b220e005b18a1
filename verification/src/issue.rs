//! Issuance: the messages of the protocol and the server's answer to a
//! query.

use crate::congruence::{
    congruent, lemma_congruent_mul, lemma_congruent_reduced, lemma_congruent_sub,
    lemma_lift_add, lemma_lift_mul, lemma_lift_sub,
};
use crate::curve::{group_scale, G1Point};
use crate::dleq::{
    dleq_accepts, dleq_prove_with, dleq_relation, dleq_response, dleq_target,
    lemma_dleq_complete, DLEQProof, DLEQProofView,
};
use crate::field::{field_add, field_inv, has_field_inverse, scalar_modulus, Scalar};
use crate::params::{PublicParams, PublicParamsView};
use crate::rep3::{rep3_accepts, rep3_verify, REP3Proof, REP3ProofView};
use rand::rngs::ThreadRng;
use vstd::prelude::*;

verus! {

/// The client's request: the blinded commitment `T` and the proof that it is
/// well formed.
#[allow(non_snake_case)]
#[derive(Clone, Copy, Debug, PartialEq, Eq)]
pub struct Query {
    pub T: G1Point,
    pub pi_c: REP3Proof,
}

/// The server's reply: the scalar `s` that it chose, the issued element `S`
/// and the proof that `S` was made under the server's key.
#[allow(non_snake_case)]
#[derive(Clone, Copy, Debug, PartialEq, Eq)]
pub struct Response {
    pub s: Scalar,
    pub S: G1Point,
    pub pi_s: DLEQProof,
}

/// A reply without its proof.
#[allow(non_snake_case)]
#[derive(Clone, Copy, Debug, PartialEq, Eq)]
pub struct ResponsePairing {
    pub s: Scalar,
    pub S: G1Point,
}

/// The credential that the client holds after issuance.
#[derive(Clone, Copy, Debug, PartialEq, Eq)]
pub struct Token {
    pub sigma: G1Point,
    pub r: Scalar,
    pub s: Scalar,
}

/// The client's first message of a redemption.
#[derive(Clone, Copy, Debug, PartialEq, Eq)]
pub struct RedemptionProof1 {
    pub sigma_: G1Point,
    pub comm: Scalar,
}

/// The client's second message of a redemption.
#[derive(Clone, Copy, Debug, PartialEq, Eq)]
pub struct RedemptionProof2 {
    pub v0: Scalar,
    pub v1: Scalar,
    pub v2: Scalar,
    pub rho: Scalar,
}

/// The values of a query.
#[allow(non_snake_case)]
pub ghost struct QueryView {
    pub T: nat,
    pub pi_c: REP3ProofView,
}

/// The values of a reply.
#[allow(non_snake_case)]
pub ghost struct ResponseView {
    pub s: nat,
    pub S: nat,
    pub pi_s: DLEQProofView,
}

impl View for Query {
    type V = QueryView;

    open spec fn view(&self) -> QueryView {
        QueryView { T: self.T@, pi_c: self.pi_c@ }
    }
}

impl View for Response {
    type V = ResponseView;

    open spec fn view(&self) -> ResponseView {
        ResponseView { s: self.s@, S: self.S@, pi_s: self.pi_s@ }
    }
}

/// The server's public key for the secret `sk_s`.
pub open spec fn server_public_key(pp: PublicParamsView, sk_s: nat) -> nat {
    group_scale(pp.g2, sk_s)
}

/// The element issued for the commitment `t`: `t` taken `1 / (sk_s + s)`
/// times.
pub open spec fn issued_element(t: nat, sk_s: nat, s: nat) -> nat {
    group_scale(t, field_inv(field_add(sk_s, s)))
}

/// The reply that the server makes to the commitment `t` from its secret, the
/// scalar `s` and the nonce `a`.
pub open spec fn issue_response(
    pp: PublicParamsView,
    sk_s: nat,
    t: nat,
    s: nat,
    a: nat,
) -> ResponseView {
    let s_pt = issued_element(t, sk_s, s);
    ResponseView {
        s,
        S: s_pt,
        pi_s: dleq_response(pp, server_public_key(pp, sk_s), s_pt, t, s, sk_s, a),
    }
}

/// Whether a reply to the commitment `t` carries a proof that the client
/// accepts under the public key of `sk_s`.
pub open spec fn response_accepted(
    pp: PublicParamsView,
    sk_s: nat,
    t: nat,
    resp: ResponseView,
) -> bool {
    dleq_accepts(pp, server_public_key(pp, sk_s), resp.S, t, resp.s, resp.pi_s)
}

/// The reply to a commitment, made from the given scalar and nonce: there is
/// one, with a proof that is accepted under the server's public key, where
/// `sk_s + s` is not zero, and none where it is.
pub fn issue_with(pp: &PublicParams, sk_s: Scalar, t: G1Point, s: Scalar, a: Scalar) -> (r:
    Option<Response>)
    ensures
        r is Some <==> field_add(sk_s@, s@) != 0,
        r matches Some(resp) ==> resp@ == issue_response(pp@, sk_s@, t@, s@, a@)
            && response_accepted(pp@, sk_s@, t@, resp@),
{
    let exponent = match sk_s.add(&s).inverse() {
        Some(v) => v,
        None => {
            return None;
        },
    };
    let s_pt = t.mul(&exponent);
    let y_pub = pp.g2.mul(&sk_s);
    let pi_s = dleq_prove_with(pp, y_pub, s_pt, t, s, sk_s, a);
    proof {
        lemma_issue_complete(pp@, sk_s@, t@, s@, a@);
    }
    Some(Response { s, S: s_pt, pi_s })
}

/// The server's answer to a query, made from the given scalar and nonce: a
/// reply where the query's proof is accepted for the client's public key and
/// `sk_s + s` is not zero, and none otherwise.
pub fn server_issue_with(
    pp: &PublicParams,
    sk_s: Scalar,
    pk_c: G1Point,
    query: &Query,
    s: Scalar,
    a: Scalar,
) -> (r: Option<Response>)
    ensures
        r is Some <==> rep3_accepts(pp@, pk_c@, query.T@, query.pi_c@) && field_add(sk_s@, s@)
            != 0,
        r matches Some(resp) ==> resp@ == issue_response(pp@, sk_s@, query.T@, s@, a@)
            && response_accepted(pp@, sk_s@, query.T@, resp@),
{
    if !rep3_verify(pp, pk_c, query.T, &query.pi_c) {
        return None;
    }
    issue_with(pp, sk_s, query.T, s, a)
}

/// The server's answer to a query, made from a fresh scalar and a fresh
/// nonce. There is no reply where the query's proof is not accepted, nor
/// where the scalar drawn is the negative of the server's secret.
pub fn server_issue(
    rng: &mut ThreadRng,
    pp: &PublicParams,
    sk_s: Scalar,
    pk_c: G1Point,
    query: &Query,
) -> (r: Option<Response>)
    ensures
        r is Some ==> rep3_accepts(pp@, pk_c@, query.T@, query.pi_c@),
        r matches Some(resp) ==> {
            &&& field_add(sk_s@, resp.s@) != 0
            &&& exists|a: nat|
                a < scalar_modulus() && resp@ == #[trigger] issue_response(
                    pp@,
                    sk_s@,
                    query.T@,
                    resp.s@,
                    a,
                )
            &&& response_accepted(pp@, sk_s@, query.T@, resp@)
        },
{
    if !rep3_verify(pp, pk_c, query.T, &query.pi_c) {
        return None;
    }
    let s = Scalar::random(rng);
    let a = Scalar::random(rng);
    let r = issue_with(pp, sk_s, query.T, s, a);
    proof {
        use_type_invariant(&a);
        if let Some(resp) = r {
            assert(a@ < scalar_modulus() && resp@ == issue_response(
                pp@,
                sk_s@,
                query.T@,
                resp.s@,
                a@,
            ));
        }
    }
    r
}

/// Completeness of issuance: where `sk_s + s` has an inverse, the issued
/// element satisfies the relation of the proof of equal discrete logarithms
/// under the server's key, so the proof in the reply is accepted.
pub proof fn lemma_issue_complete(pp: PublicParamsView, sk_s: nat, t: nat, s: nat, a: nat)
    requires
        has_field_inverse(field_add(sk_s, s)),
    ensures
        dleq_relation(pp, server_public_key(pp, sk_s), issued_element(t, sk_s, s), t, s, sk_s),
        response_accepted(pp, sk_s, t, issue_response(pp, sk_s, t, s, a)),
{
    let d = field_add(sk_s, s);
    let inv = field_inv(d);
    let s_pt = issued_element(t, sk_s, s);
    let (ti, si, ski, di, invi) = (t as int, s as int, sk_s as int, d as int, inv as int);
    let e_s = ti * invi;
    lemma_lift_add(sk_s, ski, s, si);
    lemma_lift_mul(t, ti, inv, invi);
    lemma_lift_mul(s_pt, e_s, s, si);
    lemma_lift_mul(s_pt, e_s, sk_s, ski);
    lemma_lift_sub(t, ti, group_scale(s_pt, s), e_s * si);
    // `(sk_s + s) * inv` is congruent to one.
    lemma_congruent_mul(ski + si, di, invi, invi);
    let q = (ski + si) * invi;
    lemma_congruent_mul(ti, ti, q, 1);
    assert(e_s * ski + e_s * si == ti * q) by (nonlinear_arith)
        requires
            e_s == ti * invi,
            q == (ski + si) * invi,
    ;
    lemma_congruent_sub(e_s * ski + e_s * si, ti * 1, e_s * si, e_s * si);
    assert(congruent(e_s * ski, ti - e_s * si));
    lemma_congruent_reduced(dleq_target(s_pt, t, s), group_scale(s_pt, sk_s));
    lemma_dleq_complete(pp, server_public_key(pp, sk_s), s_pt, t, s, sk_s, a);
}

} // verus!
