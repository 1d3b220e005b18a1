//! The client's side of issuance: the blinded query, and the token taken from
//! the server's reply.

use crate::congruence::{
    congruent, lemma_congruent_mul, lemma_congruent_reduced, lemma_lift_add, lemma_lift_mul,
};
use crate::curve::{group_add, group_scale, G1Point, G2Point};
use crate::dleq::{dleq_accepts, dleq_verify};
use crate::field::{field_add, field_inv, has_field_inverse, scalar_modulus, Scalar};
use crate::issue::{
    issue_response, issued_element, lemma_issue_complete, response_accepted, Query, QueryView,
    Response, Token,
};
use crate::params::{PublicParams, PublicParamsView};
use crate::rep3::{
    lemma_rep3_complete, rep3_accepts, rep3_prove_with, rep3_relation, rep3_response,
};
use rand::rngs::ThreadRng;
use vstd::prelude::*;

verus! {

/// The values of a token.
pub ghost struct TokenView {
    pub sigma: nat,
    pub r: nat,
    pub s: nat,
}

impl View for Token {
    type V = TokenView;

    open spec fn view(&self) -> TokenView {
        TokenView { sigma: self.sigma@, r: self.r@, s: self.s@ }
    }
}

/// The client's public key for the secret `sk_c`.
pub open spec fn client_public_key(pp: PublicParamsView, sk_c: nat) -> nat {
    group_scale(pp.g1, sk_c)
}

/// The element that a token signs: `sk_c * g1 + r * g3 + g4`.
pub open spec fn token_base(pp: PublicParamsView, sk_c: nat, r: nat) -> nat {
    group_add(group_add(client_public_key(pp, sk_c), group_scale(pp.g3, r)), pp.g4)
}

/// The commitment of a query: the element to sign, taken `lambda` times.
pub open spec fn blinded_commitment(pp: PublicParamsView, sk_c: nat, lambda: nat, r: nat) -> nat {
    group_scale(token_base(pp, sk_c, r), lambda)
}

/// The query that a client makes from its secret, the blinding `lambda`, the
/// scalar `r` and the nonces `a`, `b` and `c`.
pub open spec fn honest_query(
    pp: PublicParamsView,
    sk_c: nat,
    lambda: nat,
    r: nat,
    a: nat,
    b: nat,
    c: nat,
) -> QueryView {
    let t = blinded_commitment(pp, sk_c, lambda, r);
    QueryView {
        T: t,
        pi_c: rep3_response(pp, client_public_key(pp, sk_c), t, sk_c, lambda, r, a, b, c),
    }
}

/// An issued element with the blinding taken off: `s_pt` taken `1 / lambda`
/// times.
pub open spec fn unblinded(s_pt: nat, lambda: nat) -> nat {
    group_scale(s_pt, field_inv(lambda))
}

/// Whether a token is a signature of the server on its base: `sigma` taken
/// `sk_s + s` times is `sk_c * g1 + r * g3 + g4`.
pub open spec fn token_valid(pp: PublicParamsView, sk_c: nat, sk_s: nat, token: TokenView) -> bool {
    group_scale(token.sigma, field_add(sk_s, token.s)) == token_base(pp, sk_c, token.r)
}

/// What a client keeps of a query until the reply comes.
#[derive(Clone, Copy, Debug, PartialEq, Eq)]
struct Blinding {
    commitment: G1Point,
    lambda: Scalar,
    r: Scalar,
}

/// The values that a client keeps of a query.
pub ghost struct BlindingView {
    pub commitment: nat,
    pub lambda: nat,
    pub r: nat,
}

/// A client: the parameters, the server's public key and, after a query, the
/// blinding of that query.
#[derive(Clone, Copy, Debug)]
pub struct Client {
    pp: PublicParams,
    pk_s: G2Point,
    pending: Option<Blinding>,
}

/// The values of a client.
pub ghost struct ClientView {
    pub pp: PublicParamsView,
    pub pk_s: nat,
    pub pending: Option<BlindingView>,
}

impl View for Client {
    type V = ClientView;

    closed spec fn view(&self) -> ClientView {
        ClientView {
            pp: self.pp@,
            pk_s: self.pk_s@,
            pending: match self.pending {
                Some(b) => Some(
                    BlindingView { commitment: b.commitment@, lambda: b.lambda@, r: b.r@ },
                ),
                None => None,
            },
        }
    }
}

impl Client {
    /// The blinding that a client keeps is not zero.
    pub open spec fn wf(self) -> bool {
        self@.pending matches Some(b) ==> b.lambda != 0
    }

    #[verifier::type_invariant]
    pub open spec fn inv(self) -> bool {
        self.wf()
    }

    /// A client that has made no query yet.
    pub fn new(pp: &PublicParams, pk_s: G2Point) -> (client: Client)
        ensures
            client@ == (ClientView { pp: pp@, pk_s: pk_s@, pending: None }),
    {
        Client { pp: *pp, pk_s, pending: None }
    }

    /// Whether the client has made a query and can take a reply.
    pub fn has_query(&self) -> (b: bool)
        ensures
            b == self@.pending is Some,
    {
        self.pending.is_some()
    }

    /// The query made from the client's secret, the given blinding and the
    /// given nonces: there is one where the blinding is not zero, and then the
    /// client keeps the blinding and the query's proof is accepted for the
    /// client's public key. Where the blinding is zero there is none, and the
    /// client is as before.
    pub fn client_query_with(
        &mut self,
        sk_c: Scalar,
        lambda: Scalar,
        r: Scalar,
        a: Scalar,
        b: Scalar,
        c: Scalar,
    ) -> (query: Option<Query>)
        ensures
            query is Some <==> lambda@ != 0,
            query is None ==> final(self)@ == old(self)@,
            query matches Some(q) ==> {
                &&& q@ == honest_query(old(self)@.pp, sk_c@, lambda@, r@, a@, b@, c@)
                &&& final(self)@ == (ClientView {
                    pending: Some(BlindingView { commitment: q.T@, lambda: lambda@, r: r@ }),
                    ..old(self)@
                })
                &&& rep3_accepts(
                    old(self)@.pp,
                    client_public_key(old(self)@.pp, sk_c@),
                    q.T@,
                    q.pi_c@,
                )
            },
    {
        if lambda.is_zero() {
            return None;
        }
        let pk_c = self.pp.g1.mul(&sk_c);
        let base = pk_c.add(&self.pp.g3.mul(&r)).add(&self.pp.g4);
        let t = base.mul(&lambda);
        let pi_c = rep3_prove_with(&self.pp, pk_c, t, sk_c, lambda, r, a, b, c);
        self.pending = Some(Blinding { commitment: t, lambda, r });
        Some(Query { T: t, pi_c })
    }

    /// A query made from the client's secret, a fresh blinding and fresh
    /// nonces. There is no query, and the client is as before, where the
    /// blinding drawn is zero.
    pub fn client_query(&mut self, rng: &mut ThreadRng, sk_c: Scalar) -> (r: Option<Query>)
        ensures
            r is None ==> final(self)@ == old(self)@,
            r matches Some(query) ==> {
                &&& exists|lambda: nat, r: nat, a: nat, b: nat, c: nat|
                    {
                        &&& 0 < lambda < scalar_modulus()
                        &&& r < scalar_modulus()
                        &&& query@ == #[trigger] honest_query(
                            old(self)@.pp,
                            sk_c@,
                            lambda,
                            r,
                            a,
                            b,
                            c,
                        )
                        &&& final(self)@ == (ClientView {
                            pending: Some(BlindingView { commitment: query.T@, lambda, r }),
                            ..old(self)@
                        })
                    }
                &&& rep3_accepts(
                    old(self)@.pp,
                    client_public_key(old(self)@.pp, sk_c@),
                    query.T@,
                    query.pi_c@,
                )
            },
    {
        let lambda = Scalar::random(rng);
        let r = Scalar::random(rng);
        let a = Scalar::random(rng);
        let b = Scalar::random(rng);
        let c = Scalar::random(rng);
        let query = self.client_query_with(sk_c, lambda, r, a, b, c);
        proof {
            use_type_invariant(&lambda);
            use_type_invariant(&r);
        }
        query
    }

    /// The token taken from the reply to the client's last query: there is
    /// one where the reply's proof is accepted under the server's public key,
    /// and none where it is not.
    pub fn client_final(&self, resp: &Response) -> (r: Option<Token>)
        requires
            self@.pending is Some,
        ensures
            r is Some <==> dleq_accepts(
                self@.pp,
                self@.pk_s,
                resp.S@,
                self@.pending->0.commitment,
                resp.s@,
                resp.pi_s@,
            ),
            r matches Some(token) ==> token@ == (TokenView {
                sigma: unblinded(resp.S@, self@.pending->0.lambda),
                r: self@.pending->0.r,
                s: resp.s@,
            }),
    {
        proof {
            use_type_invariant(self);
        }
        let blinding = match self.pending {
            Some(b) => b,
            None => vstd::pervasive::unreached(),
        };
        if !dleq_verify(&self.pp, self.pk_s, resp.S, blinding.commitment, resp.s, &resp.pi_s) {
            return None;
        }
        let lambda_inv = match blinding.lambda.inverse() {
            Some(v) => v,
            None => vstd::pervasive::unreached(),
        };
        Some(Token { sigma: resp.S.mul(&lambda_inv), r: blinding.r, s: resp.s })
    }
}

/// An honest query is accepted: where the blinding has an inverse, the
/// server's check of the query's proof succeeds for the client's public key.
pub proof fn lemma_honest_query_accepted(
    pp: PublicParamsView,
    sk_c: nat,
    lambda: nat,
    r: nat,
    a: nat,
    b: nat,
    c: nat,
)
    requires
        has_field_inverse(lambda),
    ensures
        rep3_relation(
            pp,
            client_public_key(pp, sk_c),
            blinded_commitment(pp, sk_c, lambda, r),
            sk_c,
            lambda,
            r,
        ),
        rep3_accepts(
            pp,
            client_public_key(pp, sk_c),
            honest_query(pp, sk_c, lambda, r, a, b, c).T,
            honest_query(pp, sk_c, lambda, r, a, b, c).pi_c,
        ),
{
    lemma_rep3_complete(
        pp,
        client_public_key(pp, sk_c),
        blinded_commitment(pp, sk_c, lambda, r),
        sk_c,
        lambda,
        r,
        a,
        b,
        c,
    );
}

/// An honest exchange gives a valid token: where the blinding and `sk_s + s`
/// have inverses, the element issued for the commitment of an honest query,
/// with the blinding taken off, is the server's signature on the token's
/// base.
pub proof fn lemma_token_valid(
    pp: PublicParamsView,
    sk_c: nat,
    sk_s: nat,
    lambda: nat,
    r: nat,
    s: nat,
)
    requires
        has_field_inverse(lambda),
        has_field_inverse(field_add(sk_s, s)),
    ensures
        token_valid(
            pp,
            sk_c,
            sk_s,
            TokenView {
                sigma: unblinded(
                    issued_element(blinded_commitment(pp, sk_c, lambda, r), sk_s, s),
                    lambda,
                ),
                r,
                s,
            },
        ),
{
    let base = token_base(pp, sk_c, r);
    let t = blinded_commitment(pp, sk_c, lambda, r);
    let d = field_add(sk_s, s);
    let s_pt = issued_element(t, sk_s, s);
    let sigma = unblinded(s_pt, lambda);
    let (p, lam, li) = (base as int, lambda as int, field_inv(lambda) as int);
    let (dv, di) = (d as int, field_inv(d) as int);
    lemma_lift_add(
        group_add(client_public_key(pp, sk_c), group_scale(pp.g3, r)),
        group_add(client_public_key(pp, sk_c), group_scale(pp.g3, r)) as int,
        pp.g4,
        pp.g4 as int,
    );
    lemma_lift_mul(base, p, lambda, lam);
    lemma_lift_mul(t, p * lam, field_inv(d), di);
    lemma_lift_mul(s_pt, (p * lam) * di, field_inv(lambda), li);
    lemma_lift_mul(sigma, ((p * lam) * di) * li, d, dv);
    let e = (((p * lam) * di) * li) * dv;
    let q = (lam * li) * (dv * di);
    assert(e == p * q) by (nonlinear_arith)
        requires
            e == (((p * lam) * di) * li) * dv,
            q == (lam * li) * (dv * di),
    ;
    lemma_congruent_mul(lam * li, 1, dv * di, 1);
    lemma_congruent_mul(p, p, q, 1);
    assert(congruent(e, p));
    lemma_congruent_reduced(group_scale(sigma, d), base);
}

/// An honest exchange succeeds: where the blinding and `sk_s + s` have
/// inverses, the server accepts the client's query, the client accepts the
/// server's reply under the server's public key, and the token that the
/// client takes from the reply is valid.
pub proof fn lemma_exchange_yields_token(
    pp: PublicParamsView,
    sk_c: nat,
    sk_s: nat,
    lambda: nat,
    r: nat,
    a: nat,
    b: nat,
    c: nat,
    s: nat,
    a_s: nat,
)
    requires
        has_field_inverse(lambda),
        has_field_inverse(field_add(sk_s, s)),
    ensures
        ({
            let query = honest_query(pp, sk_c, lambda, r, a, b, c);
            let resp = issue_response(pp, sk_s, query.T, s, a_s);
            let token = TokenView { sigma: unblinded(resp.S, lambda), r, s: resp.s };
            &&& rep3_accepts(pp, client_public_key(pp, sk_c), query.T, query.pi_c)
            &&& response_accepted(pp, sk_s, query.T, resp)
            &&& token_valid(pp, sk_c, sk_s, token)
        }),
{
    lemma_honest_query_accepted(pp, sk_c, lambda, r, a, b, c);
    lemma_issue_complete(pp, sk_s, blinded_commitment(pp, sk_c, lambda, r), s, a_s);
    lemma_token_valid(pp, sk_c, sk_s, lambda, r, s);
}

} // verus!
