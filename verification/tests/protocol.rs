use ntat::client::Client;
use ntat::curve::{G1Point, G2Point};
use ntat::dleq::{dleq_prove, dleq_prove_with, dleq_verify, DLEQProof};
use ntat::field::Scalar;
use ntat::hash::hash_to_scalar;
use ntat::issue::{issue_with, server_issue, server_issue_with, Query, Response, Token};
use ntat::params::{setup, PublicParams};
use ntat::rep3::{rep3_prove, rep3_prove_with, rep3_verify, REP3Proof};

fn sc(v: u64) -> Scalar {
    Scalar::from_u64(v)
}

/// Parameters with known indices: 2, 3, 5 and 7.
fn fixed_params() -> PublicParams {
    PublicParams {
        g1: G1Point::generator_mul(&sc(2)),
        g2: G2Point::generator_mul(&sc(3)),
        g3: G1Point::generator_mul(&sc(5)),
        g4: G1Point::generator_mul(&sc(7)),
    }
}

/// The commitment `lambda * (x * g1 + r * g3 + g4)`.
fn commitment(pp: &PublicParams, x: &Scalar, lambda: &Scalar, r: &Scalar) -> G1Point {
    pp.g1.mul(x).add(&pp.g3.mul(r)).add(&pp.g4).mul(lambda)
}

fn rep3_transcript(
    pp: &PublicParams,
    x_pub: &G1Point,
    t: &G1Point,
    c1: &G1Point,
    c2: &G1Point,
) -> String {
    [pp.to_string(), x_pub.to_string(), t.to_string(), c1.to_string(), c2.to_string()].concat()
}

#[test]
fn rep3_proof_has_the_stated_challenge_and_responses() {
    let pp = fixed_params();
    let (x, lambda, r) = (sc(11), sc(13), sc(17));
    let (a, b, c) = (sc(101), sc(103), sc(107));
    let x_pub = pp.g1.mul(&x);
    let t = commitment(&pp, &x, &lambda, &r);
    let pi = rep3_prove_with(&pp, x_pub, t, x, lambda, r, a, b, c);

    let comm1 = pp.g1.mul(&a);
    let comm2 = pp.g1.mul(&a).add(&pp.g3.mul(&b)).add(&t.mul(&c));
    let ch = hash_to_scalar(&rep3_transcript(&pp, &x_pub, &t, &comm1, &comm2));
    assert_eq!(pi.ch, ch);
    assert_eq!(pi.resp1, a.sub(&ch.mul(&x)));
    assert_eq!(pi.resp2, b.sub(&ch.mul(&r)));
    assert_eq!(pi.resp3, c.add(&ch.mul(&lambda.inverse().unwrap())));
}

#[test]
fn rep3_verifier_recomputes_the_stated_commitments() {
    let pp = fixed_params();
    let x_pub = G1Point::generator_mul(&sc(19));
    let t = G1Point::generator_mul(&sc(23));
    let (resp1, resp2, resp3) = (sc(29), sc(31), sc(37));
    let seed = sc(41);
    // The commitments that the verifier recomputes for the challenge `seed`.
    let comm1 = pp.g1.mul(&resp1).add(&x_pub.mul(&seed));
    let comm2 =
        pp.g1.mul(&resp1).add(&pp.g3.mul(&resp2)).add(&t.mul(&resp3)).sub(&pp.g4.mul(&seed));
    let ch = hash_to_scalar(&rep3_transcript(&pp, &x_pub, &t, &comm1, &comm2));
    let pi = REP3Proof { ch: seed, resp1, resp2, resp3 };
    assert_eq!(rep3_verify(&pp, x_pub, t, &pi), ch == seed);
    assert!(!rep3_verify(&pp, x_pub, t, &pi));
}

#[test]
fn rep3_honest_proof_is_accepted() {
    let mut rng = rand::thread_rng();
    let pp = setup(&mut rng);
    let x = Scalar::random(&mut rng);
    let lambda = Scalar::random(&mut rng);
    let r = Scalar::random(&mut rng);
    let x_pub = pp.g1.mul(&x);
    let t = commitment(&pp, &x, &lambda, &r);
    let pi = rep3_prove(&mut rng, &pp, x_pub, t, x, lambda, r);
    assert!(rep3_verify(&pp, x_pub, t, &pi));
    let fixed = fixed_params();
    let x_pub = fixed.g1.mul(&x);
    let t = commitment(&fixed, &x, &lambda, &r);
    let pi = rep3_prove_with(&fixed, x_pub, t, x, lambda, r, sc(1), sc(2), sc(3));
    assert!(rep3_verify(&fixed, x_pub, t, &pi));
}

#[test]
fn rep3_proof_of_a_false_statement_is_rejected() {
    let mut rng = rand::thread_rng();
    let pp = fixed_params();
    let (x, lambda, r) = (sc(11), sc(13), sc(17));
    let x_pub = pp.g1.mul(&x);
    let t = commitment(&pp, &x, &lambda, &r);
    // wrong secret, wrong blinding, wrong commitment
    let pi = rep3_prove(&mut rng, &pp, x_pub, t, sc(12), lambda, r);
    assert!(!rep3_verify(&pp, x_pub, t, &pi));
    let pi = rep3_prove(&mut rng, &pp, x_pub, t, x, sc(14), r);
    assert!(!rep3_verify(&pp, x_pub, t, &pi));
    let pi = rep3_prove(&mut rng, &pp, x_pub, t, x, lambda, r);
    assert!(rep3_verify(&pp, x_pub, t, &pi));
    assert!(!rep3_verify(&pp, x_pub, t.add(&pp.g1), &pi));
    assert!(!rep3_verify(&pp, x_pub.add(&pp.g1), t, &pi));
    let mut other = pp;
    other.g4 = pp.g4.add(&pp.g1);
    assert!(!rep3_verify(&other, x_pub, t, &pi));
}

#[test]
fn rep3_mutated_proof_is_rejected() {
    let mut rng = rand::thread_rng();
    let pp = setup(&mut rng);
    let (x, lambda, r) = (Scalar::random(&mut rng), sc(5), Scalar::random(&mut rng));
    let x_pub = pp.g1.mul(&x);
    let t = commitment(&pp, &x, &lambda, &r);
    let pi = rep3_prove(&mut rng, &pp, x_pub, t, x, lambda, r);
    assert!(rep3_verify(&pp, x_pub, t, &pi));
    let one = sc(1);
    let mutations = [
        REP3Proof { ch: pi.ch.add(&one), ..pi },
        REP3Proof { resp1: pi.resp1.add(&one), ..pi },
        REP3Proof { resp2: pi.resp2.add(&one), ..pi },
        REP3Proof { resp3: pi.resp3.add(&one), ..pi },
        REP3Proof { ch: pi.ch.neg(), ..pi },
        REP3Proof { resp1: pi.resp2, resp2: pi.resp1, ..pi },
    ];
    for m in mutations.iter() {
        assert!(!rep3_verify(&pp, x_pub, t, m));
    }
}

#[test]
fn rep3_two_transcripts_give_the_secrets() {
    let pp = fixed_params();
    let (x, lambda, r) = (sc(11), sc(13), sc(17));
    let (a, b, c) = (sc(101), sc(103), sc(107));
    let x_pub = pp.g1.mul(&x);
    let t = commitment(&pp, &x, &lambda, &r);
    // Two answers to the challenges 1000 and 2000 from the same nonces.
    let lambda_inv = lambda.inverse().unwrap();
    let answer = |ch: Scalar| REP3Proof {
        ch,
        resp1: a.sub(&ch.mul(&x)),
        resp2: b.sub(&ch.mul(&r)),
        resp3: c.add(&ch.mul(&lambda_inv)),
    };
    let (p, q) = (answer(sc(1000)), answer(sc(2000)));
    // Both recompute to the prover's first commitment.
    assert_eq!(pp.g1.mul(&p.resp1).add(&x_pub.mul(&p.ch)), pp.g1.mul(&a));
    assert_eq!(pp.g1.mul(&q.resp1).add(&x_pub.mul(&q.ch)), pp.g1.mul(&a));
    let w = q.ch.sub(&p.ch).inverse().unwrap();
    assert_eq!(p.resp1.sub(&q.resp1).mul(&w), x);
    assert_eq!(p.resp2.sub(&q.resp2).mul(&w), r);
    assert_eq!(q.resp3.sub(&p.resp3).mul(&w), lambda_inv);
    // mu * T = X + r * g3 + g4
    assert_eq!(t.mul(&lambda_inv), x_pub.add(&pp.g3.mul(&r)).add(&pp.g4));
}

#[test]
fn dleq_two_transcripts_give_the_secret() {
    let pp = fixed_params();
    let (y, s, a) = (sc(11), sc(13), sc(101));
    let y_pub = pp.g2.mul(&y);
    let s_pt = G1Point::generator_mul(&sc(19));
    let t = s_pt.mul(&y.add(&s));
    let answer = |ch: Scalar| DLEQProof { ch, resp: a.add(&ch.mul(&y)) };
    let (p, q) = (answer(sc(1000)), answer(sc(2000)));
    assert_eq!(pp.g2.mul(&p.resp).sub(&y_pub.mul(&p.ch)), pp.g2.mul(&a));
    assert_eq!(pp.g2.mul(&q.resp).sub(&y_pub.mul(&q.ch)), pp.g2.mul(&a));
    let extracted = p.resp.sub(&q.resp).mul(&p.ch.sub(&q.ch).inverse().unwrap());
    assert_eq!(extracted, y);
    assert_eq!(t.sub(&s_pt.mul(&s)), s_pt.mul(&extracted));
}

#[test]
fn rep3_prover_is_deterministic_in_its_nonces() {
    let pp = fixed_params();
    let (x, lambda, r) = (sc(11), sc(13), sc(17));
    let x_pub = pp.g1.mul(&x);
    let t = commitment(&pp, &x, &lambda, &r);
    let first = rep3_prove_with(&pp, x_pub, t, x, lambda, r, sc(1), sc(2), sc(3));
    let second = rep3_prove_with(&pp, x_pub, t, x, lambda, r, sc(1), sc(2), sc(3));
    assert_eq!(first, second);
    assert!(rep3_verify(&pp, x_pub, t, &first));
    let third = rep3_prove_with(&pp, x_pub, t, x, lambda, r, sc(1), sc(2), sc(4));
    assert_ne!(first, third);
    assert!(rep3_verify(&pp, x_pub, t, &third));
}

fn dleq_transcript(
    pp: &PublicParams,
    y_pub: &G2Point,
    s_pt: &G1Point,
    target: &G1Point,
    c1: &G2Point,
    c2: &G1Point,
) -> String {
    [
        pp.to_string(),
        y_pub.to_string(),
        s_pt.to_string(),
        target.to_string(),
        c1.to_string(),
        c2.to_string(),
    ]
    .concat()
}

#[test]
fn dleq_proof_has_the_stated_challenge_and_response() {
    let pp = fixed_params();
    let (y, s, a) = (sc(11), sc(13), sc(101));
    let y_pub = pp.g2.mul(&y);
    let s_pt = G1Point::generator_mul(&sc(19));
    // T = (y + s) * S
    let t = s_pt.mul(&y.add(&s));
    let pi = dleq_prove_with(&pp, y_pub, s_pt, t, s, y, a);
    let target = t.sub(&s_pt.mul(&s));
    assert_eq!(target, s_pt.mul(&y));
    let (comm1, comm2) = (pp.g2.mul(&a), s_pt.mul(&a));
    let ch = hash_to_scalar(&dleq_transcript(&pp, &y_pub, &s_pt, &target, &comm1, &comm2));
    assert_eq!(pi.ch, ch);
    assert_eq!(pi.resp, a.add(&ch.mul(&y)));
    assert!(dleq_verify(&pp, y_pub, s_pt, t, s, &pi));
}

#[test]
fn dleq_verifier_recomputes_the_stated_commitments() {
    let pp = fixed_params();
    let y_pub = G2Point::generator_mul(&sc(19));
    let s_pt = G1Point::generator_mul(&sc(23));
    let t = G1Point::generator_mul(&sc(29));
    let (s, resp, seed) = (sc(31), sc(37), sc(41));
    let target = t.sub(&s_pt.mul(&s));
    let comm1 = pp.g2.mul(&resp).sub(&y_pub.mul(&seed));
    let comm2 = s_pt.mul(&resp).sub(&target.mul(&seed));
    let ch = hash_to_scalar(&dleq_transcript(&pp, &y_pub, &s_pt, &target, &comm1, &comm2));
    let pi = DLEQProof { ch: seed, resp };
    assert_eq!(dleq_verify(&pp, y_pub, s_pt, t, s, &pi), ch == seed);
    assert!(!dleq_verify(&pp, y_pub, s_pt, t, s, &pi));
}

#[test]
fn dleq_honest_proof_is_accepted_and_mutations_are_not() {
    let mut rng = rand::thread_rng();
    let pp = setup(&mut rng);
    let (y, s) = (Scalar::random(&mut rng), Scalar::random(&mut rng));
    let y_pub = pp.g2.mul(&y);
    let s_pt = G1Point::random(&mut rng);
    let t = s_pt.mul(&y.add(&s));
    let pi = dleq_prove(&mut rng, &pp, y_pub, s_pt, t, s, y);
    assert!(dleq_verify(&pp, y_pub, s_pt, t, s, &pi));
    let one = sc(1);
    assert!(!dleq_verify(&pp, y_pub, s_pt, t, s, &DLEQProof { ch: pi.ch.add(&one), ..pi }));
    assert!(!dleq_verify(&pp, y_pub, s_pt, t, s, &DLEQProof { resp: pi.resp.add(&one), ..pi }));
    assert!(!dleq_verify(&pp, y_pub, s_pt, t, s.add(&one), &pi));
    assert!(!dleq_verify(&pp, y_pub, s_pt, t.add(&pp.g1), s, &pi));
    assert!(!dleq_verify(&pp, pp.g2.mul(&y.add(&one)), s_pt, t, s, &pi));
    // a secret that does not match the public key
    let wrong = dleq_prove(&mut rng, &pp, y_pub, s_pt, t, s, y.add(&one));
    assert!(!dleq_verify(&pp, y_pub, s_pt, t, s, &wrong));
}

#[test]
fn dleq_prover_is_deterministic_in_its_nonce() {
    let pp = fixed_params();
    let (y, s) = (sc(11), sc(13));
    let y_pub = pp.g2.mul(&y);
    let s_pt = G1Point::generator_mul(&sc(19));
    let t = s_pt.mul(&y.add(&s));
    let first = dleq_prove_with(&pp, y_pub, s_pt, t, s, y, sc(5));
    assert_eq!(first, dleq_prove_with(&pp, y_pub, s_pt, t, s, y, sc(5)));
    assert_ne!(first, dleq_prove_with(&pp, y_pub, s_pt, t, s, y, sc(6)));
    assert!(dleq_verify(&pp, y_pub, s_pt, t, s, &first));
}

fn honest_query(pp: &PublicParams, sk_c: &Scalar) -> (Query, Scalar, Scalar) {
    let (lambda, r) = (sc(13), sc(17));
    let t = commitment(pp, sk_c, &lambda, &r);
    let pi_c = rep3_prove_with(pp, pp.g1.mul(sk_c), t, *sk_c, lambda, r, sc(1), sc(2), sc(3));
    (Query { T: t, pi_c }, lambda, r)
}

#[test]
fn issue_gives_the_stated_element_and_proof() {
    let pp = fixed_params();
    let (sk_c, sk_s, s, a) = (sc(11), sc(23), sc(29), sc(31));
    let (query, _, _) = honest_query(&pp, &sk_c);
    let resp = server_issue_with(&pp, sk_s, pp.g1.mul(&sk_c), &query, s, a).unwrap();
    let exponent = sk_s.add(&s).inverse().unwrap();
    assert_eq!(resp.s, s);
    assert_eq!(resp.S, query.T.mul(&exponent));
    assert_eq!(resp.S.mul(&sk_s.add(&s)), query.T);
    assert_eq!(resp.pi_s, dleq_prove_with(&pp, pp.g2.mul(&sk_s), resp.S, query.T, s, sk_s, a));
    assert!(dleq_verify(&pp, pp.g2.mul(&sk_s), resp.S, query.T, resp.s, &resp.pi_s));
    assert_eq!(Some(resp), issue_with(&pp, sk_s, query.T, s, a));
}

#[test]
fn issue_gives_no_reply_where_the_scalar_cancels_the_secret() {
    let pp = fixed_params();
    let (sk_c, sk_s) = (sc(11), sc(23));
    let (query, _, _) = honest_query(&pp, &sk_c);
    let pk_c = pp.g1.mul(&sk_c);
    // s = -sk_s, so that sk_s + s is zero
    let s = sk_s.neg();
    assert!(sk_s.add(&s).is_zero());
    assert_eq!(issue_with(&pp, sk_s, query.T, s, sc(31)), None);
    assert_eq!(server_issue_with(&pp, sk_s, pk_c, &query, s, sc(31)), None);
    // the next scalar gives sk_s + s = 1, and the reply is T itself
    let next = s.add(&sc(1));
    let resp = server_issue_with(&pp, sk_s, pk_c, &query, next, sc(31)).unwrap();
    assert_eq!(resp.s, next);
    assert_eq!(resp.S, query.T);
    assert_eq!(issue_with(&pp, sk_s, query.T, next, sc(31)), Some(resp));
}

#[test]
fn issue_refuses_a_query_that_does_not_verify() {
    let mut rng = rand::thread_rng();
    let pp = fixed_params();
    let (sk_c, sk_s) = (sc(11), sc(23));
    let (query, _, _) = honest_query(&pp, &sk_c);
    let pk_c = pp.g1.mul(&sk_c);
    assert!(server_issue(&mut rng, &pp, sk_s, pk_c, &query).is_some());
    let mut bad = query;
    bad.pi_c.resp2 = bad.pi_c.resp2.add(&sc(1));
    assert_eq!(server_issue(&mut rng, &pp, sk_s, pk_c, &bad), None);
    assert_eq!(server_issue_with(&pp, sk_s, pk_c, &bad, sc(1), sc(2)), None);
    let mut moved = query;
    moved.T = moved.T.add(&pp.g3);
    assert_eq!(server_issue(&mut rng, &pp, sk_s, pk_c, &moved), None);
}

#[test]
fn issue_is_bound_to_the_client_key_of_the_query() {
    let mut rng = rand::thread_rng();
    let pp = setup(&mut rng);
    let sk_c = Scalar::random(&mut rng);
    let other_sk_c = Scalar::random(&mut rng);
    let sk_s = Scalar::random(&mut rng);
    let (query, _, _) = honest_query(&pp, &sk_c);
    assert!(server_issue(&mut rng, &pp, sk_s, pp.g1.mul(&sk_c), &query).is_some());
    assert_eq!(server_issue(&mut rng, &pp, sk_s, pp.g1.mul(&other_sk_c), &query), None);
}

#[test]
fn issued_reply_passes_the_client_check() {
    let mut rng = rand::thread_rng();
    let pp = setup(&mut rng);
    let (sk_c, sk_s) = (Scalar::random(&mut rng), Scalar::random(&mut rng));
    let pk_s = pp.g2.mul(&sk_s);
    let (query, _, _) = honest_query(&pp, &sk_c);
    let resp = server_issue(&mut rng, &pp, sk_s, pp.g1.mul(&sk_c), &query).unwrap();
    assert!(dleq_verify(&pp, pk_s, resp.S, query.T, resp.s, &resp.pi_s));
    assert_eq!(resp.S.mul(&sk_s.add(&resp.s)), query.T);
    // a reply made under another key does not pass
    let forged = server_issue(&mut rng, &pp, sk_s.add(&sc(1)), pp.g1.mul(&sk_c), &query).unwrap();
    assert!(!dleq_verify(&pp, pk_s, forged.S, query.T, forged.s, &forged.pi_s));
}

#[test]
fn client_query_is_the_stated_commitment_and_proof() {
    let pp = fixed_params();
    let (sk_c, lambda, r) = (sc(11), sc(13), sc(17));
    let mut client = Client::new(&pp, pp.g2.mul(&sc(23)));
    assert!(!client.has_query());
    let query = client.client_query_with(sk_c, lambda, r, sc(1), sc(2), sc(3)).unwrap();
    assert!(client.has_query());
    let (expected, _, _) = honest_query(&pp, &sk_c);
    assert_eq!(query, expected);
    // T = 13 * (11 * 2 + 17 * 5 + 7) = 13 * 114 times the generator
    assert_eq!(query.T, G1Point::generator_mul(&sc(13 * 114)));
    assert!(rep3_verify(&pp, pp.g1.mul(&sk_c), query.T, &query.pi_c));
}

#[test]
fn client_query_with_zero_blinding_gives_none_and_keeps_the_client() {
    let pp = fixed_params();
    let sk_c = sc(11);
    let mut client = Client::new(&pp, pp.g2.mul(&sc(23)));
    assert_eq!(client.client_query_with(sk_c, sc(0), sc(17), sc(1), sc(2), sc(3)), None);
    assert!(!client.has_query());
    // after a query, a zero blinding leaves the blinding of that query in place
    let query = client.client_query_with(sk_c, sc(13), sc(17), sc(1), sc(2), sc(3)).unwrap();
    assert_eq!(client.client_query_with(sk_c, sc(0), sc(19), sc(1), sc(2), sc(3)), None);
    assert!(client.has_query());
    let resp = issue_with(&pp, sc(23), query.T, sc(29), sc(4)).unwrap();
    let token = client.client_final(&resp).unwrap();
    assert_eq!(token.r, sc(17));
}

#[test]
fn exchange_yields_a_valid_token() {
    let mut rng = rand::thread_rng();
    let pp = setup(&mut rng);
    let (sk_c, sk_s) = (Scalar::random(&mut rng), Scalar::random(&mut rng));
    let (pk_c, pk_s) = (pp.g1.mul(&sk_c), pp.g2.mul(&sk_s));
    let mut client = Client::new(&pp, pk_s);
    let query = client.client_query(&mut rng, sk_c).unwrap();
    let resp = server_issue(&mut rng, &pp, sk_s, pk_c, &query).unwrap();
    let token = client.client_final(&resp).unwrap();
    assert_eq!(token.s, resp.s);
    // sigma taken sk_s + s times is sk_c * g1 + r * g3 + g4
    let base = pk_c.add(&pp.g3.mul(&token.r)).add(&pp.g4);
    assert_eq!(token.sigma.mul(&sk_s.add(&token.s)), base);
    // the same reply gives the same token again
    assert_eq!(client.client_final(&resp), Some(token));
}

#[test]
fn client_final_takes_the_blinding_off() {
    let pp = fixed_params();
    let (sk_c, sk_s, lambda, r, s) = (sc(11), sc(23), sc(13), sc(17), sc(29));
    let mut client = Client::new(&pp, pp.g2.mul(&sk_s));
    let query = client.client_query_with(sk_c, lambda, r, sc(1), sc(2), sc(3)).unwrap();
    let resp = issue_with(&pp, sk_s, query.T, s, sc(4)).unwrap();
    let token = client.client_final(&resp).unwrap();
    let expected = Token { sigma: resp.S.mul(&lambda.inverse().unwrap()), r, s };
    assert_eq!(token, expected);
    // 114 / (23 + 29) times the generator
    assert_eq!(token.sigma, G1Point::generator_mul(&sc(114).mul(&sc(52).inverse().unwrap())));
}

#[test]
fn client_final_refuses_a_reply_that_does_not_verify() {
    let mut rng = rand::thread_rng();
    let pp = setup(&mut rng);
    let (sk_c, sk_s) = (Scalar::random(&mut rng), Scalar::random(&mut rng));
    let mut client = Client::new(&pp, pp.g2.mul(&sk_s));
    let query = client.client_query(&mut rng, sk_c).unwrap();
    let resp = server_issue(&mut rng, &pp, sk_s, pp.g1.mul(&sk_c), &query).unwrap();
    let one = sc(1);
    let tampered = [
        Response { s: resp.s.add(&one), ..resp },
        Response { S: resp.S.add(&pp.g1), ..resp },
        Response { pi_s: DLEQProof { ch: resp.pi_s.ch.add(&one), ..resp.pi_s }, ..resp },
        Response { pi_s: DLEQProof { resp: resp.pi_s.resp.add(&one), ..resp.pi_s }, ..resp },
    ];
    for bad in tampered.iter() {
        assert_eq!(client.client_final(bad), None);
    }
    // a reply from a server with another key
    let other = server_issue(&mut rng, &pp, sk_s.add(&one), pp.g1.mul(&sk_c), &query).unwrap();
    assert_eq!(client.client_final(&other), None);
    // a reply to an earlier query
    let _later = client.client_query(&mut rng, sk_c).unwrap();
    assert_eq!(client.client_final(&resp), None);
}
