use ntat::client::Client;
use ntat::curve::{G1Point, G2Point};
use ntat::dleq::{dleq_prove_with, dleq_verify, DLEQProof};
use ntat::field::Scalar;
use ntat::issue::{issue_with, Token};
use ntat::params::PublicParams;
use ntat::rep3::{rep3_prove_with, rep3_verify, REP3Proof};

fn sc(v: u64) -> Scalar {
    Scalar::from_u64(v)
}

fn limbs(l: [u64; 4]) -> Scalar {
    Scalar::from_limbs(l).unwrap()
}

/// Parameters with the indices 2, 3, 5 and 7.
fn fixed_params() -> PublicParams {
    PublicParams {
        g1: G1Point::generator_mul(&sc(2)),
        g2: G2Point::generator_mul(&sc(3)),
        g3: G1Point::generator_mul(&sc(5)),
        g4: G1Point::generator_mul(&sc(7)),
    }
}

#[test]
fn twice_the_generator_of_g1() {
    assert_eq!(
        G1Point::generator_mul(&sc(2)).to_string(),
        "(838589206289216005799424730305866328161735431124665289961769162861615689790485775997575391185127590486775437397838, 3450209970729243429733164009999191867485184320918914219895632678707687208996709678363578245114137957452475385814312)"
    );
    assert_eq!(
        G1Point::generator_mul(&sc(1)).add(&G1Point::generator_mul(&sc(1))),
        G1Point::generator_mul(&sc(2))
    );
}

#[test]
fn twice_the_generator_of_g2() {
    assert_eq!(
        G2Point::generator_mul(&sc(2)).to_string(),
        "(QuadExtField(3419974069068927546093595533691935972093267703063689549934039433172037728172434967174817854768758291501458544631891 + 1586560233067062236092888871453626466803933380746149805590083683748120990227823365075019078675272292060187343402359 * u), QuadExtField(678774053046495337979740195232911687527971909891867263302465188023833943429943242788645503130663197220262587963545 + 2374407843478705782611042739236452317510200146460567463070514850492917978226342495167066333366894448569891658583283 * u))"
    );
    assert_eq!(
        G2Point::generator_mul(&sc(1)).mul(&sc(2)),
        G2Point::generator_mul(&sc(2))
    );
}

#[test]
fn rep3_proof_for_fixed_inputs() {
    let pp = fixed_params();
    let (x, lambda, r) = (sc(11), sc(13), sc(17));
    let x_pub = pp.g1.mul(&x);
    let t = pp.g1.mul(&x).add(&pp.g3.mul(&r)).add(&pp.g4).mul(&lambda);
    let pi = rep3_prove_with(&pp, x_pub, t, x, lambda, r, sc(101), sc(103), sc(107));
    let expected = REP3Proof {
        ch: limbs([
            0x8eea0b4995db7a53,
            0x64371f9df4a91cc7,
            0xeba82989beb37daa,
            0x321abf7433b6b7e3,
        ]),
        resp1: limbs([
            0xdbf183d18f91bed9,
            0x5455d8457cb38f67,
            0xdfe76f3cfe72d1c8,
            0x1c7e0aa197398b9d,
        ]),
        resp2: limbs([
            0x827540150c6ce0ec,
            0xf644069ac0b7f6b7,
            0xf3a3fe1aa32367d9,
            0x4ba683e1ddc9b41e,
        ]),
        resp3: limbs([
            0x3260c5ca1f3844e8,
            0x7d20b097619618fb,
            0x1613f0bf8944cfd4,
            0x395c0d2f52430ce4,
        ]),
    };
    assert_eq!(pi, expected);
    assert!(rep3_verify(&pp, x_pub, t, &expected));
}

#[test]
fn issued_reply_for_fixed_inputs() {
    let pp = fixed_params();
    let (sk_s, s, a) = (sc(23), sc(29), sc(31));
    // T = 13 * (11 * 2 + 17 * 5 + 7) times the generator
    let t = G1Point::generator_mul(&sc(13 * 114));
    let resp = issue_with(&pp, sk_s, t, s, a).unwrap();
    let expected = DLEQProof {
        ch: limbs([
            0xdc3303d36586a79e,
            0x2054a6594505504a,
            0x9bce2bbdbac4b53d,
            0x0826c2fc5a531459,
        ]),
        resp: limbs([
            0xc89557ff1f190f50,
            0x93dd4e02337bdaba,
            0xcc4c1603be0a7078,
            0x478ddd58f3d956c4,
        ]),
    };
    assert_eq!(resp.s, s);
    assert_eq!(resp.pi_s, expected);
    assert_eq!(resp.pi_s, dleq_prove_with(&pp, pp.g2.mul(&sk_s), resp.S, t, s, sk_s, a));
    assert!(dleq_verify(&pp, pp.g2.mul(&sk_s), resp.S, t, s, &expected));
}

#[test]
fn token_for_fixed_inputs() {
    let pp = fixed_params();
    let (sk_c, sk_s) = (sc(11), sc(23));
    let mut client = Client::new(&pp, pp.g2.mul(&sk_s));
    let query =
        client.client_query_with(sk_c, sc(13), sc(17), sc(101), sc(103), sc(107)).unwrap();
    let resp = issue_with(&pp, sk_s, query.T, sc(29), sc(31)).unwrap();
    let token = client.client_final(&resp).unwrap();
    // sigma is 114 / 52 times the generator
    let index = limbs([
        0x93b13b1393b13b16,
        0xb10c091409d86d13,
        0x7c10853c011c853b,
        0x0d60583ad3922bfe,
    ]);
    assert_eq!(token, Token { sigma: G1Point::generator_mul(&index), r: sc(17), s: sc(29) });
    assert_eq!(
        token.sigma.to_string(),
        "(103804169582847934791862603599511808537128055889638064636837888537601178019721707639482371669524046753034564259054, 2868165443625302907307861914673204457965118292761960576595662814439946547504126257607707062182793427621640339096274)"
    );
}
