//! Anonymous single-use tokens over BLS12-381: the zero-knowledge proofs of the
//! issuance protocol, the server's issuance step and the client's side of it.
//!
//! Group elements are modelled by their discrete logarithm to the standard
//! generator, so the two groups become the integers modulo the group order and
//! every contract is a statement of modular arithmetic. The Fiat-Shamir hash
//! and the texts of group elements are named, not defined: a contract says
//! which transcript is hashed, not what the hash is.

pub mod client;
pub mod congruence;
pub mod curve;
pub mod dleq;
pub mod field;
pub mod hash;
pub mod issue;
pub mod params;
pub mod rep3;

pub use crate::client::Client;
pub use crate::curve::{G1Point, G2Point};
pub use crate::dleq::{dleq_prove, dleq_prove_with, dleq_verify, DLEQProof};
pub use crate::field::Scalar;
pub use crate::issue::{
    issue_with, server_issue, server_issue_with, Query, RedemptionProof1, RedemptionProof2,
    Response, ResponsePairing, Token,
};
pub use crate::params::{setup, PublicParams};
pub use crate::rep3::{rep3_prove, rep3_prove_with, rep3_verify, REP3Proof};
