//! The public parameters: the generators that client and server share.

use crate::curve::{g1_text, g2_text, G1Point, G2Point};
use crate::field::scalar_modulus;
use rand::rngs::ThreadRng;
use vstd::prelude::*;
use vstd::string::StringExecFns;

verus! {

/// The generators of a deployment: `g1`, `g3` and `g4` in the group of the
/// tokens, `g2` in the group of the server's public key.
#[derive(Clone, Copy, Debug, PartialEq, Eq)]
pub struct PublicParams {
    pub g1: G1Point,
    pub g2: G2Point,
    pub g3: G1Point,
    pub g4: G1Point,
}

/// The indices of the generators.
pub ghost struct PublicParamsView {
    pub g1: nat,
    pub g2: nat,
    pub g3: nat,
    pub g4: nat,
}

impl PublicParamsView {
    /// Every index is below the group order.
    pub open spec fn wf(self) -> bool {
        &&& self.g1 < scalar_modulus()
        &&& self.g2 < scalar_modulus()
        &&& self.g3 < scalar_modulus()
        &&& self.g4 < scalar_modulus()
    }

    /// The text that stands for the parameters in a transcript: the texts of
    /// the four generators in the order of their numbers.
    pub open spec fn text(self) -> Seq<char> {
        g1_text(self.g1) + g2_text(self.g2) + g1_text(self.g3) + g1_text(self.g4)
    }
}

impl View for PublicParams {
    type V = PublicParamsView;

    open spec fn view(&self) -> PublicParamsView {
        PublicParamsView { g1: self.g1@, g2: self.g2@, g3: self.g3@, g4: self.g4@ }
    }
}

impl PublicParams {
    /// The text that stands for the parameters in a transcript.
    pub fn to_string(&self) -> (s: String)
        ensures
            s@ == self@.text(),
    {
        let mut s = self.g1.to_string();
        s.append(self.g2.to_string().as_str());
        s.append(self.g3.to_string().as_str());
        s.append(self.g4.to_string().as_str());
        s
    }
}

/// Fresh parameters: four generators drawn from the generator of randomness.
pub fn setup(rng: &mut ThreadRng) -> (pp: PublicParams)
    ensures
        pp@.wf(),
{
    let g1 = G1Point::random(rng);
    let g2 = G2Point::random(rng);
    let g3 = G1Point::random(rng);
    let g4 = G1Point::random(rng);
    PublicParams { g1, g2, g3, g4 }
}

} // verus!
