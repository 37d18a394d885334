//! The data types of the identifier service, and the staged helper that
//! carries a base seed and its two check digits.

use crate::checksum::{
    check_digit, compute_check_digit, compute_check_digits, first_check_digit, second_check_digit,
    shifted_base,
};
use rand::Rng;
use vstd::prelude::*;

verus! {

/// A generated identifier: its raw eleven digits, its formatted rendering,
/// and the region codes its ninth digit encodes.
#[derive(Debug, PartialEq, Eq)]
pub struct Cpf {
    pub cpf: String,
    pub cpf_formatted: String,
    pub cpf_state: Vec<String>,
}

/// The query parameters of a generation request.
#[derive(Debug)]
pub struct GenCpfInfo {
    pub qtd: Option<String>,
    pub state_code: Option<String>,
}

/// The query parameters of a validation request.
pub struct ValidateCpf {
    pub cpf: Option<String>,
}

/// The body of a generation response.
#[derive(Debug)]
pub struct CpfGenResponse {
    pub cpfs: Option<Vec<Cpf>>,
    pub message: String,
    pub quantity: Option<u32>,
    pub error: Option<String>,
}

/// The body of a validation response.
#[derive(Debug)]
pub struct ValidateResponse {
    pub is_valid: bool,
    pub error: Option<String>,
}

/// Relies on `rand::thread_rng` and `rand::Rng::gen_range` over `0..10`:
/// the range is not empty, so the call does not panic and returns a value
/// within the range.
#[verifier::external_body]
fn random_digit() -> (r: u8)
    ensures
        r < 10,
{
    rand::thread_rng().gen_range(0..10)
}

/// A base seed staged with its check digits: the seed is fixed at
/// construction, the shifted seed and the two verifier numbers are filled in
/// by [`CpfUtils::set_verifier_numbers`].
#[derive(Debug)]
pub struct CpfUtils {
    pub seed: [u8; 9],
    pub cpf_seed_with_first_verifier: Option<[u8; 9]>,
    pub first_verifier_number: Option<u8>,
    pub second_verifier_number: Option<u8>,
}

impl CpfUtils {
    /// Picks the base seed: a given seed is used verbatim; otherwise nine
    /// random digits are drawn, and a given region code overwrites the ninth.
    pub fn new(validate_seed: Option<[u8; 9]>, state_code: Option<u8>) -> (r: Self)
        ensures
            r.cpf_seed_with_first_verifier is None,
            r.first_verifier_number is None,
            r.second_verifier_number is None,
            validate_seed matches Some(s) ==> r.seed == s,
            validate_seed is None ==> match state_code {
                Some(c) => r.seed@[8] == c && forall|i: int| 0 <= i < 8 ==> r.seed@[i] < 10,
                None => forall|i: int| 0 <= i < 9 ==> r.seed@[i] < 10,
            },
    {
        Self {
            seed: match validate_seed {
                Some(seed) => seed,
                None => match state_code {
                    Some(state_code) => {
                        let mut seed = CpfUtils::random_seed();
                        seed[8] = state_code;
                        seed
                    },
                    None => CpfUtils::random_seed(),
                },
            },
            cpf_seed_with_first_verifier: None,
            first_verifier_number: None,
            second_verifier_number: None,
        }
    }

    /// The two verifier numbers, once both have been computed.
    pub fn get_verifier_numbers(&self) -> (r: [u8; 2])
        requires
            self.first_verifier_number is Some,
            self.second_verifier_number is Some,
        ensures
            r@ =~= seq![
                self.first_verifier_number->Some_0,
                self.second_verifier_number->Some_0,
            ],
    {
        [self.first_verifier_number.unwrap(), self.second_verifier_number.unwrap()]
    }

    /// Fills in the verifier numbers. On a freshly constructed value this
    /// computes the first check digit from the seed, stages the shifted seed,
    /// and computes the second check digit from it; called again, it only
    /// recomputes the second from the staged seed.
    pub fn set_verifier_numbers(&mut self)
        ensures
            final(self).seed == old(self).seed,
            match old(self).cpf_seed_with_first_verifier {
                None => {
                    &&& final(self).first_verifier_number == Some(
                        first_check_digit(old(self).seed@),
                    )
                    &&& final(self).cpf_seed_with_first_verifier matches Some(s) && s@
                        == shifted_base(old(self).seed@, first_check_digit(old(self).seed@))
                    &&& final(self).second_verifier_number == Some(
                        second_check_digit(old(self).seed@),
                    )
                },
                Some(staged) => {
                    &&& final(self).first_verifier_number == old(self).first_verifier_number
                    &&& final(self).cpf_seed_with_first_verifier == old(
                        self,
                    ).cpf_seed_with_first_verifier
                    &&& final(self).second_verifier_number == Some(check_digit(staged@) as u8)
                },
            },
    {
        match self.cpf_seed_with_first_verifier {
            Some(staged) => {
                self.second_verifier_number = Some(compute_check_digit(&staged));
            },
            None => {
                let first = compute_check_digit(&self.seed);
                self.first_verifier_number = Some(first);
                let staged = self.set_cpf_seed_with_first_verifier();
                self.cpf_seed_with_first_verifier = Some(staged);
                self.second_verifier_number = Some(compute_check_digit(&staged));
            },
        }
    }

    /// The staged seed: the base with its first digit dropped and the first
    /// verifier number appended.
    pub fn set_cpf_seed_with_first_verifier(&self) -> (r: [u8; 9])
        requires
            self.first_verifier_number is Some,
        ensures
            r@ == shifted_base(self.seed@, self.first_verifier_number->Some_0),
    {
        let first = self.first_verifier_number.unwrap();
        let mut out: [u8; 9] = [0; 9];
        let mut j: usize = 0;
        while j < 8
            invariant
                j <= 8,
                forall|k: int| 0 <= k < j ==> out@[k] == self.seed@[k + 1],
            decreases 8 - j,
        {
            out[j] = self.seed[j + 1];
            j = j + 1;
        }
        out[8] = first;
        assert(out@ =~= shifted_base(self.seed@, first));
        out
    }

    /// Nine digits drawn from the process-wide random source.
    fn random_seed() -> (r: [u8; 9])
        ensures
            forall|i: int| 0 <= i < 9 ==> r@[i] < 10,
    {
        let mut seed: [u8; 9] = [0; 9];
        let mut i: usize = 0;
        while i < 9
            invariant
                i <= 9,
                forall|k: int| 0 <= k < i ==> seed@[k] < 10,
            decreases 9 - i,
        {
            seed[i] = random_digit();
            i = i + 1;
        }
        seed
    }
}

} // verus!
