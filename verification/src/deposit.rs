//! The deposit batch: decoding, structural validation, gas metering, and
//! the aggregation of per-request verification outcomes.
//!
//! The cryptographic side of verification — parsing a commitment, decoding
//! an asset descriptor, deserializing a proof and running it through the
//! zero-knowledge verification oracle — is an external collaborator of this
//! library. The host performs those steps for every request of a batch and
//! reports one [`StepOutcome`] per request; [`Deposit::check`] applies the
//! verified part (the 128-bit range check on every amount and the mapping
//! onto the stable error kinds) and reduces the batch to a single result:
//! success exactly when every request succeeds, and otherwise the first
//! failing request's error.

use crate::abi::spec_decode;
use crate::abi::BatchView;
use crate::abi::decode_bytes_array;
use crate::abi::decode_word_array;
use crate::amount::WideUint;
use crate::amount::be_val;
use crate::error::Error;
use vstd::arithmetic::power2::pow2;
use vstd::prelude::*;

verus! {

/// Gas charged per request of a batch, a protocol-level constant.
pub const DEPOSIT_VERIFY_PER_GAS: u64 = 50000;

/// What the host's oracle pipeline reports for one request, in the order
/// the steps run: decode the asset identifier, parse the output commitment,
/// deserialize the proof, then ask the verification oracle. The first
/// failing step is reported; `Accepted` means every step passed.
#[derive(Clone, Copy, Debug, PartialEq, Eq, Structural)]
pub enum StepOutcome {
    /// The asset identifier bytes did not resolve to an asset descriptor.
    AssetInvalid,
    /// The output commitment bytes did not parse into a commitment value.
    CommitmentInvalid,
    /// The proof bytes did not deserialize into a proof object.
    ProofInvalid,
    /// The proof deserialized but the oracle rejected it, or the oracle
    /// faulted internally.
    Rejected,
    /// Every step passed: the oracle accepted the proof.
    Accepted,
}

/// The verdict on one request: an amount beyond the unsigned 128-bit range
/// fails before the oracle pipeline is consulted; otherwise the pipeline's
/// outcome is mapped onto the stable error kinds.
pub open spec fn request_verdict(amount: nat, outcome: StepOutcome) -> Result<(), Error> {
    if amount >= pow2(128) {
        Err(Error::ParseDataFailed)
    } else {
        match outcome {
            StepOutcome::AssetInvalid => Err(Error::AssetDecodeFailed),
            StepOutcome::CommitmentInvalid => Err(Error::ParseDataFailed),
            StepOutcome::ProofInvalid => Err(Error::ProofDecodeFailed),
            StepOutcome::Rejected => Err(Error::ProofVerificationFailed),
            StepOutcome::Accepted => Ok(()),
        }
    }
}

/// The batch verdict, examined from request `i` on: the first failing
/// request's error, or success when every request from `i` on succeeds.
pub open spec fn batch_verdict_from(
    amounts: Seq<nat>,
    outcomes: Seq<StepOutcome>,
    i: int,
) -> Result<(), Error>
    decreases amounts.len() - i,
{
    if i < 0 || i >= amounts.len() {
        Ok(())
    } else {
        match request_verdict(amounts[i], outcomes[i]) {
            Err(e) => Err(e),
            Ok(()) => batch_verdict_from(amounts, outcomes, i + 1),
        }
    }
}

/// The verdict on a whole batch: success exactly when every request
/// succeeds, and otherwise the first failing request's error.
pub open spec fn batch_verdict(amounts: Seq<nat>, outcomes: Seq<StepOutcome>) -> Result<
    (),
    Error,
> {
    batch_verdict_from(amounts, outcomes, 0)
}

proof fn lemma_verdict_skip_ok_prefix(amounts: Seq<nat>, outcomes: Seq<StepOutcome>, i: int)
    requires
        0 <= i <= amounts.len(),
        forall|t: int| 0 <= t < i ==> request_verdict(amounts[t], outcomes[t]) is Ok,
    ensures
        batch_verdict(amounts, outcomes) == batch_verdict_from(amounts, outcomes, i),
    decreases i,
{
    if i > 0 {
        lemma_verdict_skip_ok_prefix(amounts, outcomes, i - 1);
    }
}

/// The all-or-nothing law of batch verification: the batch succeeds exactly
/// when every one of its requests succeeds, and a failing batch reports the
/// error of its first failing request. In particular the pass/fail verdict
/// does not depend on the order in which the independent per-request
/// verifications were evaluated, only on their outcomes.
pub proof fn lemma_batch_verdict_characterized(amounts: Seq<nat>, outcomes: Seq<StepOutcome>)
    requires
        amounts.len() == outcomes.len(),
    ensures
        batch_verdict(amounts, outcomes) is Ok <==> (forall|i: int|
            0 <= i < amounts.len() ==> request_verdict(amounts[i], outcomes[i]) is Ok),
        batch_verdict(amounts, outcomes) matches Err(e) ==> exists|i: int|
            {
                &&& 0 <= i < amounts.len()
                &&& #[trigger] request_verdict(amounts[i], outcomes[i]) == Err::<(), Error>(e)
                &&& forall|t: int| 0 <= t < i ==> request_verdict(amounts[t], outcomes[t]) is Ok
            },
{
    lemma_batch_verdict_from_characterized(amounts, outcomes, 0);
}

proof fn lemma_batch_verdict_from_characterized(
    amounts: Seq<nat>,
    outcomes: Seq<StepOutcome>,
    i: int,
)
    requires
        amounts.len() == outcomes.len(),
        0 <= i <= amounts.len(),
    ensures
        batch_verdict_from(amounts, outcomes, i) is Ok <==> (forall|t: int|
            i <= t < amounts.len() ==> request_verdict(amounts[t], outcomes[t]) is Ok),
        batch_verdict_from(amounts, outcomes, i) matches Err(e) ==> exists|t: int|
            {
                &&& i <= t < amounts.len()
                &&& #[trigger] request_verdict(amounts[t], outcomes[t]) == Err::<(), Error>(e)
                &&& forall|u: int| i <= u < t ==> request_verdict(amounts[u], outcomes[u]) is Ok
            },
    decreases amounts.len() - i,
{
    if i < amounts.len() {
        lemma_batch_verdict_from_characterized(amounts, outcomes, i + 1);
    }
}

/// Flipping one request to a failing outcome fails the whole batch: if any
/// request's verdict is an error — for instance because its amount exceeds
/// the unsigned 128-bit range, or because the oracle rejected its proof —
/// the batch verdict is an error, whatever the other requests report.
pub proof fn lemma_one_failure_fails_batch(
    amounts: Seq<nat>,
    outcomes: Seq<StepOutcome>,
    i: int,
)
    requires
        amounts.len() == outcomes.len(),
        0 <= i < amounts.len(),
        request_verdict(amounts[i], outcomes[i]) is Err,
    ensures
        batch_verdict(amounts, outcomes) is Err,
{
    lemma_batch_verdict_characterized(amounts, outcomes);
}

/// An amount beyond the unsigned 128-bit range deterministically fails its
/// request as a numeric-conversion failure, whatever the oracle pipeline
/// reported: it is never wrapped or truncated.
pub proof fn lemma_oversized_amount_fails(amount: nat, outcome: StepOutcome)
    requires
        amount >= pow2(128),
    ensures
        request_verdict(amount, outcome) == Err::<(), Error>(Error::ParseDataFailed),
{
}

/// An empty batch trivially succeeds, whatever the sequences are.
pub proof fn lemma_empty_batch_succeeds(amounts: Seq<nat>, outcomes: Seq<StepOutcome>)
    requires
        amounts.len() == 0,
    ensures
        batch_verdict(amounts, outcomes) is Ok,
{
}

/// A decoded batch of deposit requests: six parallel sequences of equal
/// length, one entry per request. Built only by [`Deposit::new`], and
/// read-only afterwards.
pub struct Deposit {
    outputs: Vec<Vec<u8>>,
    assets: Vec<Vec<u8>>,
    amounts: Vec<WideUint>,
    proofs: Vec<Vec<u8>>,
    memos: Vec<Vec<u8>>,
    hash: Vec<Vec<u8>>,
}

impl View for Deposit {
    type V = BatchView;

    closed spec fn view(&self) -> BatchView {
        BatchView {
            outputs: Seq::new(self.outputs@.len(), |i: int| self.outputs@[i]@),
            assets: Seq::new(self.assets@.len(), |i: int| self.assets@[i]@),
            amounts: Seq::new(self.amounts@.len(), |i: int| self.amounts@[i]@),
            proofs: Seq::new(self.proofs@.len(), |i: int| self.proofs@[i]@),
            memos: Seq::new(self.memos@.len(), |i: int| self.memos@[i]@),
            binding_hashes: Seq::new(self.hash@.len(), |i: int| self.hash@[i]@),
        }
    }
}

impl Deposit {
    /// Every batch that exists is balanced (its six sequences share one
    /// length), and small enough that its gas cost fits a `u64`: lengths
    /// come from four-byte wire words, so they are below `2^32`.
    #[verifier::type_invariant]
    spec fn type_inv(self) -> bool {
        &&& self@.balanced()
        &&& self.outputs@.len() <= 0xFFFF_FFFF
    }

    /// Decodes a wire payload into a deposit batch.
    ///
    /// Fails with `ParseDataFailed` exactly when the bytes do not conform
    /// to the six-array schema, and with `WrongLengthOfArguments` exactly
    /// when they decode but the six arrays do not share one length. On
    /// success the batch's contents are exactly the decoded sequences: a
    /// pure function of the input bytes, so decoding is deterministic.
    pub fn new(data: &[u8]) -> (r: Result<Deposit, Error>)
        ensures
            spec_decode(data@) is None ==> r == Err::<Deposit, Error>(Error::ParseDataFailed),
            spec_decode(data@) matches Some(b) ==> {
                &&& !b.balanced() ==> r == Err::<Deposit, Error>(Error::WrongLengthOfArguments)
                &&& b.balanced() ==> (r matches Ok(d) && d@ == b)
            },
    {
        let outputs = match decode_word_array(data, 0) {
            None => {
                return Err(Error::ParseDataFailed);
            },
            Some(v) => v,
        };
        let assets = match decode_word_array(data, 32) {
            None => {
                return Err(Error::ParseDataFailed);
            },
            Some(v) => v,
        };
        let amount_words = match decode_word_array(data, 64) {
            None => {
                return Err(Error::ParseDataFailed);
            },
            Some(v) => v,
        };
        let proofs = match decode_bytes_array(data, 96) {
            None => {
                return Err(Error::ParseDataFailed);
            },
            Some(v) => v,
        };
        let memos = match decode_bytes_array(data, 128) {
            None => {
                return Err(Error::ParseDataFailed);
            },
            Some(v) => v,
        };
        let hash = match decode_word_array(data, 160) {
            None => {
                return Err(Error::ParseDataFailed);
            },
            Some(v) => v,
        };
        let amounts = amounts_from_words(&amount_words);
        let len = outputs.len();
        if !(assets.len() == len && amounts.len() == len && proofs.len() == len && memos.len()
            == len && hash.len() == len) {
            return Err(Error::WrongLengthOfArguments);
        }
        let d = Deposit { outputs, assets, amounts, proofs, memos, hash };
        proof {
            let b = spec_decode(data@).unwrap();
            assert(d@.outputs =~= b.outputs);
            assert(d@.assets =~= b.assets);
            assert(d@.amounts =~= b.amounts);
            assert(d@.proofs =~= b.proofs);
            assert(d@.memos =~= b.memos);
            assert(d@.binding_hashes =~= b.binding_hashes);
            assert(d@ =~= b);
        }
        Ok(d)
    }

    /// The number of requests in the batch.
    pub fn len(&self) -> (r: usize)
        ensures
            r == self@.outputs.len(),
    {
        self.outputs.len()
    }

    /// The gas cost of the batch: a fixed cost per request, independent of
    /// whether verification was run and of its outcome.
    pub fn gas(self) -> (r: u64)
        ensures
            r == DEPOSIT_VERIFY_PER_GAS * self@.assets.len(),
    {
        proof {
            use_type_invariant(&self);
        }
        DEPOSIT_VERIFY_PER_GAS * (self.assets.len() as u64)
    }

    /// The batch verdict, given the oracle pipeline's outcome for each
    /// request: success exactly when every request's amount fits 128 bits
    /// and its outcome is `Accepted`; otherwise the first failing request's
    /// error. A batch of length zero trivially succeeds.
    pub fn check(self, outcomes: &Vec<StepOutcome>) -> (r: Result<(), Error>)
        requires
            outcomes@.len() == self@.amounts.len(),
        ensures
            r == batch_verdict(self@.amounts, outcomes@),
    {
        proof {
            use_type_invariant(&self);
        }
        let n = self.amounts.len();
        let mut i: usize = 0;
        while i < n
            invariant
                i <= n,
                n == self.amounts@.len(),
                outcomes@.len() == n,
                forall|t: int|
                    0 <= t < i ==> request_verdict(self@.amounts[t], outcomes@[t]) is Ok,
            decreases n - i,
        {
            let verdict = verify_one(&self.amounts[i], outcomes[i]);
            match verdict {
                Err(e) => {
                    proof {
                        lemma_verdict_skip_ok_prefix(self@.amounts, outcomes@, i as int);
                    }
                    return Err(e);
                },
                Ok(()) => {},
            }
            i += 1;
        }
        proof {
            lemma_verdict_skip_ok_prefix(self@.amounts, outcomes@, n as int);
        }
        Ok(())
    }

    /// The output commitment digest of request `i`.
    pub fn output_at(&self, i: usize) -> (r: &Vec<u8>)
        requires
            i < self@.outputs.len(),
        ensures
            r@ == self@.outputs[i as int],
    {
        &self.outputs[i]
    }

    /// The asset identifier of request `i`.
    pub fn asset_at(&self, i: usize) -> (r: &Vec<u8>)
        requires
            i < self@.assets.len(),
        ensures
            r@ == self@.assets[i as int],
    {
        proof {
            use_type_invariant(self);
        }
        &self.assets[i]
    }

    /// The amount of request `i`, at its full decoded width.
    pub fn amount_at(&self, i: usize) -> (r: WideUint)
        requires
            i < self@.amounts.len(),
        ensures
            r@ == self@.amounts[i as int],
    {
        proof {
            use_type_invariant(self);
        }
        self.amounts[i]
    }

    /// The proof blob of request `i`.
    pub fn proof_at(&self, i: usize) -> (r: &Vec<u8>)
        requires
            i < self@.proofs.len(),
        ensures
            r@ == self@.proofs[i as int],
    {
        proof {
            use_type_invariant(self);
        }
        &self.proofs[i]
    }

    /// The owner memo blob of request `i`. Memos ride along in the wire
    /// schema and are preserved through decoding, but the verification note
    /// does not currently bind them; they are kept so a future oracle
    /// contract can incorporate them without a schema change.
    pub fn memo_at(&self, i: usize) -> (r: &Vec<u8>)
        requires
            i < self@.memos.len(),
        ensures
            r@ == self@.memos[i as int],
    {
        proof {
            use_type_invariant(self);
        }
        &self.memos[i]
    }

    /// The binding hash of request `i`: the digest seed that ties the
    /// request's proof to exactly this request's data.
    pub fn binding_hash_at(&self, i: usize) -> (r: &Vec<u8>)
        requires
            i < self@.binding_hashes.len(),
        ensures
            r@ == self@.binding_hashes[i as int],
    {
        proof {
            use_type_invariant(self);
        }
        &self.hash[i]
    }
}

/// The verified part of one request's verification: the 128-bit range
/// check on the amount, and the mapping of the oracle pipeline's outcome
/// onto the stable error kinds. An amount beyond the range fails here, as a
/// numeric-conversion failure, before any outcome is consulted — it is
/// never truncated or wrapped.
pub fn verify_one(amount: &WideUint, outcome: StepOutcome) -> (r: Result<(), Error>)
    ensures
        r == request_verdict(amount@, outcome),
{
    proof {
        amount.lemma_fits_iff_hi_zero();
    }
    if amount.hi != 0 {
        return Err(Error::ParseDataFailed);
    }
    match outcome {
        StepOutcome::AssetInvalid => Err(Error::AssetDecodeFailed),
        StepOutcome::CommitmentInvalid => Err(Error::ParseDataFailed),
        StepOutcome::ProofInvalid => Err(Error::ProofDecodeFailed),
        StepOutcome::Rejected => Err(Error::ProofVerificationFailed),
        StepOutcome::Accepted => Ok(()),
    }
}

/// Converts each decoded 32-byte amount word into its numeric value.
fn amounts_from_words(words: &Vec<Vec<u8>>) -> (r: Vec<WideUint>)
    requires
        forall|j: int| 0 <= j < words@.len() ==> (#[trigger] words@[j])@.len() == 32,
    ensures
        r@.len() == words@.len(),
        forall|j: int| 0 <= j < words@.len() ==> (#[trigger] r@[j])@ == be_val(words@[j]@),
{
    let mut out: Vec<WideUint> = Vec::new();
    let mut j: usize = 0;
    let n = words.len();
    while j < n
        invariant
            j <= n,
            n == words@.len(),
            forall|t: int| 0 <= t < n ==> (#[trigger] words@[t])@.len() == 32,
            out@.len() == j,
            forall|t: int| 0 <= t < j ==> (#[trigger] out@[t])@ == be_val(words@[t]@),
        decreases n - j,
    {
        let w = crate::amount::wide_from_word(&words[j]);
        out.push(w);
        j += 1;
    }
    out
}

} // verus!
