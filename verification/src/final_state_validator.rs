//! Validation of the downloaded state at the horizon height: the unspent
//! outputs must balance against the emission, the kernels and the headers'
//! kernel offsets.

use crate::blocks::BlockHeader;
use crate::blocks::TransactionKernel;
use crate::blocks::TransactionOutput;
use crate::consensus::ConsensusFunctions;
use crate::consensus::ConsensusManager;
use crate::crypto::commitment_sum;
use crate::crypto::commitment_total;
use crate::crypto::encodings;
use crate::crypto::group_order;
use crate::crypto::le_bytes;
use crate::crypto::pedersen_commitment;
use crate::crypto::BlindingFactor;
use crate::crypto::Commitment;
use crate::crypto::CryptoFactories;
use crate::error::ValidationError;
use crate::error::ChainStorageError;
use crate::header_iter::after_answer;
use crate::header_iter::fetches_left;
use crate::header_checks::answers_of;
use crate::header_checks::begins_with;
use crate::header_checks::lemma_begins_with_one_more;
use crate::header_checks::RoundAnswers;
use crate::header_iter::lemma_pull_progress;
use crate::header_iter::next_chunk_heights;
use crate::header_iter::HeaderIter;
use crate::header_iter::HeaderIterView;
use crate::storage::BlockchainBackend;
use crate::validation::StatelessValidation;
use vstd::prelude::*;

verus! {

/// How many heights the scan of the headers asks for at a time, beyond the first.
pub const HEADER_CHUNK_SIZE: usize = 100;

/// The sum of the kernel offsets of `headers`, modulo the group order.
pub open spec fn total_kernel_offset(headers: Seq<BlockHeader>) -> nat
    decreases headers.len(),
{
    if headers.len() == 0 {
        0
    } else {
        (total_kernel_offset(headers.drop_last()) + headers.last().total_kernel_offset.value()) % group_order()
    }
}

/// The commitment to the sum of the kernel offsets of `headers`, with value 0.
pub open spec fn offset_commitment(headers: Seq<BlockHeader>) -> Seq<u8> {
    pedersen_commitment(le_bytes(total_kernel_offset(headers), 32), le_bytes(0, 32))
}

/// The commitment to the emitted `supply`, with a blinding factor of zero.
pub open spec fn emission_commitment(supply: u64) -> Seq<u8> {
    pedersen_commitment(le_bytes(0, 32), le_bytes(supply as nat, 32))
}

/// The encodings of the commitments of `utxos`, in the same order.
pub open spec fn output_commitments(utxos: Seq<TransactionOutput>) -> Seq<Seq<u8>> {
    Seq::new(utxos.len(), |i: int| utxos[i].commitment@)
}

/// The encodings of the excesses of `kernels`, in the same order.
pub open spec fn kernel_excesses(kernels: Seq<TransactionKernel>) -> Seq<Seq<u8>> {
    Seq::new(kernels.len(), |i: int| kernels[i].excess@)
}

/// Whether the four aggregates balance: the sum of the outputs is the
/// emission plus the kernel excess plus the offsets, as group elements.
pub open spec fn balances(utxo: Seq<u8>, emission: Seq<u8>, kernel_excess: Seq<u8>, total_offset: Seq<u8>) -> bool {
    utxo == commitment_sum(commitment_sum(emission, kernel_excess), total_offset)
}

/// What the balance check decides at `height` for the four aggregates.
pub open spec fn balance_verdict(
    height: u64,
    utxo: Seq<u8>,
    emission: Seq<u8>,
    kernel_excess: Seq<u8>,
    total_offset: Seq<u8>,
) -> Result<(), ValidationError> {
    if balances(utxo, emission, kernel_excess, total_offset) {
        Ok(())
    } else {
        Err(ValidationError::BalanceMismatch { height })
    }
}

/// The scanner's state after it has handed out its first buffered header.
pub open spec fn after_pop(state: HeaderIterView) -> HeaderIterView {
    HeaderIterView { buffered: state.buffered.drop_first(), ..state }
}

/// The sum `total` with the kernel offset of `header` added, modulo the group order.
pub open spec fn with_offset(total: nat, header: BlockHeader) -> nat {
    (total + header.total_kernel_offset.value()) % group_order()
}

/// What comes of summing the kernel offsets of all that a scanner hands out
/// from `state` on, where `total` is the sum so far and `answers(round)` the
/// storage's answer to the scanner's next fetch: the sum in the end, or the
/// storage's failure.
///
/// Pull by pull, as the scanner goes: nothing more comes of a scanner that
/// has failed; a buffered header is added; with an empty buffer the scan
/// ends where the next chunk is empty, and otherwise the answer to the fetch
/// decides: its failure fails the scan, an answer without headers ends it,
/// and of any other answer the first header is added.
pub open spec fn scan_total(state: HeaderIterView, answers: RoundAnswers, round: nat, total: nat) -> Result<
    nat,
    ChainStorageError,
>
    decreases fetches_left(state), state.buffered.len(),
{
    if state.failed {
        Ok(total)
    } else if state.buffered.len() > 0 {
        scan_total(after_pop(state), answers, round, with_offset(total, state.buffered[0]))
    } else if next_chunk_heights(state).len() == 0 {
        Ok(total)
    } else {
        match after_answer(state, answers(round)).1 {
            None => Ok(total),
            Some(Err(e)) => Err(e),
            Some(Ok(header)) => scan_total(
                after_answer(state, answers(round)).0,
                answers,
                round + 1,
                with_offset(total, header),
            ),
        }
    }
}

/// The state of a scanner that has fetched nothing yet and will hand out the
/// headers from height 0 up to and including `height`.
pub open spec fn fresh_scanner(height: u64) -> HeaderIterView {
    HeaderIterView {
        buffered: Seq::empty(),
        chunk_size: HEADER_CHUNK_SIZE,
        cursor: 0,
        failed: false,
        exhausted: false,
        max_height: height,
    }
}

/// What comes of fetching the commitment to the kernel offsets up to
/// `height`, given the storage's answers to the fetches of the scan: the
/// commitment to their sum, with value 0, or the storage's failure with its
/// message.
pub open spec fn offset_outcome(height: u64, answers: RoundAnswers) -> Result<Seq<u8>, ValidationError> {
    match scan_total(fresh_scanner(height), answers, 0, 0) {
        Ok(total) => Ok(pedersen_commitment(le_bytes(total, 32), le_bytes(0, 32))),
        Err(e) => Err(ValidationError::StorageFailure(e.message)),
    }
}

/// What comes of fetching the sum of the outputs, given the storage's answer.
pub open spec fn utxo_outcome(answer: Result<Vec<TransactionOutput>, ChainStorageError>) -> Result<
    Seq<u8>,
    ValidationError,
> {
    match answer {
        Ok(utxos) => Ok(commitment_total(output_commitments(utxos@))),
        Err(e) => Err(ValidationError::StorageFailure(e.message)),
    }
}

/// What comes of fetching the sum of the kernel excesses, given the storage's answer.
pub open spec fn kernel_outcome(answer: Result<Vec<TransactionKernel>, ChainStorageError>) -> Result<
    Seq<u8>,
    ValidationError,
> {
    match answer {
        Ok(kernels) => Ok(commitment_total(kernel_excesses(kernels@))),
        Err(e) => Err(ValidationError::StorageFailure(e.message)),
    }
}

/// Whether the answers are those of a storage that holds `chain`, with the
/// header of each height at that index, and that answers each fetch of a
/// scan up to `max_height` with the headers asked for, in the order asked:
/// the fetch number `round` begins at height `round * (chunk_size + 1)` and
/// ends `chunk_size` heights above it, or at `max_height` if that comes first.
pub open spec fn answers_hold_scanned_chain(
    max_height: u64,
    chunk_size: usize,
    answers: RoundAnswers,
    chain: Seq<BlockHeader>,
) -> bool {
    &&& chain.len() > max_height
    &&& forall|round: nat|
        round * (chunk_size + 1) <= max_height ==> (#[trigger] answers(round)) is Ok && answers(round)->Ok_0@
            == chain.subrange(
            round * (chunk_size + 1),
            if round * (chunk_size + 1) + chunk_size <= max_height {
                round * (chunk_size + 1) + chunk_size + 1
            } else {
                max_height + 1
            },
        )
}

/// On a storage that holds the chain and answers with what is asked for, a
/// scan that has handed out the first `taken` headers of the chain, holds
/// the next ones in its buffer and has summed the offsets of those handed
/// out, comes out as the sum of the offsets of all headers up to the last height.
pub proof fn lemma_scan_of_faithful_storage(
    state: HeaderIterView,
    answers: RoundAnswers,
    chain: Seq<BlockHeader>,
    round: nat,
    taken: int,
    total: nat,
)
    requires
        answers_hold_scanned_chain(state.max_height, state.chunk_size, answers, chain),
        !state.failed,
        0 <= taken,
        taken + state.buffered.len() <= state.max_height + 1,
        state.buffered == chain.subrange(taken, taken + state.buffered.len()),
        taken + state.buffered.len() <= state.max_height ==> !state.exhausted && state.cursor == taken
            + state.buffered.len() && state.cursor == round * (state.chunk_size + 1),
        taken + state.buffered.len() == state.max_height + 1 ==> state.exhausted || state.cursor
            > state.max_height,
        total == total_kernel_offset(chain.take(taken)),
    ensures
        scan_total(state, answers, round, total) == Ok::<nat, ChainStorageError>(
            total_kernel_offset(chain.take(state.max_height + 1)),
        ),
    decreases fetches_left(state), state.buffered.len(),
{
    if state.buffered.len() > 0 {
        assert(chain.take(taken + 1).drop_last() =~= chain.take(taken));
        assert(state.buffered[0] == chain[taken]);
        assert(after_pop(state).buffered =~= chain.subrange(taken + 1, taken + state.buffered.len()));
        lemma_scan_of_faithful_storage(
            after_pop(state),
            answers,
            chain,
            round,
            taken + 1,
            with_offset(total, chain[taken]),
        );
    } else if taken <= state.max_height {
        assert(chain.take(taken + 1).drop_last() =~= chain.take(taken));
        assert((round + 1) * (state.chunk_size + 1) == round * (state.chunk_size + 1) + state.chunk_size + 1)
            by (nonlinear_arith);
        let answer = answers(round);
        let headers = answer->Ok_0@;
        let after = after_answer(state, answer).0;
        assert(headers.len() > 0);
        assert(headers[0] == chain[taken]);
        assert(after.buffered =~= chain.subrange(taken + 1, taken + headers.len()));
        lemma_scan_of_faithful_storage(
            after,
            answers,
            chain,
            round + 1,
            taken + 1,
            with_offset(total, chain[taken]),
        );
    }
}

/// On a storage that holds every header from height 0 up to `height` and
/// answers with what is asked for, the offsets summed are those of exactly
/// these headers, each once, and the commitment is the one to their sum.
pub proof fn lemma_offsets_of_faithful_storage(height: u64, answers: RoundAnswers, chain: Seq<BlockHeader>)
    requires
        answers_hold_scanned_chain(height, HEADER_CHUNK_SIZE, answers, chain),
    ensures
        scan_total(fresh_scanner(height), answers, 0, 0) == Ok::<nat, ChainStorageError>(
            total_kernel_offset(chain.take(height + 1)),
        ),
        offset_outcome(height, answers) == Ok::<Seq<u8>, ValidationError>(
            offset_commitment(chain.take(height + 1)),
        ),
{
    assert(chain.take(0) =~= Seq::<BlockHeader>::empty());
    assert(fresh_scanner(height).buffered =~= chain.subrange(0, 0));
    lemma_scan_of_faithful_storage(fresh_scanner(height), answers, chain, 0, 0, 0);
}

/// Whether `r` is the commitment with the encoding `expected`, or the same failure.
pub open spec fn is_commitment(r: Result<Commitment, ValidationError>, expected: Result<Seq<u8>, ValidationError>) -> bool {
    match r {
        Ok(c) => expected == Ok::<Seq<u8>, ValidationError>(c@),
        Err(e) => expected == Err::<Seq<u8>, ValidationError>(e),
    }
}

/// Whether `r` is the scalar `expected` in its encoding, or the failure
/// `expected` with its message.
pub open spec fn is_offset_total(r: Result<BlindingFactor, ValidationError>, expected: Result<nat, ChainStorageError>) -> bool {
    match expected {
        Ok(total) => r is Ok && r->Ok_0.value() == total && r->Ok_0@ == le_bytes(total, 32),
        Err(e) => r == Err::<BlindingFactor, ValidationError>(ValidationError::StorageFailure(e.message)),
    }
}

/// All that the storage answers in the course of validating the final state.
pub struct HorizonAnswers {
    /// The storage's answers to the fetches of the scan of the headers.
    pub headers: RoundAnswers,
    /// The storage's answer to the fetch of the unspent outputs.
    pub utxos: Result<Vec<TransactionOutput>, ChainStorageError>,
    /// The storage's answer to the fetch of the kernels.
    pub kernels: Result<Vec<TransactionKernel>, ChainStorageError>,
}

/// Checks the balance of the four aggregates at `height`.
pub fn check_balance(
    height: u64,
    utxo_commitment: &Commitment,
    emission: &Commitment,
    kernel_excess: &Commitment,
    total_offset: &Commitment,
) -> (r: Result<(), ValidationError>)
    ensures
        r == balance_verdict(height, utxo_commitment@, emission@, kernel_excess@, total_offset@),
{
    let expected = emission.add(kernel_excess).add(total_offset);
    if utxo_commitment.equals(&expected) {
        Ok(())
    } else {
        Err(ValidationError::BalanceMismatch { height })
    }
}

/// The sum of the kernel offsets of all headers that the scanner hands out
/// until it ends, or the storage's failure with its message: what
/// `scan_total` says of the scanner's state and the storage's answers.
pub fn sum_kernel_offsets<'a, B: BlockchainBackend>(scanner: HeaderIter<'a, B>) -> (r: Result<
    BlindingFactor,
    ValidationError,
>)
    ensures
        exists|answers: RoundAnswers| is_offset_total(r, #[trigger] scan_total(scanner@, answers, 0, 0)),
{
    let ghost start = scanner@;
    let ghost unasked: Result<Vec<BlockHeader>, ChainStorageError> = arbitrary();
    let mut header_iter = scanner;
    let mut total_offset = BlindingFactor::default();
    let ghost mut log = Seq::<Result<Vec<BlockHeader>, ChainStorageError>>::empty();
    loop
        invariant
            start == scanner@,
            total_offset@ == le_bytes(total_offset.value(), 32),
            forall|answers: RoundAnswers| #[trigger]
                begins_with(answers, log) ==> scan_total(start, answers, 0, 0) == scan_total(
                    header_iter@,
                    answers,
                    log.len(),
                    total_offset.value(),
                ),
        decreases fetches_left(header_iter@), header_iter@.buffered.len(),
    {
        let ghost before = header_iter@;
        let ghost asked = log;
        let ghost total = total_offset.value();
        let pulled = header_iter.next();
        proof {
            if pulled is Some {
                lemma_pull_progress(before, header_iter@, pulled);
            }
            if !before.failed && before.buffered.len() == 0 && next_chunk_heights(before).len() > 0 {
                let answer = choose|answer: Result<Vec<BlockHeader>, ChainStorageError>|
                    (header_iter@, pulled) == #[trigger] after_answer(before, answer);
                log = log.push(answer);
                assert forall|answers: RoundAnswers| #[trigger] begins_with(answers, log) implies begins_with(
                    answers,
                    asked,
                ) && answers(asked.len()) == answer by {
                    lemma_begins_with_one_more(answers, asked, answer);
                }
            }
        }
        match pulled {
            None => {
                proof {
                    let answers = answers_of(log, unasked);
                    assert(begins_with(answers, log));
                    assert(scan_total(start, answers, 0, 0) == Ok::<nat, ChainStorageError>(total));
                }
                return Ok(total_offset);
            },
            Some(Err(e)) => {
                proof {
                    let answers = answers_of(log, unasked);
                    assert(begins_with(answers, log));
                    assert(scan_total(start, answers, 0, 0) == Err::<nat, ChainStorageError>(e));
                }
                return Err(ValidationError::from_storage(e));
            },
            Some(Ok(header)) => {
                total_offset = total_offset.add(&header.total_kernel_offset);
                assert forall|answers: RoundAnswers| #[trigger] begins_with(answers, log) implies scan_total(
                    start,
                    answers,
                    0,
                    0,
                ) == scan_total(header_iter@, answers, log.len(), total_offset.value()) by {
                    assert(begins_with(answers, asked));
                    assert(scan_total(before, answers, asked.len(), total) == scan_total(
                        header_iter@,
                        answers,
                        log.len(),
                        with_offset(total, header),
                    ));
                }
            },
        }
    }
}

/// The sum of the commitments of all of `utxos`.
pub fn aggregate_utxo_commitment(utxos: &Vec<TransactionOutput>) -> (c: Commitment)
    ensures
        c@ == commitment_total(output_commitments(utxos@)),
{
    let mut commitments: Vec<Commitment> = Vec::new();
    let n = utxos.len();
    let mut i: usize = 0;
    while i < n
        invariant
            n == utxos.len(),
            i <= n,
            commitments@.len() == i,
            forall|j: int| 0 <= j < i ==> commitments@[j] == utxos@[j].commitment,
        decreases n - i,
    {
        commitments.push(utxos[i].commitment);
        i += 1;
    }
    assert(encodings(commitments@) =~= output_commitments(utxos@));
    Commitment::sum(&commitments)
}

/// The sum of the excesses of all of `kernels`.
pub fn aggregate_kernel_excess(kernels: &Vec<TransactionKernel>) -> (c: Commitment)
    ensures
        c@ == commitment_total(kernel_excesses(kernels@)),
{
    let mut excesses: Vec<Commitment> = Vec::new();
    let n = kernels.len();
    let mut i: usize = 0;
    while i < n
        invariant
            n == kernels.len(),
            i <= n,
            excesses@.len() == i,
            forall|j: int| 0 <= j < i ==> excesses@[j] == kernels@[j].excess,
        decreases n - i,
    {
        excesses.push(kernels[i].excess);
        i += 1;
    }
    assert(encodings(excesses@) =~= kernel_excesses(kernels@));
    Commitment::sum(&excesses)
}

/// Checks that the chain balances at the horizon height.
pub struct HorizonFinalStateValidator<B, F> {
    rules: ConsensusManager<F>,
    db: B,
    factories: CryptoFactories,
}

impl<B: BlockchainBackend, F: ConsensusFunctions> HorizonFinalStateValidator<B, F> {
    /// The rules that the validator holds.
    pub closed spec fn rules(&self) -> &ConsensusManager<F> {
        &self.rules
    }

    /// The chain storage that the validator reads.
    pub closed spec fn db(&self) -> &B {
        &self.db
    }

    /// The factories that the validator commits with.
    pub closed spec fn factories(&self) -> CryptoFactories {
        self.factories
    }

    /// A validator over the given storage, rules and factories.
    pub fn new(db: B, rules: ConsensusManager<F>, factories: CryptoFactories) -> (v: Self)
        ensures
            *v.rules() == rules,
            *v.db() == db,
            v.factories() == factories,
    {
        Self { db, rules, factories }
    }

    /// A scanner of this validator's storage that has fetched nothing yet and
    /// will hand out the headers from height 0 up to and including `height`,
    /// fetching them in chunks of `HEADER_CHUNK_SIZE`.
    pub fn header_scanner<'a>(&'a self, height: u64) -> (header_iter: HeaderIter<'a, B>)
        ensures
            header_iter.db() == self.db(),
            header_iter@ == fresh_scanner(height),
    {
        HeaderIter::new(&self.db, height, HEADER_CHUNK_SIZE)
    }

    /// The commitment, with value 0, to the sum of the kernel offsets of the
    /// headers that a scan from height 0 up to and including `height` hands
    /// out, or the storage's failure with its message.
    pub fn fetch_total_offset_commitment(&self, height: u64) -> (r: Result<Commitment, ValidationError>)
        ensures
            exists|answers: RoundAnswers| is_commitment(r, #[trigger] offset_outcome(height, answers)),
    {
        let header_iter = self.header_scanner(height);
        let summed = sum_kernel_offsets(header_iter);
        let ghost answers = choose|answers: RoundAnswers|
            is_offset_total(summed, #[trigger] scan_total(fresh_scanner(height), answers, 0, 0));
        let total_offset = match summed {
            Ok(total_offset) => total_offset,
            Err(e) => {
                assert(is_commitment(Err(e), offset_outcome(height, answers)));
                return Err(e);
            },
        };
        let zero = BlindingFactor::from_u64(0);
        let commitment = self.factories.commitment.commit(&total_offset, &zero);
        assert(is_commitment(Ok(commitment), offset_outcome(height, answers)));
        Ok(commitment)
    }

    /// The sum of the commitments of all unspent outputs that the storage
    /// holds, or the storage's failure with its message.
    pub fn fetch_aggregate_utxo_commitment(&self) -> (r: Result<Commitment, ValidationError>)
        ensures
            exists|answer: Result<Vec<TransactionOutput>, ChainStorageError>|
                is_commitment(r, #[trigger] utxo_outcome(answer)),
    {
        let answer = self.db.fetch_all_utxos();
        let ghost asked = answer;
        let r = match answer {
            Ok(utxos) => Ok(aggregate_utxo_commitment(&utxos)),
            Err(e) => Err(ValidationError::from_storage(e)),
        };
        assert(is_commitment(r, utxo_outcome(asked)));
        r
    }

    /// The supply that the emission schedule of the rules gives for `height`.
    pub open spec fn supply_at(&self, height: u64) -> u64 {
        self.rules().functions.spec_supply_at_block(height)
    }

    /// The commitment to the supply that the emission schedule gives for
    /// `height`, with a blinding factor of zero.
    pub fn get_emission_commitment_at(&self, height: u64) -> (c: Commitment)
        ensures
            c@ == emission_commitment(self.supply_at(height)),
    {
        let emission = self.rules.emission_schedule().supply_at_block(height);
        self.factories.commitment.commit_value(&BlindingFactor::default(), emission)
    }

    /// The sum of the excesses of all kernels that the storage holds, or the
    /// storage's failure with its message.
    pub fn fetch_aggregate_kernel_excess(&self) -> (r: Result<Commitment, ValidationError>)
        ensures
            exists|answer: Result<Vec<TransactionKernel>, ChainStorageError>|
                is_commitment(r, #[trigger] kernel_outcome(answer)),
    {
        let answer = self.db.fetch_all_kernels();
        let ghost asked = answer;
        let r = match answer {
            Ok(kernels) => Ok(aggregate_kernel_excess(&kernels)),
            Err(e) => Err(ValidationError::from_storage(e)),
        };
        assert(is_commitment(r, kernel_outcome(asked)));
        r
    }

    /// What validation decides at `height`, given all that the storage
    /// answers. The first failure of the storage decides, with its message:
    /// of the scan of the headers, of the fetch of the outputs, of the fetch
    /// of the kernels, in this order. Otherwise the balance decides: the sum
    /// of the outputs must be the emission at `height` plus the sum of the
    /// kernel excesses plus the commitment to the sum of the kernel offsets.
    pub open spec fn verdict(&self, height: u64, answers: HorizonAnswers) -> Result<(), ValidationError> {
        match offset_outcome(height, answers.headers) {
            Err(e) => Err(e),
            Ok(total_offset) => match utxo_outcome(answers.utxos) {
                Err(e) => Err(e),
                Ok(utxo) => match kernel_outcome(answers.kernels) {
                    Err(e) => Err(e),
                    Ok(kernel_excess) => balance_verdict(
                        height,
                        utxo,
                        emission_commitment(self.supply_at(height)),
                        kernel_excess,
                        total_offset,
                    ),
                },
            },
        }
    }

    /// On a storage that holds every header up to `height` and answers with
    /// what is asked for, and that gives the outputs and the kernels,
    /// validation decides by the balance of the sum of these outputs, the
    /// emission at `height`, the sum of these kernels' excesses and the
    /// commitment to the sum of the offsets of exactly these headers.
    pub proof fn lemma_verdict_of_faithful_storage(&self, height: u64, answers: HorizonAnswers, chain: Seq<BlockHeader>)
        requires
            answers_hold_scanned_chain(height, HEADER_CHUNK_SIZE, answers.headers, chain),
            answers.utxos is Ok,
            answers.kernels is Ok,
        ensures
            self.verdict(height, answers) == balance_verdict(
                height,
                commitment_total(output_commitments(answers.utxos->Ok_0@)),
                emission_commitment(self.supply_at(height)),
                commitment_total(kernel_excesses(answers.kernels->Ok_0@)),
                offset_commitment(chain.take(height + 1)),
            ),
    {
        lemma_offsets_of_faithful_storage(height, answers.headers, chain);
    }

    /// Validation keeps no state: two validations at one height that get the
    /// same answers from the storage decide the same.
    pub proof fn lemma_validation_is_repeatable(&self, height: u64, first: HorizonAnswers, second: HorizonAnswers)
        requires
            first == second,
        ensures
            self.verdict(height, first) == self.verdict(height, second),
    {
    }
}

impl<B: BlockchainBackend, F: ConsensusFunctions> StatelessValidation<u64> for HorizonFinalStateValidator<B, F> {
    /// Validates the state at the horizon height: the sum of the unspent
    /// outputs must equal the emission at that height plus the sum of the
    /// kernel excesses plus the commitment to the sum of the kernel offsets.
    /// A failure of the storage is reported with its message.
    fn validate(&self, horizon_height: &u64) -> (r: Result<(), ValidationError>)
        ensures
            exists|answers: HorizonAnswers| r == #[trigger] self.verdict(*horizon_height, answers),
    {
        let ghost unasked_utxos: Result<Vec<TransactionOutput>, ChainStorageError> = arbitrary();
        let ghost unasked_kernels: Result<Vec<TransactionKernel>, ChainStorageError> = arbitrary();
        let offsets = self.fetch_total_offset_commitment(*horizon_height);
        let ghost headers = choose|answers: RoundAnswers|
            is_commitment(offsets, #[trigger] offset_outcome(*horizon_height, answers));
        let total_offset = match offsets {
            Ok(c) => c,
            Err(e) => {
                proof {
                    let answers = HorizonAnswers { headers, utxos: unasked_utxos, kernels: unasked_kernels };
                    assert(self.verdict(*horizon_height, answers) == Err::<(), ValidationError>(e));
                }
                return Err(e);
            },
        };
        let outputs = self.fetch_aggregate_utxo_commitment();
        let ghost utxos = choose|answer: Result<Vec<TransactionOutput>, ChainStorageError>|
            is_commitment(outputs, #[trigger] utxo_outcome(answer));
        let utxo_commitment = match outputs {
            Ok(c) => c,
            Err(e) => {
                proof {
                    let answers = HorizonAnswers { headers, utxos, kernels: unasked_kernels };
                    assert(self.verdict(*horizon_height, answers) == Err::<(), ValidationError>(e));
                }
                return Err(e);
            },
        };
        let emission_h = self.get_emission_commitment_at(*horizon_height);
        let excesses = self.fetch_aggregate_kernel_excess();
        let ghost kernels = choose|answer: Result<Vec<TransactionKernel>, ChainStorageError>|
            is_commitment(excesses, #[trigger] kernel_outcome(answer));
        let kernel_excess = match excesses {
            Ok(c) => c,
            Err(e) => {
                proof {
                    let answers = HorizonAnswers { headers, utxos, kernels };
                    assert(self.verdict(*horizon_height, answers) == Err::<(), ValidationError>(e));
                }
                return Err(e);
            },
        };
        let r = check_balance(*horizon_height, &utxo_commitment, &emission_h, &kernel_excess, &total_offset);
        proof {
            let answers = HorizonAnswers { headers, utxos, kernels };
            assert(self.verdict(*horizon_height, answers) == r);
        }
        r
    }
}

} // verus!
