//! Validation of one downloaded header against the tip of the chain.

use crate::blocks::BlockHeader;
use crate::blocks::MIN_DIFFICULTY;
use crate::consensus::ConsensusFunctions;
use crate::consensus::ConsensusManager;
use crate::error::ChainStorageError;
use crate::error::DifficultyAdjustmentError;
use crate::error::ValidationError;
use crate::header_checks::ascending_heights;
use crate::header_checks::check_difficulty_against_target;
use crate::header_checks::collect_samples;
use crate::header_checks::difficulty_verdict;
use crate::header_checks::difficulty_window;
use crate::header_checks::first_n;
use crate::header_checks::height_range;
use crate::header_checks::history_window;
use crate::header_checks::is_window;
use crate::header_checks::answers_of;
use crate::header_checks::begins_with;
use crate::header_checks::lemma_begins_with_one_more;
use crate::header_checks::walk_from;
use crate::header_checks::walk_goes_on;
use crate::header_checks::RoundAnswers;
use crate::header_checks::history_is_walked;
use crate::header_checks::judge_retargeting;
use crate::header_checks::judge_timestamp;
use crate::header_checks::lemma_first_n_in_steps;
use crate::header_checks::lemma_matching_samples_concat;
use crate::header_checks::matching_samples;
use crate::header_checks::median_start_height;
use crate::header_checks::next_history_batch;
use crate::header_checks::retarget_verdict;
use crate::header_checks::reversed;
use crate::header_checks::timestamp_verdict;
use crate::storage::BlockchainBackend;
use crate::validation::StatelessValidation;
use vstd::prelude::*;

verus! {

/// Whether `r` is a failure of the chain storage.
pub open spec fn is_storage_failure<T>(r: Result<T, ValidationError>) -> bool {
    r is Err && r->Err_0 is StorageFailure
}

/// All that the storage answers in the course of validating one header.
pub struct HeaderAnswers {
    /// The storage's answer to the fetch of the tip.
    pub tip: Result<BlockHeader, ChainStorageError>,
    /// The storage's answer to the fetch of the headers of the median window.
    pub median_window: Result<Vec<BlockHeader>, ChainStorageError>,
    /// The storage's answers to the rounds of the walk back through history.
    pub history: RoundAnswers,
}

/// Checks the timestamp and the proof-of-work difficulty of downloaded headers.
pub struct HorizonHeadersValidator<B, F> {
    rules: ConsensusManager<F>,
    db: B,
}

impl<B: BlockchainBackend, F: ConsensusFunctions> HorizonHeadersValidator<B, F> {
    /// The rules that the validator holds.
    pub closed spec fn rules(&self) -> &ConsensusManager<F> {
        &self.rules
    }

    /// The chain storage that the validator reads.
    pub closed spec fn db(&self) -> &B {
        &self.db
    }

    /// A validator over the given storage and rules.
    pub fn new(db: B, rules: ConsensusManager<F>) -> (v: Self)
        ensures
            *v.rules() == rules,
            *v.db() == db,
    {
        Self { db, rules }
    }

    /// Whether the header is the genesis header of the chain.
    pub fn is_genesis(&self, block_header: &BlockHeader) -> (r: bool)
        ensures
            r == self.rules().spec_is_genesis(block_header),
    {
        self.rules.is_genesis(block_header)
    }

    /// Whether `r` can come of the median timestamp check: the check passes
    /// for the genesis header and where the window is empty; otherwise it
    /// decides by what the storage answers.
    pub open spec fn timestamp_outcome(
        &self,
        block_header: &BlockHeader,
        tip_header: &BlockHeader,
        r: Result<(), ValidationError>,
    ) -> bool {
        if self.rules().spec_is_genesis(block_header) || median_start_height(
            block_header.height,
            self.rules().constants.median_timestamp_count,
        ) == tip_header.height {
            r is Ok
        } else {
            exists|fetched: Result<Vec<BlockHeader>, ChainStorageError>|
                r == #[trigger] timestamp_verdict(block_header, tip_header, fetched)
        }
    }

    /// Whether history is walked back from `tip_header` for the difficulty
    /// window: it is not where the window has no size or the tip is at height 0.
    pub open spec fn walks_history(&self, tip_header: &BlockHeader) -> bool {
        history_is_walked(tip_header.height, self.rules().constants.difficulty_block_window)
    }

    /// What the retargeting of the rules gives for `block_header` and the
    /// difficulty window `window`: it is handed the window, the window's
    /// size, the target interval, the lowest difficulty of the header's own
    /// algorithm and the longest interval.
    pub open spec fn retargeted(&self, block_header: &BlockHeader, window: Seq<(u64, u64)>) -> Result<
        u64,
        DifficultyAdjustmentError,
    > {
        self.rules().functions.spec_get_target_difficulty(
            window,
            self.rules().constants.difficulty_block_window,
            self.rules().constants.diff_target_block_interval,
            self.rules().constants.spec_min_pow_difficulty(block_header.pow.pow_algo),
            self.rules().constants.difficulty_max_block_interval,
        )
    }

    /// What the difficulty check decides for a header other than the genesis
    /// header, given the storage's answers to the rounds of the walk back
    /// from `tip_header`: the storage's failure, or else what the retargeting
    /// of the difficulty window demands of the header.
    pub open spec fn difficulty_verdict_of_walk(
        &self,
        block_header: &BlockHeader,
        tip_header: &BlockHeader,
        answers: RoundAnswers,
    ) -> Result<(), ValidationError> {
        match history_window(
            tip_header.height,
            self.rules().constants.difficulty_block_window,
            block_header.pow.pow_algo,
            answers,
        ) {
            Err(e) => Err(e),
            Ok(window) => retarget_verdict(block_header, self.retargeted(block_header, window)),
        }
    }

    /// Whether `r` can come of the difficulty check. The genesis header is
    /// held to the lowest difficulty. For any other header the walk back
    /// through history and the retargeting of its window decide; where
    /// history is not walked, the retargeting of the empty window decides.
    pub open spec fn difficulty_outcome(
        &self,
        block_header: &BlockHeader,
        tip_header: &BlockHeader,
        r: Result<(), ValidationError>,
    ) -> bool {
        if self.rules().spec_is_genesis(block_header) {
            r == difficulty_verdict(block_header, MIN_DIFFICULTY)
        } else {
            &&& exists|answers: RoundAnswers|
                r == #[trigger] self.difficulty_verdict_of_walk(block_header, tip_header, answers)
            &&& !self.walks_history(tip_header) ==> r == retarget_verdict(
                block_header,
                self.retargeted(block_header, Seq::empty()),
            )
        }
    }

    /// What validation decides for `block_header`, given all that the
    /// storage answers: the genesis header is valid whatever its fields
    /// hold; for any other header the first failure decides, of fetching the
    /// tip, of the median timestamp check, of walking back through history,
    /// and of the difficulty check against the difficulty that the rules'
    /// retargeting gives for the difficulty window of the walk.
    pub open spec fn verdict(&self, block_header: &BlockHeader, answers: HeaderAnswers) -> Result<
        (),
        ValidationError,
    > {
        if self.rules().spec_is_genesis(block_header) {
            Ok(())
        } else {
            match answers.tip {
                Err(e) => Err(ValidationError::StorageFailure(e.message)),
                Ok(tip_header) => {
                    let timestamp_check = if median_start_height(
                        block_header.height,
                        self.rules().constants.median_timestamp_count,
                    ) == tip_header.height {
                        Ok(())
                    } else {
                        timestamp_verdict(block_header, &tip_header, answers.median_window)
                    };
                    if timestamp_check is Err {
                        timestamp_check
                    } else {
                        self.difficulty_verdict_of_walk(block_header, &tip_header, answers.history)
                    }
                },
            }
        }
    }

    /// The difficulty window that comes of the walk back from the tip, given the answers.
    pub open spec fn window_of(&self, block_header: &BlockHeader, answers: HeaderAnswers) -> Result<
        Seq<(u64, u64)>,
        ValidationError,
    > {
        history_window(
            answers.tip->Ok_0.height,
            self.rules().constants.difficulty_block_window,
            block_header.pow.pow_algo,
            answers.history,
        )
    }

    /// Whether the answers let `block_header` come as far as the comparison
    /// of its difficulty: the storage gives the tip and the history, and the
    /// median timestamp check passes.
    pub open spec fn reaches_difficulty_check(&self, block_header: &BlockHeader, answers: HeaderAnswers) -> bool {
        &&& answers.tip is Ok
        &&& self.window_of(block_header, answers) is Ok
        &&& median_start_height(block_header.height, self.rules().constants.median_timestamp_count)
            != answers.tip->Ok_0.height ==> timestamp_verdict(
            block_header,
            &answers.tip->Ok_0,
            answers.median_window,
        ) is Ok
    }

    /// For a header other than the genesis header that comes as far as the
    /// comparison of its difficulty, and for which the retargeting of the
    /// difficulty window gives `target`: if it records the target and
    /// achieves less, validation fails as too low; if it achieves the target
    /// and records another, validation fails as a mismatch of the target;
    /// and validation passes exactly where it records the target and
    /// achieves it.
    pub proof fn lemma_verdict_by_difficulty(&self, block_header: &BlockHeader, answers: HeaderAnswers, target: u64)
        requires
            !self.rules().spec_is_genesis(block_header),
            self.reaches_difficulty_check(block_header, answers),
            self.retargeted(block_header, self.window_of(block_header, answers)->Ok_0) == Ok::<
                u64,
                DifficultyAdjustmentError,
            >(target),
        ensures
            self.verdict(block_header, answers) == difficulty_verdict(block_header, target),
            block_header.pow.target_difficulty == target && block_header.pow.achieved_difficulty < target
                ==> self.verdict(block_header, answers) == Err::<(), ValidationError>(
                ValidationError::AchievedDifficultyTooLow,
            ),
            block_header.pow.achieved_difficulty >= target && block_header.pow.target_difficulty != target
                ==> self.verdict(block_header, answers) == Err::<(), ValidationError>(
                ValidationError::InvalidTargetDifficulty,
            ),
            self.verdict(block_header, answers) is Ok <==> block_header.pow.target_difficulty == target
                && block_header.pow.achieved_difficulty >= target,
    {
    }

    /// The genesis header is valid whatever its fields hold and whatever the
    /// storage answers.
    pub proof fn lemma_genesis_is_valid(&self, block_header: &BlockHeader, answers: HeaderAnswers)
        requires
            self.rules().spec_is_genesis(block_header),
        ensures
            self.verdict(block_header, answers) is Ok,
    {
    }

    /// Validation keeps no state: two validations of one header that get the
    /// same answers from the storage decide the same.
    pub proof fn lemma_validation_is_repeatable(
        &self,
        block_header: &BlockHeader,
        first: HeaderAnswers,
        second: HeaderAnswers,
    )
        requires
            first == second,
        ensures
            self.verdict(block_header, first) == self.verdict(block_header, second),
    {
    }

    /// A header other than the genesis header that validation accepts
    /// achieves the target difficulty that it records.
    pub proof fn lemma_valid_header_reaches_target(&self, block_header: &BlockHeader, answers: HeaderAnswers)
        requires
            !self.rules().spec_is_genesis(block_header),
            self.verdict(block_header, answers) is Ok,
        ensures
            block_header.pow.achieved_difficulty >= block_header.pow.target_difficulty,
    {
    }

    /// Compares the header's achieved difficulty and recorded target with the
    /// target that follows from the history before the tip.
    pub fn check_achieved_and_target_difficulty(
        &self,
        block_header: &BlockHeader,
        tip_header: &BlockHeader,
    ) -> (r: Result<(), ValidationError>)
        ensures
            self.difficulty_outcome(block_header, tip_header, r),
    {
        let pow_algo = block_header.pow.pow_algo;
        if self.is_genesis(block_header) {
            return check_difficulty_against_target(block_header, MIN_DIFFICULTY);
        }
        let fetched = self.fetch_target_difficulties(block_header, tip_header);
        let ghost answers = choose|answers: RoundAnswers|
            is_window(
                fetched,
                #[trigger] history_window(
                    tip_header.height,
                    self.rules().constants.difficulty_block_window,
                    block_header.pow.pow_algo,
                    answers,
                ),
            );
        let target_difficulties = match fetched {
            Ok(window) => window,
            Err(e) => {
                assert(Err::<(), ValidationError>(e) == self.difficulty_verdict_of_walk(
                    block_header,
                    tip_header,
                    answers,
                ));
                return Err(e);
            },
        };
        let ghost window = target_difficulties@;
        let constants = self.rules.consensus_constants();
        let retargeted = self.rules.difficulty_adjustment().get_target_difficulty(
            target_difficulties,
            constants.get_difficulty_block_window(),
            constants.get_diff_target_block_interval(),
            constants.min_pow_difficulty(pow_algo),
            constants.get_difficulty_max_block_interval(),
        );
        let r = judge_retargeting(block_header, retargeted);
        proof {
            assert(retargeted == self.retargeted(block_header, window));
            assert(r == self.difficulty_verdict_of_walk(block_header, tip_header, answers));
            if !self.walks_history(tip_header) {
                assert(window =~= Seq::<(u64, u64)>::empty());
            }
        }
        r
    }

    /// The heights whose headers the median timestamp check asks the storage
    /// for: those from the start of the window up to but without the tip.
    /// There is nothing to ask for the genesis header, nor where the window
    /// starts at the tip: then the check passes.
    pub fn median_window_request(&self, block_header: &BlockHeader, tip_header: &BlockHeader) -> (r: Option<
        Vec<u64>,
    >)
        ensures
            r is None <==> self.rules().spec_is_genesis(block_header) || median_start_height(
                block_header.height,
                self.rules().constants.median_timestamp_count,
            ) == tip_header.height,
            r is Some ==> r->Some_0@ == ascending_heights(
                median_start_height(block_header.height, self.rules().constants.median_timestamp_count),
                tip_header.height,
            ),
    {
        if self.is_genesis(block_header) {
            return None;
        }
        let count = self.rules.consensus_constants().get_median_timestamp_count();
        let start_height = block_header.height.saturating_sub(count as u64);
        if start_height == tip_header.height {
            return None;
        }
        Some(height_range(start_height, tip_header.height))
    }

    /// Tests that the header's timestamp does not lie before the median of
    /// the timestamps that precede it.
    pub fn check_median_timestamp(&self, block_header: &BlockHeader, tip_header: &BlockHeader) -> (r: Result<
        (),
        ValidationError,
    >)
        ensures
            self.timestamp_outcome(block_header, tip_header, r),
    {
        match self.median_window_request(block_header, tip_header) {
            None => Ok(()),
            Some(block_nums) => {
                let fetched = self.db.fetch_headers(block_nums);
                judge_timestamp(block_header, tip_header, fetched)
            },
        }
    }

    /// The timestamps and target difficulties of the most recent headers up
    /// to the tip that were mined with the header's algorithm: as many as the
    /// difficulty window holds, or fewer where history has no more, oldest first.
    ///
    /// History is walked back from the tip round by round: `next_history_batch`
    /// says which heights each round asks the storage for and when the walk
    /// ends, and `history_window` says what comes of the storage's answers.
    pub fn fetch_target_difficulties(&self, block_header: &BlockHeader, tip_header: &BlockHeader) -> (r: Result<
        Vec<(u64, u64)>,
        ValidationError,
    >)
        ensures
            r is Err ==> is_storage_failure(r) && self.walks_history(tip_header),
            r is Ok ==> r->Ok_0@.len() <= self.rules().constants.difficulty_block_window,
            !self.walks_history(tip_header) ==> r is Ok && r->Ok_0@.len() == 0,
            exists|answers: RoundAnswers|
                is_window(
                    r,
                    #[trigger] history_window(
                        tip_header.height,
                        self.rules().constants.difficulty_block_window,
                        block_header.pow.pow_algo,
                        answers,
                    ),
                ),
            r is Ok ==> exists|fetched: Seq<BlockHeader>|
                r->Ok_0@ == #[trigger] difficulty_window(
                    fetched,
                    block_header.pow.pow_algo,
                    self.rules().constants.difficulty_block_window,
                ),
    {
        let algo = block_header.pow.pow_algo;
        let block_window = self.rules.consensus_constants().get_difficulty_block_window();
        let mut target_difficulties: Vec<(u64, u64)> = Vec::new();
        let ghost mut fetched = Seq::<BlockHeader>::empty();
        let ghost mut log = Seq::<Result<Vec<BlockHeader>, ChainStorageError>>::empty();
        let ghost unasked: Result<Vec<BlockHeader>, ChainStorageError> = arbitrary();
        let mut round: u64 = 0;
        assert(target_difficulties@ =~= first_n(matching_samples(fetched, algo), block_window as int));
        assert(target_difficulties@ =~= Seq::<(u64, u64)>::empty());
        loop
            invariant_except_break
                round == log.len(),
            invariant
                algo == block_header.pow.pow_algo,
                block_window == self.rules().constants.difficulty_block_window,
                target_difficulties@ == first_n(matching_samples(fetched, algo), block_window as int),
                !self.walks_history(tip_header) ==> target_difficulties@.len() == 0,
                forall|answers: RoundAnswers| #[trigger]
                    begins_with(answers, log) ==> walk_from(
                        tip_header.height,
                        block_window,
                        algo,
                        answers,
                        0,
                        Seq::empty(),
                    ) == walk_from(tip_header.height, block_window, algo, answers, log.len(), target_difficulties@),
            ensures
                !walk_goes_on(tip_header.height, block_window, log.len(), target_difficulties@.len()),
            decreases
                    (if round * block_window <= tip_header.height {
                        tip_header.height + 1 - round * block_window
                    } else {
                        0
                    }),
        {
            let block_nums = match next_history_batch(
                tip_header.height,
                block_window,
                round,
                target_difficulties.len(),
            ) {
                Some(block_nums) => block_nums,
                None => {
                    break ;
                },
            };
            let ghost asked = log;
            let ghost gathered = target_difficulties@;
            let answer = self.db.fetch_headers(block_nums);
            proof {
                log = log.push(answer);
                assert forall|answers: RoundAnswers| #[trigger] begins_with(answers, log) implies begins_with(
                    answers,
                    asked,
                ) && answers(asked.len()) == answer by {
                    lemma_begins_with_one_more(answers, asked, answer);
                }
            }
            let headers = match answer {
                Ok(headers) => headers,
                Err(err) => {
                    proof {
                        let answers = answers_of(log, unasked);
                        assert(begins_with(answers, log));
                        assert(history_window(tip_header.height, block_window, algo, answers) == Err::<
                            Seq<(u64, u64)>,
                            ValidationError,
                        >(ValidationError::StorageFailure(err.message)));
                    }
                    return Err(ValidationError::from_storage(err));
                },
            };
            proof {
                lemma_first_n_in_steps(
                    matching_samples(fetched, algo),
                    matching_samples(headers@, algo),
                    block_window as int,
                );
                lemma_matching_samples_concat(fetched, headers@, algo);
                fetched = fetched + headers@;
            }
            collect_samples(&mut target_difficulties, &headers, algo, block_window);
            assert forall|answers: RoundAnswers| #[trigger] begins_with(answers, log) implies walk_from(
                tip_header.height,
                block_window,
                algo,
                answers,
                0,
                Seq::empty(),
            ) == walk_from(tip_header.height, block_window, algo, answers, log.len(), target_difficulties@) by {
                assert(begins_with(answers, asked));
                assert(walk_from(tip_header.height, block_window, algo, answers, asked.len(), gathered)
                    == walk_from(
                    tip_header.height,
                    block_window,
                    algo,
                    answers,
                    log.len(),
                    target_difficulties@,
                ));
            }
            let ghost walked = round * block_window;
            round = match round.checked_add(1) {
                Some(next) => next,
                None => {
                    assert(log.len() * block_window > tip_header.height) by (nonlinear_arith)
                        requires
                            log.len() > tip_header.height,
                            block_window >= 1,
                    ;
                    break ;
                },
            };
            assert(round * block_window == walked + block_window) by (nonlinear_arith)
                requires
                    walked == (round - 1) * block_window,
            ;
        }
        let ghost gathered = target_difficulties@;
        let window = reversed(target_difficulties);
        proof {
            let answers = answers_of(log, unasked);
            assert(begins_with(answers, log));
            assert(history_window(tip_header.height, block_window, algo, answers) == Ok::<
                Seq<(u64, u64)>,
                ValidationError,
            >(gathered.reverse()));
        }
        assert(window@ == difficulty_window(fetched, algo, block_window));
        Ok(window)
    }
}

impl<B: BlockchainBackend, F: ConsensusFunctions> StatelessValidation<BlockHeader> for HorizonHeadersValidator<B, F> {
    /// Validates a downloaded header: the genesis header is valid as it is;
    /// any other header must pass the median timestamp check and then the
    /// difficulty check against the current tip.
    fn validate(&self, header: &BlockHeader) -> (r: Result<(), ValidationError>)
        ensures
            self.rules().spec_is_genesis(header) ==> r is Ok,
            exists|answers: HeaderAnswers| r == #[trigger] self.verdict(header, answers),
    {
        let ghost unasked_window: Result<Vec<BlockHeader>, ChainStorageError> = arbitrary();
        let ghost unasked_history: RoundAnswers = arbitrary();
        if self.is_genesis(header) {
            proof {
                let answers = HeaderAnswers {
                    tip: arbitrary(),
                    median_window: unasked_window,
                    history: unasked_history,
                };
                assert(self.verdict(header, answers) is Ok);
            }
            return Ok(());
        }
        let tip_header = match self.db.fetch_tip_header() {
            Ok(tip_header) => tip_header,
            Err(e) => {
                proof {
                    let answers = HeaderAnswers { tip: Err(e), median_window: unasked_window, history: unasked_history };
                    assert(self.verdict(header, answers) == Err::<(), ValidationError>(
                        ValidationError::StorageFailure(e.message),
                    ));
                }
                return Err(ValidationError::from_storage(e));
            },
        };
        let timestamp_check = self.check_median_timestamp(header, &tip_header);
        let ghost window_is_empty = median_start_height(header.height, self.rules().constants.median_timestamp_count)
            == tip_header.height;
        let ghost median_window = if window_is_empty {
            unasked_window
        } else {
            choose|fetched: Result<Vec<BlockHeader>, ChainStorageError>|
                timestamp_check == #[trigger] timestamp_verdict(header, &tip_header, fetched)
        };
        if timestamp_check.is_err() {
            proof {
                let answers = HeaderAnswers { tip: Ok(tip_header), median_window, history: unasked_history };
                assert(self.verdict(header, answers) == timestamp_check);
            }
            return timestamp_check;
        }
        let r = self.check_achieved_and_target_difficulty(header, &tip_header);
        proof {
            let history = choose|history: RoundAnswers|
                r == #[trigger] self.difficulty_verdict_of_walk(header, &tip_header, history);
            let answers = HeaderAnswers { tip: Ok(tip_header), median_window, history };
            assert(self.verdict(header, answers) == r);
        }
        r
    }
}

} // verus!
