//! The decisions of header validation, as functions of the header and of what
//! the chain storage and the retargeting answered.

use crate::blocks::timestamps_of;
use crate::blocks::BlockHeader;
use crate::blocks::PowAlgorithm;
use crate::error::ChainStorageError;
use crate::error::DifficultyAdjustmentError;
use crate::error::ValidationError;
use crate::proof_of_work::get_median_timestamp;
use crate::proof_of_work::median_of;
use vstd::prelude::*;

verus! {

/// `a - b`, or 0 where `b` is the larger.
pub open spec fn saturating_difference(a: u64, b: u64) -> u64 {
    if a >= b {
        (a - b) as u64
    } else {
        0
    }
}

/// The height at which the window of the median timestamp begins, for a
/// header at `height`.
pub open spec fn median_start_height(height: u64, median_timestamp_count: usize) -> u64 {
    saturating_difference(height, median_timestamp_count as u64)
}

/// The heights `from`, `from + 1`, .. up to but without `to`.
pub open spec fn ascending_heights(from: u64, to: u64) -> Seq<u64> {
    Seq::new(saturating_difference(to, from) as nat, |i: int| (from + i) as u64)
}

/// The heights `top`, `top - 1`, .. : `count` of them, or all down to 0 where
/// there are fewer.
pub open spec fn descending_heights(top: u64, count: u64) -> Seq<u64> {
    Seq::new(
        if count <= top {
            count as nat
        } else {
            (top + 1) as nat
        },
        |i: int| (top - i) as u64,
    )
}

/// Whether history is walked at all for the difficulty window: not where the
/// window has no size, nor where the tip is at height 0.
pub open spec fn history_is_walked(tip_height: u64, block_window: u64) -> bool {
    saturating_difference(tip_height, block_window) != tip_height
}

/// Whether the walk back from the tip makes its round number `round`
/// (counting from 0) when it holds `held` samples: it does as long as the
/// window is not full and the round still begins at or above height 0.
pub open spec fn walk_goes_on(tip_height: u64, block_window: u64, round: nat, held: nat) -> bool {
    &&& history_is_walked(tip_height, block_window)
    &&& held < block_window
    &&& round * block_window <= tip_height
}

/// The heights that round number `round` of the walk asks for: the first
/// round begins at the tip, each later round just below the one before, and
/// each asks for as many heights as the window holds, or for all down to 0.
pub open spec fn history_batch_heights(tip_height: u64, block_window: u64, round: nat) -> Seq<u64> {
    descending_heights((tip_height - round * block_window) as u64, block_window)
}

/// The storage's answers to the rounds of a walk: `answers(i)` is its answer
/// to the heights of round number `i`.
pub type RoundAnswers = spec_fn(nat) -> Result<Vec<BlockHeader>, ChainStorageError>;

/// How many heights lie at or below the start of round number `round`.
pub open spec fn heights_left(tip_height: u64, block_window: u64, round: nat) -> nat {
    if round * block_window <= tip_height {
        (tip_height + 1 - round * block_window) as nat
    } else {
        0
    }
}

/// What comes of the walk from round number `round` on, where it holds
/// `samples`, given the storage's answers: the samples that it holds in the
/// end, the most recent first, or the storage's failure.
///
/// The walk ends as soon as the window is full or history is used up. In
/// each round it takes, in the order of the answer, the samples of the
/// headers that were mined with `algo`, as long as the window has room.
pub open spec fn walk_from(
    tip_height: u64,
    block_window: u64,
    algo: PowAlgorithm,
    answers: RoundAnswers,
    round: nat,
    samples: Seq<(u64, u64)>,
) -> Result<Seq<(u64, u64)>, ChainStorageError>
    decreases heights_left(tip_height, block_window, round),
    via walk_from_decreases
{
    if !walk_goes_on(tip_height, block_window, round, samples.len()) {
        Ok(samples)
    } else {
        match answers(round) {
            Err(e) => Err(e),
            Ok(headers) => walk_from(
                tip_height,
                block_window,
                algo,
                answers,
                round + 1,
                samples + first_n(matching_samples(headers@, algo), block_window - samples.len()),
            ),
        }
    }
}

#[via_fn]
proof fn walk_from_decreases(
    tip_height: u64,
    block_window: u64,
    algo: PowAlgorithm,
    answers: RoundAnswers,
    round: nat,
    samples: Seq<(u64, u64)>,
) {
    assert((round + 1) * block_window == round * block_window + block_window) by (nonlinear_arith);
}

/// The difficulty window that comes of a walk back from the tip, given the
/// storage's answers: what the walk holds in the end, oldest first, or the
/// storage's failure with its message.
pub open spec fn history_window(
    tip_height: u64,
    block_window: u64,
    algo: PowAlgorithm,
    answers: RoundAnswers,
) -> Result<Seq<(u64, u64)>, ValidationError> {
    match walk_from(tip_height, block_window, algo, answers, 0, Seq::empty()) {
        Ok(samples) => Ok(samples.reverse()),
        Err(e) => Err(ValidationError::StorageFailure(e.message)),
    }
}

/// Whether `r` is the window `expected`, or the same failure.
pub open spec fn is_window(
    r: Result<Vec<(u64, u64)>, ValidationError>,
    expected: Result<Seq<(u64, u64)>, ValidationError>,
) -> bool {
    match r {
        Ok(window) => expected == Ok::<Seq<(u64, u64)>, ValidationError>(window@),
        Err(e) => expected == Err::<Seq<(u64, u64)>, ValidationError>(e),
    }
}

/// Whether the first answers of `answers` are those of `log`, in their order.
pub open spec fn begins_with(answers: RoundAnswers, log: Seq<Result<Vec<BlockHeader>, ChainStorageError>>) -> bool {
    forall|i: nat| i < log.len() ==> #[trigger] answers(i) == log[i as int]
}

/// The answers of `log`, in their order, followed by `unasked` for ever.
pub open spec fn answers_of(
    log: Seq<Result<Vec<BlockHeader>, ChainStorageError>>,
    unasked: Result<Vec<BlockHeader>, ChainStorageError>,
) -> RoundAnswers {
    |i: nat|
        if i < log.len() {
            log[i as int]
        } else {
            unasked
        }
}

/// Answers that begin with a log and one more answer begin with the log, and
/// go on with that answer.
pub proof fn lemma_begins_with_one_more(
    answers: RoundAnswers,
    log: Seq<Result<Vec<BlockHeader>, ChainStorageError>>,
    answer: Result<Vec<BlockHeader>, ChainStorageError>,
)
    requires
        begins_with(answers, log.push(answer)),
    ensures
        begins_with(answers, log),
        answers(log.len()) == answer,
{
    let longer = log.push(answer);
    assert forall|i: nat| i < log.len() implies #[trigger] answers(i) == log[i as int] by {
        assert(longer[i as int] == log[i as int]);
    }
    assert(longer[log.len() as int] == answer);
}

/// Whether the answers are those of a storage that holds `chain`, with the
/// header of each height at that index, and that answers each round with
/// the headers asked for, in the order asked.
pub open spec fn answers_hold_chain(
    tip_height: u64,
    block_window: u64,
    answers: RoundAnswers,
    chain: Seq<BlockHeader>,
) -> bool {
    &&& chain.len() == tip_height + 1
    &&& forall|round: nat|
        round * block_window <= tip_height ==> (#[trigger] answers(round)) is Ok && answers(round)->Ok_0@
            == Seq::new(
            history_batch_heights(tip_height, block_window, round).len(),
            |i: int| chain[history_batch_heights(tip_height, block_window, round)[i] as int],
        )
}

/// How many of the highest heights the rounds before number `round` have asked for.
pub open spec fn heights_asked(tip_height: u64, block_window: u64, round: nat) -> int {
    if round * block_window <= tip_height {
        round * block_window
    } else {
        tip_height + 1
    }
}

/// On a storage that holds the chain and answers with what is asked for, a
/// walk that has gathered its samples from the heights asked so far comes
/// out as the first `block_window` matching samples of the whole chain,
/// taken from the tip down.
pub proof fn lemma_walk_of_faithful_storage(
    tip_height: u64,
    block_window: u64,
    algo: PowAlgorithm,
    answers: RoundAnswers,
    chain: Seq<BlockHeader>,
    round: nat,
    samples: Seq<(u64, u64)>,
)
    requires
        answers_hold_chain(tip_height, block_window, answers, chain),
        history_is_walked(tip_height, block_window),
        samples == first_n(
            matching_samples(chain.reverse().take(heights_asked(tip_height, block_window, round)), algo),
            block_window as int,
        ),
    ensures
        walk_from(tip_height, block_window, algo, answers, round, samples) == Ok::<
            Seq<(u64, u64)>,
            ChainStorageError,
        >(first_n(matching_samples(chain.reverse(), algo), block_window as int)),
    decreases heights_left(tip_height, block_window, round),
{
    let down = chain.reverse();
    let lo = heights_asked(tip_height, block_window, round);
    let seen = down.take(lo);
    let matches = matching_samples(seen, algo);
    assert((round + 1) * block_window == round * block_window + block_window) by (nonlinear_arith);
    if !walk_goes_on(tip_height, block_window, round, samples.len()) {
        if round * block_window > tip_height {
            assert(seen =~= down);
        } else {
            let rest = down.skip(lo);
            assert(down =~= seen + rest);
            lemma_matching_samples_concat(seen, rest, algo);
            assert(first_n(matches + matching_samples(rest, algo), block_window as int) =~= first_n(
                matches,
                block_window as int,
            ));
        }
    } else {
        let hi = heights_asked(tip_height, block_window, round + 1);
        let answer = answers(round)->Ok_0@;
        let batch = history_batch_heights(tip_height, block_window, round);
        assert(answer.len() == hi - lo);
        assert forall|i: int| 0 <= i < answer.len() implies answer[i] == down[lo + i] by {
            assert(batch[i] == tip_height - lo - i);
        }
        assert(down.take(hi) =~= seen + answer);
        lemma_matching_samples_concat(seen, answer, algo);
        lemma_first_n_in_steps(matches, matching_samples(answer, algo), block_window as int);
        let next = samples + first_n(matching_samples(answer, algo), block_window - samples.len());
        lemma_walk_of_faithful_storage(tip_height, block_window, algo, answers, chain, round + 1, next);
    }
}

/// On a storage that holds the chain up to the tip and answers with what
/// is asked for, the difficulty window is that of the whole chain taken
/// from the tip down: the most recent headers that were mined with the
/// algorithm, as many as the window holds or all where they are fewer,
/// oldest first.
pub proof fn lemma_window_of_faithful_storage(
    tip_height: u64,
    block_window: u64,
    algo: PowAlgorithm,
    answers: RoundAnswers,
    chain: Seq<BlockHeader>,
)
    requires
        answers_hold_chain(tip_height, block_window, answers, chain),
        history_is_walked(tip_height, block_window),
    ensures
        history_window(tip_height, block_window, algo, answers) == Ok::<Seq<(u64, u64)>, ValidationError>(
            difficulty_window(chain.reverse(), algo, block_window),
        ),
{
    let none = Seq::<(u64, u64)>::empty();
    assert(chain.reverse().take(0) =~= Seq::<BlockHeader>::empty());
    assert(first_n(matching_samples(chain.reverse().take(0), algo), block_window as int) =~= none);
    lemma_walk_of_faithful_storage(tip_height, block_window, algo, answers, chain, 0, none);
}

/// The rounds of the walk go down from the tip without a gap and without
/// overlap: each asks for at most the window's size of heights, none above
/// the tip, each height one below the one before it; a round that is not
/// the last ends one above the start of the next, and the last ends at 0.
pub proof fn lemma_history_batches_descend(tip_height: u64, block_window: u64, round: nat)
    requires
        block_window > 0,
        round * block_window <= tip_height,
    ensures
        ({
            let batch = history_batch_heights(tip_height, block_window, round);
            let next = history_batch_heights(tip_height, block_window, round + 1);
            &&& 0 < batch.len() <= block_window
            &&& batch[0] == tip_height - round * block_window
            &&& forall|i: int| 0 <= i < batch.len() ==> #[trigger] batch[i] == batch[0] - i
            &&& (round + 1) * block_window <= tip_height ==> batch.len() == block_window && next[0] + 1
                == batch.last()
            &&& (round + 1) * block_window > tip_height ==> batch.last() == 0
        }),
{
    assert((round + 1) * block_window == round * block_window + block_window) by (nonlinear_arith);
}

/// The first `n` items of `s`, or all of `s` where it has fewer.
pub open spec fn first_n<T>(s: Seq<T>, n: int) -> Seq<T> {
    if n <= 0 {
        Seq::empty()
    } else if n >= s.len() {
        s
    } else {
        s.take(n)
    }
}

/// The timestamp and target difficulty of each header mined with `algo`, in
/// the order of the headers.
pub open spec fn matching_samples(headers: Seq<BlockHeader>, algo: PowAlgorithm) -> Seq<(u64, u64)>
    decreases headers.len(),
{
    if headers.len() == 0 {
        Seq::empty()
    } else {
        let rest = matching_samples(headers.drop_last(), algo);
        let last = headers.last();
        if last.pow.pow_algo == algo {
            rest.push((last.timestamp, last.pow.target_difficulty))
        } else {
            rest
        }
    }
}

/// The difficulty window that follows from `fetched`, the headers in the
/// order in which they were fetched going back from the tip: the first
/// `block_window` of them that were mined with `algo`, oldest first.
pub open spec fn difficulty_window(fetched: Seq<BlockHeader>, algo: PowAlgorithm, block_window: u64) -> Seq<(u64, u64)> {
    first_n(matching_samples(fetched, algo), block_window as int).reverse()
}

/// What the median timestamp check decides for `block_header`, given the tip
/// and what the storage answered when asked for the headers before the tip.
pub open spec fn timestamp_verdict(
    block_header: &BlockHeader,
    tip_header: &BlockHeader,
    fetched: Result<Vec<BlockHeader>, ChainStorageError>,
) -> Result<(), ValidationError> {
    match fetched {
        Err(e) => Err(ValidationError::StorageFailure(e.message)),
        Ok(headers) => {
            if block_header.timestamp < median_of(timestamps_of(headers@).push(tip_header.timestamp)) {
                Err(ValidationError::InvalidTimestamp)
            } else {
                Ok(())
            }
        },
    }
}

/// What the difficulty check decides for `block_header`, given the target
/// difficulty that history asks for.
pub open spec fn difficulty_verdict(block_header: &BlockHeader, target: u64) -> Result<(), ValidationError> {
    if block_header.pow.target_difficulty != target {
        Err(ValidationError::InvalidTargetDifficulty)
    } else if block_header.pow.achieved_difficulty < target {
        Err(ValidationError::AchievedDifficultyTooLow)
    } else {
        Ok(())
    }
}

/// What the difficulty check decides for `block_header`, given what the
/// retargeting returned.
pub open spec fn retarget_verdict(
    block_header: &BlockHeader,
    retargeted: Result<u64, DifficultyAdjustmentError>,
) -> Result<(), ValidationError> {
    match retargeted {
        Err(_) => Err(ValidationError::InvalidProofOfWork),
        Ok(target) => difficulty_verdict(block_header, target),
    }
}

/// The difficulty check passes exactly where the header records the target
/// and achieves it. A header that records the target and achieves less fails
/// as too low; a header that achieves the target and records another fails
/// as a mismatch of the target.
pub proof fn lemma_difficulty_verdict(block_header: &BlockHeader, target: u64)
    ensures
        difficulty_verdict(block_header, target) is Ok <==> block_header.pow.target_difficulty == target
            && block_header.pow.achieved_difficulty >= target,
        block_header.pow.target_difficulty == target && block_header.pow.achieved_difficulty < target
            ==> difficulty_verdict(block_header, target) == Err::<(), ValidationError>(
            ValidationError::AchievedDifficultyTooLow,
        ),
        block_header.pow.achieved_difficulty >= target && block_header.pow.target_difficulty != target
            ==> difficulty_verdict(block_header, target) == Err::<(), ValidationError>(
            ValidationError::InvalidTargetDifficulty,
        ),
{
}

/// The heights from `from` up to but without `to`, in ascending order.
pub fn height_range(from: u64, to: u64) -> (heights: Vec<u64>)
    ensures
        heights@ == ascending_heights(from, to),
{
    let mut heights: Vec<u64> = Vec::new();
    let mut h = from;
    while h < to
        invariant
            from <= h,
            h <= to || h == from,
            heights@.len() == h - from,
            forall|i: int| 0 <= i < heights@.len() ==> heights@[i] == from + i,
        decreases to - h,
    {
        heights.push(h);
        h += 1;
    }
    assert(heights@ =~= ascending_heights(from, to));
    heights
}

/// The heights of one batch of the walk back from the tip: from `top` down,
/// `count` of them or as many as there are.
pub fn descending_batch(top: u64, count: u64) -> (heights: Vec<u64>)
    ensures
        heights@ == descending_heights(top, count),
{
    let mut heights: Vec<u64> = Vec::new();
    let mut taken: u64 = 0;
    while taken < count && taken <= top
        invariant
            taken <= count,
            taken <= top + 1,
            heights@.len() == taken,
            forall|i: int| 0 <= i < heights@.len() ==> heights@[i] == top - i,
        decreases count - taken,
    {
        heights.push(top - taken);
        taken += 1;
    }
    assert(heights@ =~= descending_heights(top, count));
    heights
}

/// The samples of two runs of headers are the samples of the first followed
/// by those of the second.
pub proof fn lemma_matching_samples_concat(a: Seq<BlockHeader>, b: Seq<BlockHeader>, algo: PowAlgorithm)
    ensures
        matching_samples(a + b, algo) == matching_samples(a, algo) + matching_samples(b, algo),
    decreases b.len(),
{
    if b.len() == 0 {
        assert(a + b =~= a);
        assert(matching_samples(a, algo) + matching_samples(b, algo) =~= matching_samples(a, algo));
    } else {
        lemma_matching_samples_concat(a, b.drop_last(), algo);
        assert((a + b).drop_last() =~= a + b.drop_last());
        assert((a + b).last() == b.last());
        let rest = matching_samples(a, algo) + matching_samples(b.drop_last(), algo);
        if b.last().pow.pow_algo == algo {
            let x = (b.last().timestamp, b.last().pow.target_difficulty);
            assert(rest.push(x) =~= matching_samples(a, algo) + matching_samples(b.drop_last(), algo).push(x));
        }
    }
}

/// The difficulty window never holds more samples than its size: it holds
/// all that match where they are fewer, and the first `block_window` of them
/// where there are more.
pub proof fn lemma_difficulty_window_len(fetched: Seq<BlockHeader>, algo: PowAlgorithm, block_window: u64)
    ensures
        difficulty_window(fetched, algo, block_window).len() <= block_window,
        matching_samples(fetched, algo).len() >= block_window ==> difficulty_window(
            fetched,
            algo,
            block_window,
        ).len() == block_window,
        matching_samples(fetched, algo).len() < block_window ==> difficulty_window(
            fetched,
            algo,
            block_window,
        ).len() == matching_samples(fetched, algo).len(),
{
}

/// Filling a window in two steps gives the same as filling it in one.
pub proof fn lemma_first_n_in_steps<T>(x: Seq<T>, y: Seq<T>, n: int)
    ensures
        first_n(x, n) + first_n(y, n - first_n(x, n).len()) == first_n(x + y, n),
{
    assert(first_n(x, n) + first_n(y, n - first_n(x, n).len()) =~= first_n(x + y, n));
}

/// Adds to `samples` the timestamp and target difficulty of each of
/// `headers` that was mined with `algo`, in their order, as long as `samples`
/// holds fewer than `block_window` entries.
pub fn collect_samples(
    samples: &mut Vec<(u64, u64)>,
    headers: &Vec<BlockHeader>,
    algo: PowAlgorithm,
    block_window: u64,
)
    ensures
        final(samples)@ == old(samples)@ + first_n(
            matching_samples(headers@, algo),
            block_window - old(samples)@.len(),
        ),
{
    let ghost before = samples@;
    let ghost room = block_window - before.len();
    let n = headers.len();
    let mut i: usize = 0;
    assert(headers@.take(0) =~= Seq::<BlockHeader>::empty());
    assert(samples@ =~= before + first_n(matching_samples(headers@.take(0), algo), room));
    while i < n
        invariant
            n == headers.len(),
            i <= n,
            room == block_window - before.len(),
            samples@ == before + first_n(matching_samples(headers@.take(i as int), algo), room),
        decreases n - i,
    {
        let header = &headers[i];
        let ghost seen = matching_samples(headers@.take(i as int), algo);
        proof {
            assert(headers@.take(i + 1).drop_last() =~= headers@.take(i as int));
            assert(headers@.take(i + 1).last() == headers@[i as int]);
        }
        if header.pow.pow_algo == algo && (samples.len() as u64) < block_window {
            samples.push((header.timestamp, header.pow.target_difficulty));
            proof {
                let x = (header.timestamp, header.pow.target_difficulty);
                assert(seen.len() < room);
                assert(first_n(seen.push(x), room) =~= first_n(seen, room).push(x));
                assert(samples@ =~= before + first_n(seen.push(x), room));
            }
        } else if header.pow.pow_algo == algo {
            proof {
                let x = (header.timestamp, header.pow.target_difficulty);
                assert(first_n(seen.push(x), room) =~= first_n(seen, room));
            }
        }
        i += 1;
    }
    assert(headers@.take(n as int) =~= headers@);
}

/// The items of `samples` in the opposite order.
pub fn reversed(samples: Vec<(u64, u64)>) -> (r: Vec<(u64, u64)>)
    ensures
        r@ == samples@.reverse(),
{
    let n = samples.len();
    let mut r: Vec<(u64, u64)> = Vec::new();
    let mut i: usize = n;
    while i > 0
        invariant
            n == samples.len(),
            i <= n,
            r@.len() == n - i,
            forall|j: int| 0 <= j < r@.len() ==> r@[j] == samples@[n - 1 - j],
        decreases i,
    {
        i -= 1;
        r.push(samples[i]);
    }
    assert(r@ =~= samples@.reverse());
    r
}

/// The heights that the walk back from the tip asks for next, in its round
/// number `round` and holding `held` samples; none once the window is full or
/// history is used up, and none where history is not walked at all.
pub fn next_history_batch(tip_height: u64, block_window: u64, round: u64, held: usize) -> (r: Option<Vec<u64>>)
    ensures
        r is Some <==> walk_goes_on(tip_height, block_window, round as nat, held as nat),
        r is Some ==> r->Some_0@ == history_batch_heights(tip_height, block_window, round as nat),
{
    if tip_height.saturating_sub(block_window) == tip_height {
        return None;
    }
    if held as u64 >= block_window {
        return None;
    }
    match round.checked_mul(block_window) {
        Some(walked) => {
            if walked > tip_height {
                None
            } else {
                Some(descending_batch(tip_height - walked, block_window))
            }
        },
        None => {
            assert(round * block_window > tip_height);
            None
        },
    }
}

/// Decides the median timestamp check from what the storage answered:
/// a storage failure is handed on with its message; otherwise the header's
/// timestamp must not lie before the median of the fetched timestamps and the
/// tip's.
pub fn judge_timestamp(
    block_header: &BlockHeader,
    tip_header: &BlockHeader,
    fetched: Result<Vec<BlockHeader>, ChainStorageError>,
) -> (r: Result<(), ValidationError>)
    ensures
        r == timestamp_verdict(block_header, tip_header, fetched),
{
    match fetched {
        Err(e) => Err(ValidationError::from_storage(e)),
        Ok(headers) => {
            let mut timestamps: Vec<u64> = Vec::new();
            let n = headers.len();
            let mut i: usize = 0;
            while i < n
                invariant
                    n == headers.len(),
                    i <= n,
                    timestamps@.len() == i,
                    forall|j: int| 0 <= j < i ==> timestamps@[j] == headers@[j].timestamp,
                decreases n - i,
            {
                timestamps.push(headers[i].timestamp);
                i += 1;
            }
            timestamps.push(tip_header.timestamp);
            assert(timestamps@ =~= timestamps_of(headers@).push(tip_header.timestamp));
            match get_median_timestamp(timestamps) {
                Some(median_timestamp) => {
                    if block_header.timestamp < median_timestamp {
                        Err(ValidationError::InvalidTimestamp)
                    } else {
                        Ok(())
                    }
                },
                None => Ok(()),
            }
        },
    }
}

/// Compares the header's recorded and achieved difficulty with the target:
/// the recorded target must be the target exactly, and the achieved
/// difficulty must reach it.
pub fn check_difficulty_against_target(block_header: &BlockHeader, target: u64) -> (r: Result<(), ValidationError>)
    ensures
        r == difficulty_verdict(block_header, target),
{
    if block_header.pow.target_difficulty != target {
        return Err(ValidationError::InvalidTargetDifficulty);
    }
    let achieved = block_header.achieved_difficulty();
    if achieved < target {
        return Err(ValidationError::AchievedDifficultyTooLow);
    }
    Ok(())
}

/// Decides the difficulty check from what the retargeting returned: its
/// failure is a proof-of-work error, its target is compared with the header.
pub fn judge_retargeting(
    block_header: &BlockHeader,
    retargeted: Result<u64, DifficultyAdjustmentError>,
) -> (r: Result<(), ValidationError>)
    ensures
        r == retarget_verdict(block_header, retargeted),
{
    match retargeted {
        Err(_) => Err(ValidationError::InvalidProofOfWork),
        Ok(target) => check_difficulty_against_target(block_header, target),
    }
}

} // verus!
