use vstd::prelude::*;

use crate::account::AccountId;

verus! {

/// Why a quiz submission was refused.
#[derive(Debug, Clone, Copy, PartialEq, Eq, PartialOrd, Ord, Structural)]
pub enum QuizError {
    /// `maximum_score` was zero, so no score could be graded against it
    InvalidMaximumScore,
    /// `score` exceeded `maximum_score`
    ScoreOutOfRange,
    /// `passing_score` exceeded `maximum_score`, making the quiz unpassable
    InvalidPassingScore,
    /// The `(student, quiz)` pair already holds `u32::MAX` attempts
    TooManyAttempts,
}

/// A quiz definition attached to a lesson.
#[derive(Debug, Clone, Copy, PartialEq, Eq, Structural)]
pub struct Quiz {
    pub quiz_id: u64,
    pub lesson_id: u64,
    pub passing_score: u32,
    pub maximum_score: u32,
    pub reward_points: u32,
    pub is_active: bool,
}

/// A single graded quiz attempt.
///
/// Attempts are append-only: once recorded, an entry is never mutated or
/// removed, so the sequence of attempts forms an immutable audit trail.
#[derive(Debug, PartialEq, Eq)]
pub struct QuizAttempt {
    /// Quiz this attempt belongs to
    pub quiz_id: u64,
    /// Learner who submitted the attempt
    pub student: AccountId,
    /// 1-based position in the learner's history for this quiz
    pub attempt_number: u32,
    /// Points awarded
    pub score: u32,
    /// Points available at the time of the attempt
    pub maximum_score: u32,
    /// Threshold the attempt was graded against
    pub passing_score: u32,
    /// Whether `score` met `passing_score`
    pub passed: bool,
    /// Ledger timestamp when the attempt was recorded
    pub timestamp: u64,
}

impl Clone for QuizAttempt {
    fn clone(&self) -> (copy: Self)
        ensures
            copy == *self,
    {
        QuizAttempt {
            quiz_id: self.quiz_id,
            student: self.student.clone(),
            attempt_number: self.attempt_number,
            score: self.score,
            maximum_score: self.maximum_score,
            passing_score: self.passing_score,
            passed: self.passed,
            timestamp: self.timestamp,
        }
    }
}

/// Storage keys of the quiz module.
#[derive(Debug, PartialEq, Eq)]
pub enum DataKey {
    /// Append-only attempt history for a `(student, quiz)` pair
    QuizHistory(AccountId, u64),
}

/// The storage key under which the history of `(student, quiz_id)` is kept.
pub fn history_key(student: &AccountId, quiz_id: u64) -> (key: DataKey)
    ensures
        key == DataKey::QuizHistory(*student, quiz_id),
{
    DataKey::QuizHistory(student.clone(), quiz_id)
}

// ---------------------------------------------------------------------------
// The model of grading and of a single history.
// ---------------------------------------------------------------------------

/// The error, if any, with which a submission is refused, given how many
/// attempts the learner already holds for the quiz. The checks are made in
/// this order.
pub open spec fn submission_error(
    score: u32,
    maximum_score: u32,
    passing_score: u32,
    prior_attempts: nat,
) -> Option<QuizError> {
    if maximum_score == 0 {
        Some(QuizError::InvalidMaximumScore)
    } else if score > maximum_score {
        Some(QuizError::ScoreOutOfRange)
    } else if passing_score > maximum_score {
        Some(QuizError::InvalidPassingScore)
    } else if prior_attempts == u32::MAX {
        Some(QuizError::TooManyAttempts)
    } else {
        None
    }
}

/// The attempt that a valid submission records after `prior_attempts`
/// earlier attempts.
pub open spec fn graded_attempt(
    student: AccountId,
    quiz_id: u64,
    score: u32,
    maximum_score: u32,
    passing_score: u32,
    timestamp: u64,
    prior_attempts: nat,
) -> QuizAttempt {
    QuizAttempt {
        quiz_id,
        student,
        attempt_number: (prior_attempts + 1) as u32,
        score,
        maximum_score,
        passing_score,
        passed: score >= passing_score,
        timestamp,
    }
}

/// What a submission yields: the refusal, or the attempt that is recorded.
pub open spec fn submission_outcome(
    student: AccountId,
    quiz_id: u64,
    score: u32,
    maximum_score: u32,
    passing_score: u32,
    timestamp: u64,
    prior_attempts: nat,
) -> Result<QuizAttempt, QuizError> {
    match submission_error(score, maximum_score, passing_score, prior_attempts) {
        Some(e) => Err(e),
        None => Ok(
            graded_attempt(
                student,
                quiz_id,
                score,
                maximum_score,
                passing_score,
                timestamp,
                prior_attempts,
            ),
        ),
    }
}

/// A history after a submission with the given outcome.
pub open spec fn history_after(
    history: Seq<QuizAttempt>,
    outcome: Result<QuizAttempt, QuizError>,
) -> Seq<QuizAttempt> {
    match outcome {
        Ok(attempt) => history.push(attempt),
        Err(_) => history,
    }
}

/// The attempt with the given 1-based number, if there is one.
pub open spec fn attempt_numbered(history: Seq<QuizAttempt>, attempt_number: u32) -> Option<
    QuizAttempt,
> {
    if attempt_number == 0 || attempt_number > history.len() {
        None
    } else {
        Some(history[attempt_number - 1])
    }
}

/// The most recent attempt, if there is one.
pub open spec fn latest(history: Seq<QuizAttempt>) -> Option<QuizAttempt> {
    if history.len() == 0 {
        None
    } else {
        Some(history.last())
    }
}

/// The largest score in a history, or 0 for an empty one.
pub open spec fn top_score(history: Seq<QuizAttempt>) -> u32
    decreases history.len(),
{
    if history.len() == 0 {
        0
    } else {
        let earlier = top_score(history.drop_last());
        if history.last().score > earlier {
            history.last().score
        } else {
            earlier
        }
    }
}

/// The highest score of a history, or `None` when it is empty.
pub open spec fn best_score(history: Seq<QuizAttempt>) -> Option<u32> {
    if history.len() == 0 {
        None
    } else {
        Some(top_score(history))
    }
}

/// Whether some attempt of a history passed.
pub open spec fn passed_any(history: Seq<QuizAttempt>) -> bool {
    exists|i: int| 0 <= i < history.len() && #[trigger] history[i].passed
}

/// Whether attempt `i` of a history carries the number `i + 1`, for every
/// `i`, and the history fits the `u32` numbering.
pub open spec fn numbered_in_order(history: Seq<QuizAttempt>) -> bool {
    &&& history.len() <= u32::MAX
    &&& forall|i: int| 0 <= i < history.len() ==> #[trigger] history[i].attempt_number == i + 1
}

/// Grades a submission against a learner's history for one quiz and, when
/// it is accepted, appends the new attempt to that history.
///
/// The attempt number is derived from the length of the history, so
/// numbering cannot drift out of sync with the entries it labels. Existing
/// entries are left untouched, and a refused submission leaves the history
/// as it was.
pub fn append_attempt(
    history: &mut Vec<QuizAttempt>,
    student: AccountId,
    quiz_id: u64,
    score: u32,
    maximum_score: u32,
    passing_score: u32,
    timestamp: u64,
) -> (result: Result<QuizAttempt, QuizError>)
    requires
        old(history)@.len() <= u32::MAX,
    ensures
        result == submission_outcome(
            student,
            quiz_id,
            score,
            maximum_score,
            passing_score,
            timestamp,
            old(history)@.len(),
        ),
        final(history)@ == history_after(old(history)@, result),
{
    if maximum_score == 0 {
        return Err(QuizError::InvalidMaximumScore);
    }
    if score > maximum_score {
        return Err(QuizError::ScoreOutOfRange);
    }
    if passing_score > maximum_score {
        return Err(QuizError::InvalidPassingScore);
    }
    let len = history.len();
    if len == 4294967295usize {
        return Err(QuizError::TooManyAttempts);
    }
    let attempt = QuizAttempt {
        quiz_id,
        student,
        attempt_number: (len + 1) as u32,
        score,
        maximum_score,
        passing_score,
        passed: score >= passing_score,
        timestamp,
    };
    history.push(attempt.clone());
    Ok(attempt)
}

/// Looks up a single attempt of a history by its 1-based attempt number.
pub fn attempt_of(history: &Vec<QuizAttempt>, attempt_number: u32) -> (found: Option<QuizAttempt>)
    ensures
        found == attempt_numbered(history@, attempt_number),
{
    if attempt_number == 0 {
        return None;
    }
    let index = (attempt_number - 1) as usize;
    if index < history.len() {
        Some(history[index].clone())
    } else {
        None
    }
}

/// The most recent attempt of a history, or `None` when it is empty.
pub fn latest_of(history: &Vec<QuizAttempt>) -> (found: Option<QuizAttempt>)
    ensures
        found == latest(history@),
{
    let len = history.len();
    if len == 0 {
        None
    } else {
        Some(history[len - 1].clone())
    }
}

/// The highest score of a history, or `None` when it is empty.
pub fn best_score_of(history: &Vec<QuizAttempt>) -> (best: Option<u32>)
    ensures
        best == best_score(history@),
{
    let len = history.len();
    if len == 0 {
        return None;
    }
    let mut best: u32 = 0;
    let mut i: usize = 0;
    while i < len
        invariant
            len == history@.len(),
            i <= len,
            best == top_score(history@.take(i as int)),
        decreases len - i,
    {
        assert(history@.take(i + 1).drop_last() =~= history@.take(i as int));
        if history[i].score > best {
            best = history[i].score;
        }
        i = i + 1;
    }
    assert(history@.take(len as int) =~= history@);
    Some(best)
}

/// Whether any attempt of a history passed.
pub fn any_passed(history: &Vec<QuizAttempt>) -> (passed: bool)
    ensures
        passed == passed_any(history@),
{
    let len = history.len();
    let mut i: usize = 0;
    while i < len
        invariant
            len == history@.len(),
            i <= len,
            forall|j: int| 0 <= j < i ==> !(#[trigger] history@[j]).passed,
        decreases len - i,
    {
        if history[i].passed {
            return true;
        }
        i = i + 1;
    }
    false
}

// ---------------------------------------------------------------------------
// The persistent record of attempts, for every learner and quiz.
// ---------------------------------------------------------------------------

/// Whether an attempt belongs to the history of `(student, quiz_id)`.
pub open spec fn belongs_to(attempt: QuizAttempt, student: Seq<char>, quiz_id: u64) -> bool {
    attempt.student@ == student && attempt.quiz_id == quiz_id
}

/// The attempts of `log` that belong to `(student, quiz_id)`, in the order
/// in which they were recorded.
pub open spec fn history_in(log: Seq<QuizAttempt>, student: Seq<char>, quiz_id: u64) -> Seq<
    QuizAttempt,
>
    decreases log.len(),
{
    if log.len() == 0 {
        Seq::empty()
    } else {
        let earlier = history_in(log.drop_last(), student, quiz_id);
        if belongs_to(log.last(), student, quiz_id) {
            earlier.push(log.last())
        } else {
            earlier
        }
    }
}

/// Recording one more attempt extends the history it belongs to, and no
/// other.
pub proof fn lemma_history_in_push(
    log: Seq<QuizAttempt>,
    attempt: QuizAttempt,
    student: Seq<char>,
    quiz_id: u64,
)
    ensures
        history_in(log.push(attempt), student, quiz_id) == if belongs_to(
            attempt,
            student,
            quiz_id,
        ) {
            history_in(log, student, quiz_id).push(attempt)
        } else {
            history_in(log, student, quiz_id)
        },
{
    assert(log.push(attempt).drop_last() =~= log);
}

/// The attempts recorded so far, for every learner and quiz, in the order in
/// which they were recorded. The history of a `(student, quiz)` pair is the
/// part of this record that belongs to the pair; a pair that was never
/// attempted has an empty history.
pub struct QuizStore {
    attempts: Vec<QuizAttempt>,
}

impl View for QuizStore {
    type V = Seq<QuizAttempt>;

    closed spec fn view(&self) -> Seq<QuizAttempt> {
        self.attempts@
    }
}

impl QuizStore {
    /// The history of `(student, quiz_id)`, oldest first.
    pub open spec fn history(&self, student: Seq<char>, quiz_id: u64) -> Seq<QuizAttempt> {
        history_in(self@, student, quiz_id)
    }

    /// Every history is numbered 1, 2, 3, ... in order and fits the `u32`
    /// numbering.
    #[verifier::type_invariant]
    spec fn well_formed(&self) -> bool {
        forall|student: Seq<char>, quiz_id: u64|
            #[trigger] numbered_in_order(self.history(student, quiz_id))
    }

    /// A store in which nothing has been recorded.
    pub fn new() -> (store: Self)
        ensures
            store@ == Seq::<QuizAttempt>::empty(),
            forall|student: Seq<char>, quiz_id: u64|
                #[trigger] store.history(student, quiz_id) == Seq::<QuizAttempt>::empty(),
    {
        QuizStore { attempts: Vec::new() }
    }
}

/// Returns every attempt a learner has made on a quiz, oldest first.
///
/// An empty vector is returned when the learner has no recorded attempts.
/// The attempts are numbered 1, 2, 3, ... in the order they were recorded.
pub fn get_quiz_history(store: &QuizStore, student: &AccountId, quiz_id: u64) -> (history: Vec<
    QuizAttempt,
>)
    ensures
        history@ == store.history(student@, quiz_id),
        numbered_in_order(history@),
{
    proof {
        use_type_invariant(store);
    }
    let len = store.attempts.len();
    let mut history: Vec<QuizAttempt> = Vec::new();
    let mut i: usize = 0;
    while i < len
        invariant
            len == store.attempts@.len(),
            i <= len,
            history@ == history_in(store.attempts@.take(i as int), student@, quiz_id),
        decreases len - i,
    {
        proof {
            assert(store.attempts@.take(i + 1) =~= store.attempts@.take(i as int).push(
                store.attempts@[i as int],
            ));
            lemma_history_in_push(
                store.attempts@.take(i as int),
                store.attempts@[i as int],
                student@,
                quiz_id,
            );
        }
        let attempt = &store.attempts[i];
        if attempt.quiz_id == quiz_id && attempt.student.same_as(student) {
            history.push(attempt.clone());
        }
        i = i + 1;
    }
    assert(store.attempts@.take(len as int) =~= store.attempts@);
    history
}

/// Records a quiz attempt, appending it to the learner's history.
///
/// The attempt number is derived from the length of the stored history
/// rather than a separate counter, so numbering cannot drift out of sync
/// with the entries it labels. Existing entries are left untouched, the
/// histories of other learners and quizzes are left untouched, and a refused
/// submission changes nothing.
pub fn record_quiz_attempt(
    store: &mut QuizStore,
    student: AccountId,
    quiz_id: u64,
    score: u32,
    maximum_score: u32,
    passing_score: u32,
    timestamp: u64,
) -> (result: Result<QuizAttempt, QuizError>)
    ensures
        result == submission_outcome(
            student,
            quiz_id,
            score,
            maximum_score,
            passing_score,
            timestamp,
            old(store).history(student@, quiz_id).len(),
        ),
        final(store).history(student@, quiz_id) == history_after(
            old(store).history(student@, quiz_id),
            result,
        ),
        forall|other: Seq<char>, other_quiz: u64|
            !(other == student@ && other_quiz == quiz_id) ==> #[trigger] final(store).history(
                other,
                other_quiz,
            ) == old(store).history(other, other_quiz),
        result is Err ==> final(store)@ == old(store)@,
{
    let ghost key = student@;
    proof {
        use_type_invariant(&*store);
    }
    let mut history = get_quiz_history(store, &student, quiz_id);
    let result = append_attempt(
        &mut history,
        student,
        quiz_id,
        score,
        maximum_score,
        passing_score,
        timestamp,
    );
    match &result {
        Ok(attempt) => {
            let ghost old_log = store.attempts@;
            let mut log: Vec<QuizAttempt> = Vec::new();
            std::mem::swap(&mut log, &mut store.attempts);
            log.push(attempt.clone());
            proof {
                assert(log@ == old_log.push(*attempt));
                assert forall|other: Seq<char>, other_quiz: u64|
                    #[trigger] numbered_in_order(history_in(log@, other, other_quiz)) by {
                    lemma_history_in_push(old_log, *attempt, other, other_quiz);
                    assert(numbered_in_order(old(store).history(other, other_quiz)));
                }
            }
            store.attempts = log;
            proof {
                assert forall|other: Seq<char>, other_quiz: u64|
                    !(other == key && other_quiz == quiz_id) implies #[trigger] store.history(
                    other,
                    other_quiz,
                ) == old(store).history(other, other_quiz) by {
                    lemma_history_in_push(old_log, *attempt, other, other_quiz);
                }
                lemma_history_in_push(old_log, *attempt, key, quiz_id);
            }
        },
        Err(_) => {},
    }
    result
}

/// Number of attempts a learner has made on a quiz.
pub fn get_attempt_count(store: &QuizStore, student: &AccountId, quiz_id: u64) -> (count: u32)
    ensures
        count == store.history(student@, quiz_id).len(),
{
    let history = get_quiz_history(store, student, quiz_id);
    history.len() as u32
}

/// Looks up a single attempt by its 1-based attempt number.
pub fn get_quiz_attempt(
    store: &QuizStore,
    student: &AccountId,
    quiz_id: u64,
    attempt_number: u32,
) -> (found: Option<QuizAttempt>)
    ensures
        found == attempt_numbered(store.history(student@, quiz_id), attempt_number),
{
    if attempt_number == 0 {
        return None;
    }
    let history = get_quiz_history(store, student, quiz_id);
    attempt_of(&history, attempt_number)
}

/// Most recent attempt, or `None` when the learner has never attempted the
/// quiz.
pub fn get_latest_attempt(store: &QuizStore, student: &AccountId, quiz_id: u64) -> (found: Option<
    QuizAttempt,
>)
    ensures
        found == latest(store.history(student@, quiz_id)),
{
    let history = get_quiz_history(store, student, quiz_id);
    latest_of(&history)
}

/// Highest score across all attempts, or `None` when there are none.
pub fn get_best_score(store: &QuizStore, student: &AccountId, quiz_id: u64) -> (best: Option<u32>)
    ensures
        best == best_score(store.history(student@, quiz_id)),
{
    let history = get_quiz_history(store, student, quiz_id);
    best_score_of(&history)
}

/// Whether any attempt in the learner's history passed the quiz.
pub fn has_passed_quiz(store: &QuizStore, student: &AccountId, quiz_id: u64) -> (passed: bool)
    ensures
        passed == passed_any(store.history(student@, quiz_id)),
{
    let history = get_quiz_history(store, student, quiz_id);
    any_passed(&history)
}

// ---------------------------------------------------------------------------
// Laws of histories.
// ---------------------------------------------------------------------------

/// The best score of a history exists exactly when the history is not
/// empty; it is at least every score of the history and it is the score of
/// one of its attempts.
pub proof fn lemma_best_score_is_highest(history: Seq<QuizAttempt>)
    ensures
        (best_score(history) is Some) == (history.len() > 0),
        forall|i: int| 0 <= i < history.len() ==> #[trigger] history[i].score <= top_score(history),
        history.len() > 0 ==> exists|i: int|
            0 <= i < history.len() && #[trigger] history[i].score == top_score(history),
    decreases history.len(),
{
    if history.len() > 0 {
        let earlier = history.drop_last();
        lemma_best_score_is_highest(earlier);
        assert forall|i: int| 0 <= i < history.len() implies #[trigger] history[i].score
            <= top_score(history) by {
            if i < earlier.len() {
                assert(history[i] == earlier[i]);
            }
        }
        if history.last().score <= top_score(earlier) && earlier.len() > 0 {
            let j = choose|j: int| 0 <= j < earlier.len() && #[trigger] earlier[j].score == top_score(
                earlier,
            );
            assert(history[j] == earlier[j]);
        } else {
            assert(history[history.len() - 1] == history.last());
        }
    }
}

/// In a history numbered in order, the attempt found under number `n` is
/// the one that carries `n`, and one is found exactly for `1 <= n <= len`.
pub proof fn lemma_attempt_found_by_its_number(history: Seq<QuizAttempt>, attempt_number: u32)
    requires
        numbered_in_order(history),
    ensures
        (attempt_numbered(history, attempt_number) is Some) == (1 <= attempt_number
            <= history.len()),
        attempt_numbered(history, attempt_number) matches Some(attempt) ==> attempt.attempt_number
            == attempt_number,
{
    if 1 <= attempt_number <= history.len() {
        assert(history[attempt_number - 1].attempt_number == attempt_number);
    }
}

/// A later attempt leaves every earlier attempt as it was, becomes the
/// latest attempt, never lowers the best score and never erases a pass.
pub proof fn lemma_later_attempt_keeps_record(history: Seq<QuizAttempt>, attempt: QuizAttempt)
    ensures
        forall|i: int| 0 <= i < history.len() ==> #[trigger] history.push(attempt)[i] == history[i],
        latest(history.push(attempt)) == Some(attempt),
        passed_any(history) ==> passed_any(history.push(attempt)),
        best_score(history.push(attempt)) matches Some(best) && best >= attempt.score,
        best_score(history) matches Some(before) ==> best_score(history.push(attempt)) matches Some(
            after,
        ) && after >= before,
{
    let longer = history.push(attempt);
    assert(longer.drop_last() =~= history);
    if passed_any(history) {
        let i = choose|i: int| 0 <= i < history.len() && #[trigger] history[i].passed;
        assert(longer[i] == history[i]);
    }
}

/// Whether the attempts of a history were recorded at non-decreasing times,
/// oldest first.
pub open spec fn ordered_by_time(history: Seq<QuizAttempt>) -> bool {
    forall|i: int, j: int|
        0 <= i < j < history.len() ==> #[trigger] history[i].timestamp
            <= #[trigger] history[j].timestamp
}

/// Recording keeps a history oldest first: when a submission is made no
/// earlier than the latest attempt already held, the history after it
/// (whether the submission is accepted or refused) is still ordered by time
/// and still numbered 1, 2, 3, ... . An empty history is ordered by time, so
/// a history built only by recordings at non-decreasing times is ordered by
/// time.
pub proof fn lemma_recording_keeps_time_order(
    history: Seq<QuizAttempt>,
    student: AccountId,
    quiz_id: u64,
    score: u32,
    maximum_score: u32,
    passing_score: u32,
    timestamp: u64,
)
    requires
        ordered_by_time(history),
        numbered_in_order(history),
        latest(history) matches Some(last) ==> last.timestamp <= timestamp,
    ensures
        ordered_by_time(Seq::<QuizAttempt>::empty()),
        ordered_by_time(
            history_after(
                history,
                submission_outcome(
                    student,
                    quiz_id,
                    score,
                    maximum_score,
                    passing_score,
                    timestamp,
                    history.len(),
                ),
            ),
        ),
        numbered_in_order(
            history_after(
                history,
                submission_outcome(
                    student,
                    quiz_id,
                    score,
                    maximum_score,
                    passing_score,
                    timestamp,
                    history.len(),
                ),
            ),
        ),
{
    let outcome = submission_outcome(
        student,
        quiz_id,
        score,
        maximum_score,
        passing_score,
        timestamp,
        history.len(),
    );
    if let Ok(attempt) = outcome {
        let longer = history.push(attempt);
        assert forall|i: int, j: int| 0 <= i < j < longer.len() implies #[trigger] longer[i].timestamp
            <= #[trigger] longer[j].timestamp by {
            if j == history.len() {
                let last = history.len() - 1;
                if i < last {
                    assert(history[i].timestamp <= history[last].timestamp);
                }
                assert(history[last] == history.last());
            } else {
                assert(longer[i] == history[i] && longer[j] == history[j]);
                assert(history[i].timestamp <= history[j].timestamp);
            }
        }
        assert forall|i: int| 0 <= i < longer.len() implies #[trigger] longer[i].attempt_number
            == i + 1 by {
            if i < history.len() {
                assert(longer[i] == history[i]);
            }
        }
    }
}

// ---------------------------------------------------------------------------
// Laws of grading and of the queries, stated by the inputs and results.
// ---------------------------------------------------------------------------

/// A submission is accepted exactly when the maximum score is positive, the
/// score and the passing score do not exceed it, and fewer than `u32::MAX`
/// attempts are held; an accepted submission grows the history by one
/// attempt, and a refused one leaves it as it was. When several checks fail,
/// the first in the order maximum, score, passing score, count is reported.
pub proof fn lemma_submission_accepted_exactly_when_valid(
    history: Seq<QuizAttempt>,
    student: AccountId,
    quiz_id: u64,
    score: u32,
    maximum_score: u32,
    passing_score: u32,
    timestamp: u64,
)
    requires
        history.len() <= u32::MAX,
    ensures
        ({
            let outcome = submission_outcome(
                student,
                quiz_id,
                score,
                maximum_score,
                passing_score,
                timestamp,
                history.len(),
            );
            &&& (outcome is Ok) == (maximum_score > 0 && score <= maximum_score && passing_score
                <= maximum_score && history.len() < u32::MAX)
            &&& outcome is Ok ==> history_after(history, outcome).len() == history.len() + 1
                && history_after(history, outcome).drop_last() == history
            &&& outcome is Err ==> history_after(history, outcome) == history
            &&& (outcome == Err::<QuizAttempt, QuizError>(QuizError::InvalidMaximumScore)) == (
            maximum_score == 0)
            &&& (outcome == Err::<QuizAttempt, QuizError>(QuizError::ScoreOutOfRange)) == (
            maximum_score > 0 && score > maximum_score)
            &&& (outcome == Err::<QuizAttempt, QuizError>(QuizError::InvalidPassingScore)) == (
            maximum_score > 0 && score <= maximum_score && passing_score > maximum_score)
            &&& (outcome == Err::<QuizAttempt, QuizError>(QuizError::TooManyAttempts)) == (
            maximum_score > 0 && score <= maximum_score && passing_score <= maximum_score
                && history.len() == u32::MAX)
        }),
{
    let outcome = submission_outcome(
        student,
        quiz_id,
        score,
        maximum_score,
        passing_score,
        timestamp,
        history.len(),
    );
    if outcome is Ok {
        assert(history_after(history, outcome).drop_last() =~= history);
    }
}

/// An accepted attempt carries the submission as given: the quiz, the
/// learner, the score, the maximum and passing scores and the time; its
/// number is one more than the attempts held before; and it passed exactly
/// when its score reaches the passing score.
pub proof fn lemma_accepted_attempt_carries_submission(
    history: Seq<QuizAttempt>,
    student: AccountId,
    quiz_id: u64,
    score: u32,
    maximum_score: u32,
    passing_score: u32,
    timestamp: u64,
)
    requires
        history.len() <= u32::MAX,
    ensures
        submission_outcome(
            student,
            quiz_id,
            score,
            maximum_score,
            passing_score,
            timestamp,
            history.len(),
        ) matches Ok(attempt) ==> {
            &&& attempt.quiz_id == quiz_id
            &&& attempt.student == student
            &&& attempt.score == score
            &&& attempt.maximum_score == maximum_score
            &&& attempt.passing_score == passing_score
            &&& attempt.timestamp == timestamp
            &&& attempt.attempt_number == history.len() + 1
            &&& attempt.passed == (score >= passing_score)
        },
{
}

/// No attempt of an empty history passed; a history with one more attempt
/// holds a pass exactly when the shorter one did or the new attempt passed.
/// In particular a passing last attempt counts.
pub proof fn lemma_pass_found_anywhere(history: Seq<QuizAttempt>, attempt: QuizAttempt)
    ensures
        !passed_any(Seq::<QuizAttempt>::empty()),
        passed_any(history.push(attempt)) == (passed_any(history) || attempt.passed),
        attempt.passed ==> passed_any(history.push(attempt)),
        passed_any(seq![attempt]) == attempt.passed,
{
    let longer = history.push(attempt);
    if attempt.passed {
        assert(longer[history.len() as int] == attempt);
    }
    if passed_any(history) {
        let i = choose|i: int| 0 <= i < history.len() && #[trigger] history[i].passed;
        assert(longer[i] == history[i]);
    }
    if passed_any(longer) {
        let i = choose|i: int| 0 <= i < longer.len() && #[trigger] longer[i].passed;
        if i < history.len() {
            assert(longer[i] == history[i]);
        }
    }
    let single = seq![attempt];
    if attempt.passed {
        assert(single[0] == attempt);
    }
}

/// The lookups by number, latest and best agree with the attempts recorded:
/// an empty history has none of them; after one more attempt, the attempt
/// with the new last number is that attempt, earlier numbers find what they
/// found before, number 0 and numbers past the end find nothing, the latest
/// attempt is the new one and the best score is the larger of the new score
/// and the earlier best.
pub proof fn lemma_lookups_follow_recording(
    history: Seq<QuizAttempt>,
    attempt: QuizAttempt,
    attempt_number: u32,
)
    ensures
        latest(Seq::<QuizAttempt>::empty()) == None::<QuizAttempt>,
        best_score(Seq::<QuizAttempt>::empty()) == None::<u32>,
        attempt_numbered(Seq::<QuizAttempt>::empty(), attempt_number) == None::<QuizAttempt>,
        attempt_numbered(history, 0) == None::<QuizAttempt>,
        attempt_number > history.len() ==> attempt_numbered(history, attempt_number) == None::<
            QuizAttempt,
        >,
        history.len() < u32::MAX ==> attempt_numbered(
            history.push(attempt),
            (history.len() + 1) as u32,
        ) == Some(attempt),
        1 <= attempt_number <= history.len() ==> attempt_numbered(
            history.push(attempt),
            attempt_number,
        ) == attempt_numbered(history, attempt_number) && attempt_numbered(
            history,
            attempt_number,
        ) == Some(history[attempt_number - 1]),
        latest(history.push(attempt)) == Some(attempt),
        best_score(history.push(attempt)) == Some(
            if history.len() > 0 && top_score(history) > attempt.score {
                top_score(history)
            } else {
                attempt.score
            },
        ),
        best_score(seq![attempt]) == Some(attempt.score),
{
    let longer = history.push(attempt);
    assert(longer.drop_last() =~= history);
    let single = seq![attempt];
    assert(single.drop_last() =~= Seq::<QuizAttempt>::empty());
    assert(top_score(Seq::<QuizAttempt>::empty()) == 0);
    assert(single.last() == attempt);
    if history.len() == 0 {
        assert(top_score(history) == 0);
    }
}

/// The history of a learner and quiz holds exactly the attempts recorded for
/// that learner and that quiz: an attempt recorded for the same learner and
/// quiz is appended to it, and an attempt for another learner or another
/// quiz leaves it unchanged. Every attempt it holds is for that learner and
/// quiz, and a record of no attempts gives an empty history.
pub proof fn lemma_history_holds_own_attempts(
    log: Seq<QuizAttempt>,
    attempt: QuizAttempt,
    student: Seq<char>,
    quiz_id: u64,
)
    ensures
        history_in(Seq::<QuizAttempt>::empty(), student, quiz_id) == Seq::<QuizAttempt>::empty(),
        attempt.student@ == student && attempt.quiz_id == quiz_id ==> history_in(
            log.push(attempt),
            student,
            quiz_id,
        ) == history_in(log, student, quiz_id).push(attempt),
        attempt.student@ != student || attempt.quiz_id != quiz_id ==> history_in(
            log.push(attempt),
            student,
            quiz_id,
        ) == history_in(log, student, quiz_id),
        forall|i: int|
            0 <= i < history_in(log, student, quiz_id).len() ==> (#[trigger] history_in(
                log,
                student,
                quiz_id,
            )[i]).quiz_id == quiz_id && history_in(log, student, quiz_id)[i].student@ == student,
        history_in(log, student, quiz_id).len() <= log.len(),
    decreases log.len(),
{
    lemma_history_in_push(log, attempt, student, quiz_id);
    if log.len() > 0 {
        let shorter = log.drop_last();
        lemma_history_holds_own_attempts(shorter, log.last(), student, quiz_id);
        lemma_history_in_push(shorter, log.last(), student, quiz_id);
        assert(shorter.push(log.last()) =~= log);
        let h = history_in(log, student, quiz_id);
        let hs = history_in(shorter, student, quiz_id);
        assert forall|i: int| 0 <= i < h.len() implies (#[trigger] h[i]).quiz_id == quiz_id
            && h[i].student@ == student by {
            if i < hs.len() {
                assert(h[i] == hs[i]);
            }
        }
    }
}

} // verus!
