//! What an action client decides on what it receives, and the cancel
//! requests it sends.
//!
//! A reader hands out the samples it has received in arrival order; taking
//! from an empty reader gives nothing yet. The samples a reader holds, oldest
//! first, are given here as a `VecDeque`: an entry is either a sample or the
//! error that reading it gave.

use vstd::prelude::*;
use std::collections::VecDeque;
use rustdds::dds::{ReadError, WriteError};
use crate::action::messages::{
    CancelGoalRequest, FeedbackMessage, GetResultRequest, GetResultResponse, GoalId, GoalInfo, GoalStatus,
    GoalStatusArray, GoalStatusEnum, RmwRequestId, SendGoalRequest, Time, UUID,
};

verus! {

#[verifier::external_type_specification]
#[verifier::external_body]
pub struct ExReadError(ReadError);

#[verifier::external_type_specification]
#[verifier::external_body]
#[verifier::reject_recursive_types(D)]
pub struct ExWriteError<D>(WriteError<D>);

// ---------------------------------------------------------------------------
// Goal and result requests.

/// The request that asks the action server to pursue `goal` under `goal_id`.
pub fn goal_request<G>(goal_id: GoalId, goal: G) -> (req: SendGoalRequest<G>)
    ensures
        req.goal_id == goal_id,
        req.goal == goal,
{
    SendGoalRequest { goal_id, goal }
}

/// What sending a goal gives: the id of the request written together with
/// the id of the goal it carried, or the error writing it gave.
pub fn sent_goal<D>(written: Result<RmwRequestId, WriteError<D>>, goal_id: GoalId) -> (r: Result<
    (RmwRequestId, GoalId),
    WriteError<D>,
>)
    ensures
        r == match written {
            Ok(req_id) => Ok((req_id, goal_id)),
            Err(e) => Err(e),
        },
{
    match written {
        Ok(req_id) => Ok((req_id, goal_id)),
        Err(e) => Err(e),
    }
}

/// The request that asks the action server for the result of goal `goal_id`.
pub fn result_request(goal_id: GoalId) -> (req: GetResultRequest)
    ensures
        req.goal_id == goal_id,
{
    GetResultRequest { goal_id }
}

/// Index of the first element of `s` for which `p` holds, or the length of
/// `s` when there is none.
pub open spec fn first_where<T>(s: Seq<T>, p: spec_fn(T) -> bool) -> nat
    decreases s.len(),
{
    if s.len() == 0 {
        0
    } else if p(s[0]) {
        0
    } else {
        1 + first_where(s.drop_first(), p)
    }
}

/// `first_where` finds the first element that satisfies `p`.
pub proof fn lemma_first_where<T>(s: Seq<T>, p: spec_fn(T) -> bool)
    ensures
        first_where(s, p) <= s.len(),
        forall|i: int| 0 <= i < first_where(s, p) ==> !p(#[trigger] s[i]),
        first_where(s, p) < s.len() ==> p(s[first_where(s, p) as int]),
    decreases s.len(),
{
    if s.len() > 0 && !p(s[0]) {
        let rest = s.drop_first();
        lemma_first_where(rest, p);
        assert forall|i: int| 0 <= i < first_where(s, p) implies !p(#[trigger] s[i]) by {
            if i > 0 {
                assert(s[i] == rest[i - 1]);
            }
        }
        if first_where(s, p) < s.len() {
            assert(s[first_where(s, p) as int] == rest[first_where(rest, p) as int]);
        }
    }
}

/// What is left of `q` once its elements up to index `k` are taken: nothing
/// when `k` is past its end.
pub open spec fn left_after<T>(q: Seq<T>, k: int) -> Seq<T> {
    if k < q.len() {
        q.skip(k + 1)
    } else {
        Seq::empty()
    }
}

// ---------------------------------------------------------------------------
// Responses to service requests.

/// A polled response ends the wait for the response to `req_id`: it is an
/// error, or it is that response.
pub open spec fn ends_response_wait<P>(
    polled: Result<(RmwRequestId, P), ReadError>,
    req_id: RmwRequestId,
) -> bool {
    match polled {
        Err(_) => true,
        Ok((id, _)) => id == req_id,
    }
}

/// How many queued responses precede the one that ends the wait for `req_id`.
pub open spec fn response_wait_len<P>(
    q: Seq<Result<(RmwRequestId, P), ReadError>>,
    req_id: RmwRequestId,
) -> nat {
    first_where(q, |x: Result<(RmwRequestId, P), ReadError>| ends_response_wait(x, req_id))
}

/// What waiting for the response to `req_id` gives on the queue `q`: the
/// first error or the response to `req_id`, whichever comes first; nothing
/// yet when neither is queued.
pub open spec fn taken_response<P>(
    q: Seq<Result<(RmwRequestId, P), ReadError>>,
    req_id: RmwRequestId,
) -> Result<Option<P>, ReadError> {
    let k = response_wait_len(q, req_id) as int;
    if k < q.len() {
        match q[k] {
            Err(e) => Err(e),
            Ok((_, p)) => Ok(Some(p)),
        }
    } else {
        Ok(None)
    }
}

/// Takes queued responses until the response to `req_id` or an error comes,
/// and gives that; responses to other requests are taken and dropped. Gives
/// `Ok(None)` when the queue runs out first: the response is not there yet.
///
/// This is how a client receives the response to a goal request or to a
/// cancel request.
pub fn take_response<P>(
    responses: &mut VecDeque<Result<(RmwRequestId, P), ReadError>>,
    req_id: &RmwRequestId,
) -> (r: Result<Option<P>, ReadError>)
    ensures
        r == taken_response(old(responses)@, *req_id),
        final(responses)@ == left_after(
            old(responses)@,
            response_wait_len(old(responses)@, *req_id) as int,
        ),
{
    let ghost q0 = responses@;
    let ghost k = response_wait_len(q0, *req_id) as int;
    proof {
        lemma_first_where(
            q0,
            |x: Result<(RmwRequestId, P), ReadError>| ends_response_wait(x, *req_id),
        );
    }
    let ghost mut n: int = 0;
    loop
        invariant
            q0 == old(responses)@,
            k == response_wait_len(q0, *req_id),
            k <= q0.len(),
            forall|i: int| 0 <= i < k ==> !ends_response_wait(#[trigger] q0[i], *req_id),
            k < q0.len() ==> ends_response_wait(q0[k], *req_id),
            0 <= n <= k,
            responses@ == q0.skip(n),
        decreases responses@.len(),
    {
        match responses.pop_front() {
            None => {
                assert(n == k);
                return Ok(None);
            },
            Some(Err(e)) => {
                assert(n == k);
                return Err(e);
            },
            Some(Ok((id, p))) => {
                let matched = id == *req_id;
                proof {
                    if id.writer_guid@ == req_id.writer_guid@ {
                        assert(id.writer_guid =~= req_id.writer_guid);
                    }
                }
                if matched {
                    assert(n == k);
                    return Ok(Some(p));
                }
                proof {
                    n = n + 1;
                }
                assert(responses@ =~= q0.skip(n));
            },
        }
    }
}

/// What waiting for the result of a goal gives: the goal's final status and
/// its result, from the response to `req_id`.
pub open spec fn taken_result<R>(
    q: Seq<Result<(RmwRequestId, GetResultResponse<R>), ReadError>>,
    req_id: RmwRequestId,
) -> Result<Option<(GoalStatusEnum, R)>, ReadError> {
    match taken_response(q, req_id) {
        Ok(Some(resp)) => Ok(Some((resp.status, resp.result))),
        Ok(None) => Ok(None),
        Err(e) => Err(e),
    }
}

/// Takes queued result responses as [`take_response`] does, and gives the
/// final status and the result of the goal whose result request was `req_id`.
pub fn take_result<R>(
    responses: &mut VecDeque<Result<(RmwRequestId, GetResultResponse<R>), ReadError>>,
    req_id: &RmwRequestId,
) -> (r: Result<Option<(GoalStatusEnum, R)>, ReadError>)
    ensures
        r == taken_result(old(responses)@, *req_id),
        final(responses)@ == left_after(
            old(responses)@,
            response_wait_len(old(responses)@, *req_id) as int,
        ),
{
    match take_response(responses, req_id) {
        Ok(Some(GetResultResponse { status, result })) => Ok(Some((status, result))),
        Ok(None) => Ok(None),
        Err(e) => Err(e),
    }
}

// ---------------------------------------------------------------------------
// Feedback and status.

/// A polled feedback sample ends the wait for feedback on `goal_id`: it is
/// an error, or it is feedback on that goal.
pub open spec fn ends_feedback_wait<F, I>(
    polled: Result<(FeedbackMessage<F>, I), ReadError>,
    goal_id: GoalId,
) -> bool {
    match polled {
        Err(_) => true,
        Ok((msg, _)) => msg.goal_id == goal_id,
    }
}

/// How many queued feedback samples precede the one that ends the wait for
/// feedback on `goal_id`.
pub open spec fn feedback_wait_len<F, I>(
    q: Seq<Result<(FeedbackMessage<F>, I), ReadError>>,
    goal_id: GoalId,
) -> nat {
    first_where(q, |x: Result<(FeedbackMessage<F>, I), ReadError>| ends_feedback_wait(x, goal_id))
}

/// What waiting for feedback on `goal_id` gives on the queue `q`: the first
/// error or the feedback of the first sample on that goal, whichever comes
/// first; nothing yet when neither is queued.
pub open spec fn taken_feedback<F, I>(
    q: Seq<Result<(FeedbackMessage<F>, I), ReadError>>,
    goal_id: GoalId,
) -> Result<Option<F>, ReadError> {
    let k = feedback_wait_len(q, goal_id) as int;
    if k < q.len() {
        match q[k] {
            Err(e) => Err(e),
            Ok((msg, _)) => Ok(Some(msg.feedback)),
        }
    } else {
        Ok(None)
    }
}

fn same_goal(a: &GoalId, b: &GoalId) -> (eq: bool)
    ensures
        eq == (*a == *b),
{
    let eq = *a == *b;
    proof {
        if a.bytes@ == b.bytes@ {
            assert(a.bytes =~= b.bytes);
        }
    }
    eq
}

/// Takes queued feedback samples until feedback on `goal_id` or an error
/// comes, and gives that; feedback on other goals is taken and dropped.
/// Gives `Ok(None)` when the queue runs out first.
pub fn take_feedback<F, I>(
    samples: &mut VecDeque<Result<(FeedbackMessage<F>, I), ReadError>>,
    goal_id: &GoalId,
) -> (r: Result<Option<F>, ReadError>)
    ensures
        r == taken_feedback(old(samples)@, *goal_id),
        final(samples)@ == left_after(
            old(samples)@,
            feedback_wait_len(old(samples)@, *goal_id) as int,
        ),
{
    let ghost q0 = samples@;
    let ghost k = feedback_wait_len(q0, *goal_id) as int;
    proof {
        lemma_first_where(
            q0,
            |x: Result<(FeedbackMessage<F>, I), ReadError>| ends_feedback_wait(x, *goal_id),
        );
    }
    let ghost mut n: int = 0;
    loop
        invariant
            q0 == old(samples)@,
            k == feedback_wait_len(q0, *goal_id),
            k <= q0.len(),
            forall|i: int| 0 <= i < k ==> !ends_feedback_wait(#[trigger] q0[i], *goal_id),
            k < q0.len() ==> ends_feedback_wait(q0[k], *goal_id),
            0 <= n <= k,
            samples@ == q0.skip(n),
        decreases samples@.len(),
    {
        match samples.pop_front() {
            None => {
                assert(n == k);
                return Ok(None);
            },
            Some(Err(e)) => {
                assert(n == k);
                return Err(e);
            },
            Some(Ok((msg, _info))) => {
                if same_goal(&msg.goal_id, goal_id) {
                    assert(n == k);
                    return Ok(Some(msg.feedback));
                }
                proof {
                    n = n + 1;
                }
                assert(samples@ =~= q0.skip(n));
            },
        }
    }
}

/// Takes the oldest queued status sample and gives the status array it
/// holds, `Ok(None)` when none is queued. It reports on every goal.
pub fn take_status<I>(samples: &mut VecDeque<Result<(GoalStatusArray, I), ReadError>>) -> (r:
    Result<Option<GoalStatusArray>, ReadError>)
    ensures
        old(samples)@.len() == 0 ==> r == Ok::<Option<GoalStatusArray>, ReadError>(None)
            && final(samples)@ == old(samples)@,
        old(samples)@.len() > 0 ==> final(samples)@ == old(samples)@.drop_first() && r == match old(
            samples,
        )@[0] {
            Ok((statuses, _)) => Ok(Some(statuses)),
            Err(e) => Err(e),
        },
{
    match samples.pop_front() {
        None => Ok(None),
        Some(Ok((statuses, _info))) => Ok(Some(statuses)),
        Some(Err(e)) => Err(e),
    }
}

/// A received status sample, without its sample information.
pub fn status_array_item<I>(item: Result<(GoalStatusArray, I), ReadError>) -> (r: Result<
    GoalStatusArray,
    ReadError,
>)
    ensures
        r == match item {
            Ok((statuses, _)) => Ok(statuses),
            Err(e) => Err(e),
        },
{
    match item {
        Ok((statuses, _info)) => Ok(statuses),
        Err(e) => Err(e),
    }
}

/// What a stream of feedback on `goal_id` makes of a received sample: an
/// error passes through, feedback on the goal is kept, feedback on another
/// goal is dropped (`None`).
pub fn feedback_item<F, I>(item: Result<(FeedbackMessage<F>, I), ReadError>, goal_id: &GoalId) -> (r:
    Option<Result<F, ReadError>>)
    ensures
        r == match item {
            Err(e) => Some(Err(e)),
            Ok((msg, _)) => if msg.goal_id == *goal_id {
                Some(Ok(msg.feedback))
            } else {
                None
            },
        },
{
    match item {
        Err(e) => Some(Err(e)),
        Ok((msg, _info)) => {
            if same_goal(&msg.goal_id, goal_id) {
                Some(Ok(msg.feedback))
            } else {
                None
            }
        },
    }
}

/// The status is on goal `goal_id`.
pub open spec fn is_status_of(goal_id: GoalId) -> spec_fn(GoalStatus) -> bool {
    |s: GoalStatus| s.goal_info.goal_id == goal_id
}

/// The status of `goal_id` in a status array: the first entry on that goal.
pub open spec fn status_of_goal(statuses: Seq<GoalStatus>, goal_id: GoalId) -> Option<GoalStatus> {
    let k = first_where(statuses, is_status_of(goal_id)) as int;
    if k < statuses.len() {
        Some(statuses[k])
    } else {
        None
    }
}

/// The first status in `statuses` that is on `goal_id`, if any.
pub fn goal_status_in(statuses: &GoalStatusArray, goal_id: &GoalId) -> (r: Option<GoalStatus>)
    ensures
        r == status_of_goal(statuses.status_list@, *goal_id),
{
    let ghost p = is_status_of(*goal_id);
    proof {
        lemma_first_where(statuses.status_list@, p);
    }
    let n = statuses.status_list.len();
    let mut i: usize = 0;
    while i < n
        invariant
            p == is_status_of(*goal_id),
            n == statuses.status_list@.len(),
            i <= first_where(statuses.status_list@, p),
            first_where(statuses.status_list@, p) <= n,
            forall|j: int|
                0 <= j < first_where(statuses.status_list@, p) ==> !p(
                    #[trigger] statuses.status_list@[j],
                ),
            first_where(statuses.status_list@, p) < n ==> p(
                statuses.status_list@[first_where(statuses.status_list@, p) as int],
            ),
        decreases n - i,
    {
        let s = statuses.status_list[i];
        assert(s == statuses.status_list@[i as int]);
        if same_goal(&s.goal_info.goal_id, goal_id) {
            return Some(s);
        }
        i = i + 1;
    }
    None
}

/// What a stream of status on `goal_id` makes of a received status array:
/// an error passes through, otherwise the status of the goal in the array,
/// or nothing (`None`) when the array does not mention the goal.
pub fn status_item(item: Result<GoalStatusArray, ReadError>, goal_id: &GoalId) -> (r: Option<
    Result<GoalStatus, ReadError>,
>)
    ensures
        r == match item {
            Err(e) => Some(Err(e)),
            Ok(statuses) => match status_of_goal(statuses.status_list@, *goal_id) {
                Some(s) => Some(Ok(s)),
                None => None,
            },
        },
{
    match item {
        Err(e) => Some(Err(e)),
        Ok(statuses) => match goal_status_in(&statuses, goal_id) {
            Some(s) => Some(Ok(s)),
            None => None,
        },
    }
}

// ---------------------------------------------------------------------------
// Cancel requests.

/// Which goals a cancel request asks the action server to cancel, by the
/// ROS 2 policy:
/// - goal id zero and timestamp zero: every goal;
/// - goal id zero, timestamp not zero: every goal accepted at or before the
///   timestamp;
/// - goal id not zero, timestamp zero: the goal with that id, whenever it was
///   accepted;
/// - neither zero: the goal with that id and every goal accepted at or
///   before the timestamp.
pub open spec fn cancel_request_covers(req: CancelGoalRequest, goal: GoalInfo) -> bool {
    let id = req.goal_info.goal_id;
    let stamp = req.goal_info.stamp;
    if id.is_zero() && stamp.is_zero() {
        true
    } else if id.is_zero() {
        goal.stamp.nanos() <= stamp.nanos()
    } else if stamp.is_zero() {
        goal.goal_id == id
    } else {
        goal.goal_id == id || goal.stamp.nanos() <= stamp.nanos()
    }
}

/// The request to cancel goal `goal_id` and every goal accepted at or before
/// `timestamp` (see [`cancel_request_covers`] for what zero values mean).
pub fn cancel_goal_request(goal_id: GoalId, timestamp: Time) -> (req: CancelGoalRequest)
    ensures
        req.goal_info == (GoalInfo { goal_id, stamp: timestamp }),
{
    CancelGoalRequest { goal_info: GoalInfo { goal_id, stamp: timestamp } }
}

/// The request to cancel goal `goal_id`: its id and time zero.
pub fn cancel_one_goal_request(goal_id: GoalId) -> (req: CancelGoalRequest)
    ensures
        req.goal_info.goal_id == goal_id,
        req.goal_info.stamp.is_zero(),
{
    cancel_goal_request(goal_id, Time::zero())
}

/// The request to cancel every goal accepted at or before `timestamp`: goal
/// id zero and the timestamp.
pub fn cancel_goals_before_request(timestamp: Time) -> (req: CancelGoalRequest)
    ensures
        req.goal_info.goal_id.is_zero(),
        req.goal_info.stamp == timestamp,
{
    cancel_goal_request(UUID::zero(), timestamp)
}

/// The request to cancel every goal: goal id zero and time zero.
pub fn cancel_all_goals_request() -> (req: CancelGoalRequest)
    ensures
        req.goal_info.goal_id.is_zero(),
        req.goal_info.stamp.is_zero(),
{
    cancel_goal_request(UUID::zero(), Time::zero())
}

/// A request for one goal with a non-zero id cancels that goal and no other.
pub proof fn lemma_cancel_one_goal_covers_only_it(req: CancelGoalRequest, goal_id: GoalId, goal: GoalInfo)
    requires
        req.goal_info.goal_id == goal_id,
        req.goal_info.stamp.is_zero(),
        !goal_id.is_zero(),
    ensures
        cancel_request_covers(req, goal) <==> goal.goal_id == goal_id,
{
}

/// A request for the goals accepted up to a non-zero timestamp cancels
/// exactly the goals accepted at or before it.
pub proof fn lemma_cancel_before_covers_earlier_goals(req: CancelGoalRequest, timestamp: Time, goal: GoalInfo)
    requires
        req.goal_info.goal_id.is_zero(),
        req.goal_info.stamp == timestamp,
        !timestamp.is_zero(),
    ensures
        cancel_request_covers(req, goal) <==> goal.stamp.nanos() <= timestamp.nanos(),
{
}

/// A request for every goal cancels every goal.
pub proof fn lemma_cancel_all_covers_every_goal(req: CancelGoalRequest, goal: GoalInfo)
    requires
        req.goal_info.goal_id.is_zero(),
        req.goal_info.stamp.is_zero(),
    ensures
        cancel_request_covers(req, goal),
{
}

// ---------------------------------------------------------------------------
// Laws of waiting for a response.

/// A response handed out is the response to the request waited for, and
/// every response taken before it answered another request.
pub proof fn lemma_taken_response_answers_request<P>(
    q: Seq<Result<(RmwRequestId, P), ReadError>>,
    req_id: RmwRequestId,
    p: P,
)
    requires
        taken_response(q, req_id) == Ok::<Option<P>, ReadError>(Some(p)),
    ensures
        exists|k: int| #![trigger q[k]]
            0 <= k < q.len() && q[k] == Ok::<(RmwRequestId, P), ReadError>((req_id, p)) && forall|
                i: int,
            |
                0 <= i < k ==> (#[trigger] q[i] matches Ok((id, _)) && id != req_id),
{
    lemma_first_where(q, |x: Result<(RmwRequestId, P), ReadError>| ends_response_wait(x, req_id));
    let k = response_wait_len(q, req_id) as int;
    assert(q[k] == Ok::<(RmwRequestId, P), ReadError>((req_id, p)));
}

/// When the response waited for is not there yet, every queued response is
/// taken, none answers the request, and waiting again gives nothing.
pub proof fn lemma_no_response_drains_queue<P>(
    q: Seq<Result<(RmwRequestId, P), ReadError>>,
    req_id: RmwRequestId,
)
    requires
        taken_response(q, req_id) == Ok::<Option<P>, ReadError>(None),
    ensures
        left_after(q, response_wait_len(q, req_id) as int).len() == 0,
        forall|i: int| 0 <= i < q.len() ==> (#[trigger] q[i] matches Ok((id, _)) && id != req_id),
        taken_response(left_after(q, response_wait_len(q, req_id) as int), req_id) == Ok::<
            Option<P>,
            ReadError,
        >(None),
{
    lemma_first_where(q, |x: Result<(RmwRequestId, P), ReadError>| ends_response_wait(x, req_id));
    let k = response_wait_len(q, req_id) as int;
    if k < q.len() {
        assert(ends_response_wait(q[k], req_id));
    }
    assert(k == q.len());
    let rest = left_after(q, k);
    assert(rest.len() == 0);
    assert(response_wait_len(rest, req_id) == 0);
}

/// Feedback handed out is feedback on the goal waited for.
pub proof fn lemma_taken_feedback_is_on_goal<F, I>(
    q: Seq<Result<(FeedbackMessage<F>, I), ReadError>>,
    goal_id: GoalId,
    f: F,
)
    requires
        taken_feedback(q, goal_id) == Ok::<Option<F>, ReadError>(Some(f)),
    ensures
        exists|k: int| #![trigger q[k]]
            0 <= k < q.len() && (q[k] matches Ok((msg, _)) && msg.goal_id == goal_id && msg.feedback
                == f),
{
    lemma_first_where(q, |x: Result<(FeedbackMessage<F>, I), ReadError>| ends_feedback_wait(x, goal_id));
    let k = feedback_wait_len(q, goal_id) as int;
    assert(q[k] matches Ok((msg, _)) && msg.goal_id == goal_id && msg.feedback == f);
}

/// `first_where` is the index of the element that satisfies `p` with none
/// before it, or the length when none does.
pub proof fn lemma_first_where_is<T>(s: Seq<T>, p: spec_fn(T) -> bool, k: int)
    requires
        0 <= k <= s.len(),
        forall|j: int| 0 <= j < k ==> !p(#[trigger] s[j]),
        k < s.len() ==> p(s[k]),
    ensures
        first_where(s, p) == k,
{
    lemma_first_where(s, p);
    let f = first_where(s, p) as int;
    if f < k {
        assert(!p(s[f]));
    } else if k < f {
        assert(!p(s[k]));
    }
}

// ---------------------------------------------------------------------------
// What waiting gives, case by case, in terms of the queue alone.

/// The sample is feedback on a goal other than `goal_id`.
pub open spec fn is_feedback_on_other_goal<F, I>(
    sample: Result<(FeedbackMessage<F>, I), ReadError>,
    goal_id: GoalId,
) -> bool {
    sample matches Ok((msg, _)) && msg.goal_id != goal_id
}

/// When the queue holds a read error before any feedback on `goal_id`, that
/// error is handed out, and the samples after it stay queued.
pub proof fn lemma_feedback_error_ends_wait<F, I>(
    q: Seq<Result<(FeedbackMessage<F>, I), ReadError>>,
    goal_id: GoalId,
    k: int,
    e: ReadError,
)
    requires
        0 <= k < q.len(),
        q[k] == Err::<(FeedbackMessage<F>, I), ReadError>(e),
        forall|j: int| 0 <= j < k ==> is_feedback_on_other_goal(#[trigger] q[j], goal_id),
    ensures
        taken_feedback(q, goal_id) == Err::<Option<F>, ReadError>(e),
        left_after(q, feedback_wait_len(q, goal_id) as int) == q.skip(k + 1),
{
    lemma_first_where_is(
        q,
        |x: Result<(FeedbackMessage<F>, I), ReadError>| ends_feedback_wait(x, goal_id),
        k,
    );
}

/// When the queue holds feedback on `goal_id` before any read error, the
/// feedback of the first such sample is handed out, and the samples after it
/// stay queued.
pub proof fn lemma_feedback_on_goal_is_handed_out<F, I>(
    q: Seq<Result<(FeedbackMessage<F>, I), ReadError>>,
    goal_id: GoalId,
    k: int,
    msg: FeedbackMessage<F>,
    info: I,
)
    requires
        0 <= k < q.len(),
        q[k] == Ok::<(FeedbackMessage<F>, I), ReadError>((msg, info)),
        msg.goal_id == goal_id,
        forall|j: int| 0 <= j < k ==> is_feedback_on_other_goal(#[trigger] q[j], goal_id),
    ensures
        taken_feedback(q, goal_id) == Ok::<Option<F>, ReadError>(Some(msg.feedback)),
        left_after(q, feedback_wait_len(q, goal_id) as int) == q.skip(k + 1),
{
    lemma_first_where_is(
        q,
        |x: Result<(FeedbackMessage<F>, I), ReadError>| ends_feedback_wait(x, goal_id),
        k,
    );
}

/// When the queue holds only feedback on other goals, nothing is handed out
/// and the queue is emptied.
pub proof fn lemma_no_feedback_yet<F, I>(
    q: Seq<Result<(FeedbackMessage<F>, I), ReadError>>,
    goal_id: GoalId,
)
    requires
        forall|j: int| 0 <= j < q.len() ==> is_feedback_on_other_goal(#[trigger] q[j], goal_id),
    ensures
        taken_feedback(q, goal_id) == Ok::<Option<F>, ReadError>(None),
        left_after(q, feedback_wait_len(q, goal_id) as int).len() == 0,
{
    lemma_first_where_is(
        q,
        |x: Result<(FeedbackMessage<F>, I), ReadError>| ends_feedback_wait(x, goal_id),
        q.len() as int,
    );
}

/// The response is to a request other than `req_id`.
pub open spec fn is_response_to_other<P>(
    polled: Result<(RmwRequestId, P), ReadError>,
    req_id: RmwRequestId,
) -> bool {
    polled matches Ok((id, _)) && id != req_id
}

/// When the queue holds a read error before the response to `req_id`, that
/// error is handed out, and the responses after it stay queued.
pub proof fn lemma_response_error_ends_wait<P>(
    q: Seq<Result<(RmwRequestId, P), ReadError>>,
    req_id: RmwRequestId,
    k: int,
    e: ReadError,
)
    requires
        0 <= k < q.len(),
        q[k] == Err::<(RmwRequestId, P), ReadError>(e),
        forall|j: int| 0 <= j < k ==> is_response_to_other(#[trigger] q[j], req_id),
    ensures
        taken_response(q, req_id) == Err::<Option<P>, ReadError>(e),
        left_after(q, response_wait_len(q, req_id) as int) == q.skip(k + 1),
{
    lemma_first_where_is(
        q,
        |x: Result<(RmwRequestId, P), ReadError>| ends_response_wait(x, req_id),
        k,
    );
}

/// When the queue holds the response to `req_id` before any read error, that
/// response is handed out, and the responses after it stay queued.
pub proof fn lemma_response_to_request_is_handed_out<P>(
    q: Seq<Result<(RmwRequestId, P), ReadError>>,
    req_id: RmwRequestId,
    k: int,
    p: P,
)
    requires
        0 <= k < q.len(),
        q[k] == Ok::<(RmwRequestId, P), ReadError>((req_id, p)),
        forall|j: int| 0 <= j < k ==> is_response_to_other(#[trigger] q[j], req_id),
    ensures
        taken_response(q, req_id) == Ok::<Option<P>, ReadError>(Some(p)),
        left_after(q, response_wait_len(q, req_id) as int) == q.skip(k + 1),
{
    lemma_first_where_is(
        q,
        |x: Result<(RmwRequestId, P), ReadError>| ends_response_wait(x, req_id),
        k,
    );
}

/// When the queue holds only responses to other requests, nothing is handed
/// out and the queue is emptied.
pub proof fn lemma_no_response_yet<P>(
    q: Seq<Result<(RmwRequestId, P), ReadError>>,
    req_id: RmwRequestId,
)
    requires
        forall|j: int| 0 <= j < q.len() ==> is_response_to_other(#[trigger] q[j], req_id),
    ensures
        taken_response(q, req_id) == Ok::<Option<P>, ReadError>(None),
        left_after(q, response_wait_len(q, req_id) as int).len() == 0,
{
    lemma_first_where_is(
        q,
        |x: Result<(RmwRequestId, P), ReadError>| ends_response_wait(x, req_id),
        q.len() as int,
    );
}

/// The result handed out carries the final status and result the server
/// sent in the response to `req_id`; an error or nothing passes through.
pub proof fn lemma_result_passes_status_through<R>(
    q: Seq<Result<(RmwRequestId, GetResultResponse<R>), ReadError>>,
    req_id: RmwRequestId,
)
    ensures
        taken_response(q, req_id) matches Ok(Some(resp)) ==> taken_result(q, req_id) == Ok::<
            Option<(GoalStatusEnum, R)>,
            ReadError,
        >(Some((resp.status, resp.result))),
        taken_response(q, req_id) == Ok::<Option<GetResultResponse<R>>, ReadError>(None)
            ==> taken_result(q, req_id) == Ok::<Option<(GoalStatusEnum, R)>, ReadError>(None),
        taken_response(q, req_id) matches Err(e) ==> taken_result(q, req_id) == Err::<
            Option<(GoalStatusEnum, R)>,
            ReadError,
        >(e),
{
}

/// When the response to `req_id` is queued before any read error, the result
/// handed out is the status and result in that response.
pub proof fn lemma_result_of_response<R>(
    q: Seq<Result<(RmwRequestId, GetResultResponse<R>), ReadError>>,
    req_id: RmwRequestId,
    k: int,
    status: GoalStatusEnum,
    result: R,
)
    requires
        0 <= k < q.len(),
        q[k] == Ok::<(RmwRequestId, GetResultResponse<R>), ReadError>(
            (req_id, GetResultResponse { status, result }),
        ),
        forall|j: int| 0 <= j < k ==> is_response_to_other(#[trigger] q[j], req_id),
    ensures
        taken_result(q, req_id) == Ok::<Option<(GoalStatusEnum, R)>, ReadError>(
            Some((status, result)),
        ),
{
    lemma_response_to_request_is_handed_out(q, req_id, k, GetResultResponse { status, result });
}

/// The status of a goal is found exactly when some entry of the array is on
/// that goal, and it is then the first such entry.
pub proof fn lemma_status_of_goal_is_first_entry(statuses: Seq<GoalStatus>, goal_id: GoalId)
    ensures
        (exists|i: int| 0 <= i < statuses.len() && (#[trigger] statuses[i]).goal_info.goal_id
            == goal_id) <==> status_of_goal(statuses, goal_id) is Some,
        forall|i: int|
            0 <= i < statuses.len() && (#[trigger] statuses[i]).goal_info.goal_id == goal_id && (
            forall|j: int| 0 <= j < i ==> (#[trigger] statuses[j]).goal_info.goal_id != goal_id)
                ==> status_of_goal(statuses, goal_id) == Some(statuses[i]),
{
    let p = is_status_of(goal_id);
    lemma_first_where(statuses, p);
    let k = first_where(statuses, p) as int;
    if exists|i: int| 0 <= i < statuses.len() && (#[trigger] statuses[i]).goal_info.goal_id == goal_id {
        let i = choose|i: int| 0 <= i < statuses.len() && (#[trigger] statuses[i]).goal_info.goal_id == goal_id;
        assert(p(statuses[i]));
        assert(k < statuses.len());
    }
    assert forall|i: int|
        0 <= i < statuses.len() && (#[trigger] statuses[i]).goal_info.goal_id == goal_id && (
        forall|j: int| 0 <= j < i ==> (#[trigger] statuses[j]).goal_info.goal_id != goal_id)
        implies status_of_goal(statuses, goal_id) == Some(statuses[i]) by {
        assert(p(statuses[i]));
        if k < i {
            assert(statuses[k].goal_info.goal_id != goal_id);
        }
    }
}

} // verus!
