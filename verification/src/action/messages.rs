//! Messages of the ROS 2 action protocol (`action_msgs`,
//! `unique_identifier_msgs`, `builtin_interfaces`) as the client reads them.

use vstd::prelude::*;
use vstd::std_specs::cmp::PartialEqSpecImpl;

verus! {

/// A universally unique identifier: 16 bytes.
#[derive(Copy, Clone, Debug, Eq, Hash)]
pub struct UUID {
    pub bytes: [u8; 16],
}

/// Identifies a goal of an action.
pub type GoalId = UUID;

impl UUID {
    /// All 16 bytes are zero.
    pub open spec fn is_zero(self) -> bool {
        forall|i: int| 0 <= i < 16 ==> self.bytes@[i] == 0u8
    }

    /// The all-zero identifier, which in a cancel request stands for every goal.
    pub fn zero() -> (id: UUID)
        ensures
            id.is_zero(),
    {
        UUID { bytes: [0u8; 16] }
    }
}

/// A point in time: seconds and nanoseconds.
#[derive(Copy, Clone, Debug, PartialEq, Eq, Structural, Hash)]
pub struct Time {
    pub sec: i32,
    pub nanosec: u32,
}

impl Time {
    /// The time in nanoseconds.
    pub open spec fn nanos(self) -> int {
        self.sec * 1_000_000_000 + self.nanosec
    }

    pub open spec fn is_zero(self) -> bool {
        self.sec == 0 && self.nanosec == 0
    }

    /// Time zero, which in a cancel request stands for "no time limit".
    pub fn zero() -> (t: Time)
        ensures
            t.is_zero(),
    {
        Time { sec: 0, nanosec: 0 }
    }
}

/// A goal and the time it was accepted.
#[derive(Copy, Clone, Debug, PartialEq, Eq, Hash)]
pub struct GoalInfo {
    pub goal_id: GoalId,
    pub stamp: Time,
}

/// The state of a goal.
#[derive(Copy, Clone, Debug, PartialEq, Eq, Structural, Hash)]
pub enum GoalStatusEnum {
    Unknown,
    Accepted,
    Executing,
    Canceling,
    Succeeded,
    Canceled,
    Aborted,
}

/// The state of one goal.
#[derive(Copy, Clone, Debug, PartialEq, Eq, Hash)]
pub struct GoalStatus {
    pub goal_info: GoalInfo,
    pub status: GoalStatusEnum,
}

/// The state of every goal an action server knows of.
#[derive(Clone, Debug, PartialEq, Eq)]
pub struct GoalStatusArray {
    pub status_list: Vec<GoalStatus>,
}

/// Asks an action server to cancel goals; see
/// [`crate::action::client::cancel_request_covers`] for which.
#[derive(Copy, Clone, Debug, PartialEq, Eq, Hash)]
pub struct CancelGoalRequest {
    pub goal_info: GoalInfo,
}

/// An action server's answer to a cancel request: a return code (0 none,
/// 1 rejected, 2 unknown goal, 3 goal terminated) and the goals now canceling.
#[derive(Clone, Debug, PartialEq, Eq)]
pub struct CancelGoalResponse {
    pub return_code: i8,
    pub goals_canceling: Vec<GoalInfo>,
}

/// Identifies a service request: the GUID of the writer that sent it and
/// its sequence number.
#[derive(Copy, Clone, Debug, Eq, Hash)]
pub struct RmwRequestId {
    pub writer_guid: [u8; 16],
    pub sequence_number: i64,
}

/// Asks an action server to pursue `goal` under the identifier `goal_id`.
#[derive(Clone, Debug, PartialEq)]
pub struct SendGoalRequest<G> {
    pub goal_id: GoalId,
    pub goal: G,
}

/// Whether the server accepted a goal, and when.
#[derive(Copy, Clone, Debug, PartialEq, Eq, )]
pub struct SendGoalResponse {
    pub accepted: bool,
    pub stamp: Time,
}

/// Asks an action server for the result of a goal.
#[derive(Copy, Clone, Debug, PartialEq, Eq, )]
pub struct GetResultRequest {
    pub goal_id: GoalId,
}

/// The final state of a goal and its result.
#[derive(Clone, Debug, PartialEq)]
pub struct GetResultResponse<R> {
    pub status: GoalStatusEnum,
    pub result: R,
}

/// Progress feedback on a goal.
#[derive(Clone, Debug, PartialEq)]
pub struct FeedbackMessage<F> {
    pub goal_id: GoalId,
    pub feedback: F,
}

/// Whether two 16-byte identifiers are equal.
fn same_bytes(a: &[u8; 16], b: &[u8; 16]) -> (eq: bool)
    ensures
        eq == (a@ == b@),
{
    let mut i: usize = 0;
    while i < 16
        invariant
            i <= 16,
            forall|j: int| 0 <= j < i ==> a@[j] == b@[j],
        decreases 16 - i,
    {
        if a[i] != b[i] {
            return false;
        }
        i = i + 1;
    }
    assert(a@ =~= b@);
    true
}

impl PartialEq for UUID {
    fn eq(&self, other: &UUID) -> (eq: bool) {
        same_bytes(&self.bytes, &other.bytes)
    }
}

impl PartialEqSpecImpl for UUID {
    open spec fn obeys_eq_spec() -> bool {
        true
    }

    open spec fn eq_spec(&self, other: &UUID) -> bool {
        self.bytes@ == other.bytes@
    }
}

impl PartialEq for RmwRequestId {
    fn eq(&self, other: &RmwRequestId) -> (eq: bool) {
        self.sequence_number == other.sequence_number && same_bytes(
            &self.writer_guid,
            &other.writer_guid,
        )
    }
}

impl PartialEqSpecImpl for RmwRequestId {
    open spec fn obeys_eq_spec() -> bool {
        true
    }

    open spec fn eq_spec(&self, other: &RmwRequestId) -> bool {
        self.writer_guid@ == other.writer_guid@ && self.sequence_number == other.sequence_number
    }
}

} // verus!
