use std::collections::VecDeque;

use ros2_client::action::client::{
    cancel_all_goals_request, cancel_goal_request, cancel_goals_before_request,
    cancel_one_goal_request, feedback_item, goal_status_in, status_array_item, status_item,
    take_feedback, take_response, take_result, take_status,
};
use ros2_client::action::messages::{
    FeedbackMessage, GetResultResponse, GoalInfo, GoalStatus, GoalStatusArray, GoalStatusEnum,
    RmwRequestId, SendGoalResponse, Time, UUID,
};
use ros2_client::action::client::{goal_request, result_request, sent_goal};
use rustdds::dds::{ReadError, WriteError};

fn req(seq: i64) -> RmwRequestId {
    RmwRequestId { writer_guid: [7u8; 16], sequence_number: seq }
}

fn goal(n: u8) -> UUID {
    let mut bytes = [0u8; 16];
    bytes[0] = n;
    UUID { bytes }
}

fn read_error(reason: &str) -> ReadError {
    ReadError::Deserialization { reason: reason.to_string() }
}

fn accepted(sec: i32) -> SendGoalResponse {
    SendGoalResponse { accepted: true, stamp: Time { sec, nanosec: 0 } }
}

#[test]
fn response_to_the_request_is_found_and_others_dropped() {
    let mut q: VecDeque<Result<(RmwRequestId, SendGoalResponse), ReadError>> = VecDeque::new();
    q.push_back(Ok((req(1), accepted(1))));
    q.push_back(Ok((req(2), accepted(2))));
    q.push_back(Ok((req(3), accepted(3))));
    let r = take_response(&mut q, &req(2));
    assert_eq!(r.unwrap(), Some(accepted(2)));
    // the response to request 1 was dropped; the one to request 3 stays
    assert_eq!(q.len(), 1);
    assert_eq!(q[0].as_ref().unwrap().0, req(3));
}

#[test]
fn no_response_yet_drains_the_queue() {
    let mut q: VecDeque<Result<(RmwRequestId, SendGoalResponse), ReadError>> = VecDeque::new();
    q.push_back(Ok((req(1), accepted(1))));
    q.push_back(Ok((req(3), accepted(3))));
    assert_eq!(take_response(&mut q, &req(2)).unwrap(), None);
    assert!(q.is_empty());
    assert_eq!(take_response(&mut q, &req(2)).unwrap(), None);
}

#[test]
fn same_sequence_number_from_another_writer_is_not_the_response() {
    let mut q: VecDeque<Result<(RmwRequestId, u32), ReadError>> = VecDeque::new();
    let other = RmwRequestId { writer_guid: [9u8; 16], sequence_number: 5 };
    q.push_back(Ok((other, 1)));
    q.push_back(Ok((req(5), 2)));
    assert_eq!(take_response(&mut q, &req(5)).unwrap(), Some(2));
}

#[test]
fn read_error_ends_the_wait() {
    let mut q: VecDeque<Result<(RmwRequestId, u32), ReadError>> = VecDeque::new();
    q.push_back(Ok((req(1), 10)));
    q.push_back(Err(read_error("broken")));
    q.push_back(Ok((req(2), 20)));
    match take_response(&mut q, &req(2)) {
        Err(ReadError::Deserialization { reason }) => assert_eq!(reason, "broken"),
        other => panic!("expected the read error, got {other:?}"),
    }
    assert_eq!(q.len(), 1);
    assert_eq!(take_response(&mut q, &req(2)).unwrap(), Some(20));
}

#[test]
fn result_gives_status_and_result() {
    let mut q: VecDeque<Result<(RmwRequestId, GetResultResponse<i32>), ReadError>> =
        VecDeque::new();
    q.push_back(Ok((req(1), GetResultResponse { status: GoalStatusEnum::Aborted, result: -1 })));
    q.push_back(Ok((req(4), GetResultResponse { status: GoalStatusEnum::Succeeded, result: 42 })));
    assert_eq!(take_result(&mut q, &req(4)).unwrap(), Some((GoalStatusEnum::Succeeded, 42)));
    assert!(q.is_empty());
    assert_eq!(take_result(&mut q, &req(4)).unwrap(), None);
}

#[test]
fn feedback_on_the_goal_is_found_and_others_dropped() {
    let mut q: VecDeque<Result<(FeedbackMessage<u32>, ()), ReadError>> = VecDeque::new();
    q.push_back(Ok((FeedbackMessage { goal_id: goal(1), feedback: 10 }, ())));
    q.push_back(Ok((FeedbackMessage { goal_id: goal(2), feedback: 20 }, ())));
    q.push_back(Ok((FeedbackMessage { goal_id: goal(2), feedback: 21 }, ())));
    assert_eq!(take_feedback(&mut q, &goal(2)).unwrap(), Some(20));
    assert_eq!(take_feedback(&mut q, &goal(2)).unwrap(), Some(21));
    assert_eq!(take_feedback(&mut q, &goal(2)).unwrap(), None);
    q.push_back(Ok((FeedbackMessage { goal_id: goal(1), feedback: 11 }, ())));
    assert_eq!(take_feedback(&mut q, &goal(2)).unwrap(), None);
    assert!(q.is_empty());
}

#[test]
fn status_is_taken_oldest_first() {
    let a = GoalStatusArray { status_list: vec![] };
    let b = GoalStatusArray {
        status_list: vec![GoalStatus {
            goal_info: GoalInfo { goal_id: goal(1), stamp: Time { sec: 1, nanosec: 2 } },
            status: GoalStatusEnum::Executing,
        }],
    };
    let mut q: VecDeque<Result<(GoalStatusArray, ()), ReadError>> = VecDeque::new();
    q.push_back(Ok((a.clone(), ())));
    q.push_back(Err(read_error("x")));
    q.push_back(Ok((b.clone(), ())));
    assert_eq!(take_status(&mut q).unwrap(), Some(a));
    assert!(take_status(&mut q).is_err());
    assert_eq!(take_status(&mut q).unwrap(), Some(b.clone()));
    assert_eq!(take_status(&mut q).unwrap(), None);
    assert_eq!(status_array_item(Ok((b.clone(), 7u8))).unwrap(), b);
    assert!(status_array_item::<u8>(Err(read_error("y"))).is_err());
}

#[test]
fn feedback_stream_keeps_only_the_goal() {
    let on_goal = feedback_item(Ok((FeedbackMessage { goal_id: goal(3), feedback: "a" }, ())), &goal(3));
    assert_eq!(on_goal.unwrap().unwrap(), "a");
    let other = feedback_item(Ok((FeedbackMessage { goal_id: goal(4), feedback: "b" }, ())), &goal(3));
    assert!(other.is_none());
    let err = feedback_item::<&str, ()>(Err(read_error("z")), &goal(3));
    assert!(err.unwrap().is_err());
}

#[test]
fn status_of_a_goal_is_the_first_entry_on_it() {
    let s = |g: u8, st: GoalStatusEnum| GoalStatus {
        goal_info: GoalInfo { goal_id: goal(g), stamp: Time { sec: g as i32, nanosec: 0 } },
        status: st,
    };
    let arr = GoalStatusArray {
        status_list: vec![
            s(1, GoalStatusEnum::Accepted),
            s(2, GoalStatusEnum::Canceling),
            s(2, GoalStatusEnum::Canceled),
        ],
    };
    assert_eq!(goal_status_in(&arr, &goal(2)), Some(s(2, GoalStatusEnum::Canceling)));
    assert_eq!(goal_status_in(&arr, &goal(1)), Some(s(1, GoalStatusEnum::Accepted)));
    assert_eq!(goal_status_in(&arr, &goal(9)), None);
    assert_eq!(status_item(Ok(arr.clone()), &goal(2)).unwrap().unwrap(), s(2, GoalStatusEnum::Canceling));
    assert!(status_item(Ok(arr), &goal(9)).is_none());
    assert!(status_item(Err(read_error("w")), &goal(1)).unwrap().is_err());
}

#[test]
fn cancel_requests_follow_the_policy_encoding() {
    let t = Time { sec: 100, nanosec: 5 };
    let zero_time = Time { sec: 0, nanosec: 0 };
    let zero_id = UUID { bytes: [0u8; 16] };

    let raw = cancel_goal_request(goal(7), t);
    assert_eq!(raw.goal_info, GoalInfo { goal_id: goal(7), stamp: t });

    let one = cancel_one_goal_request(goal(7));
    assert_eq!(one.goal_info, GoalInfo { goal_id: goal(7), stamp: zero_time });

    let before = cancel_goals_before_request(t);
    assert_eq!(before.goal_info, GoalInfo { goal_id: zero_id, stamp: t });

    let all = cancel_all_goals_request();
    assert_eq!(all.goal_info, GoalInfo { goal_id: zero_id, stamp: zero_time });
}

#[test]
fn uuids_and_request_ids_compare_by_value() {
    assert_eq!(goal(1), goal(1));
    assert_ne!(goal(1), goal(2));
    assert_eq!(req(1), req(1));
    assert_ne!(req(1), req(2));
    assert_ne!(req(1), RmwRequestId { writer_guid: [8u8; 16], sequence_number: 1 });
    assert_eq!(UUID::zero(), UUID { bytes: [0u8; 16] });
    assert_eq!(Time::zero(), Time { sec: 0, nanosec: 0 });
}

#[test]
fn goal_and_result_requests_carry_the_goal_id() {
    let r = goal_request(goal(5), "rotate");
    assert_eq!(r.goal_id, goal(5));
    assert_eq!(r.goal, "rotate");
    assert_eq!(result_request(goal(6)).goal_id, goal(6));
    let ok = sent_goal::<()>(Ok(req(9)), goal(5));
    assert_eq!(ok.unwrap(), (req(9), goal(5)));
    let err = sent_goal::<()>(Err(WriteError::WouldBlock { data: () }), goal(5));
    assert!(matches!(err, Err(WriteError::WouldBlock { .. })));
}
