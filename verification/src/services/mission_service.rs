//! The mission lifecycle.
//!
//! A mission is `created`, then `assigned` to a robot, then `executing`, and
//! ends `completed`, `failed` or `cancelled`. Cancelling is possible from any
//! state that has not ended. Only missions still in `created` may be deleted.

use vstd::prelude::*;

use crate::error::AppError;
use crate::json::{fail_reason_recorded, json_insert_string};
use crate::text::str_eq;
use vstd::string::*;

verus! {

/// The lifecycle edges: which status a mission in `current` may move to.
pub open spec fn transition_allowed(current: Seq<char>, target: Seq<char>) -> bool {
    ||| current == "created"@ && target == "assigned"@
    ||| current == "created"@ && target == "cancelled"@
    ||| current == "assigned"@ && target == "executing"@
    ||| current == "assigned"@ && target == "cancelled"@
    ||| current == "executing"@ && target == "completed"@
    ||| current == "executing"@ && target == "failed"@
    ||| current == "executing"@ && target == "cancelled"@
}

/// The message of a refused transition.
pub open spec fn invalid_transition_message(current: Seq<char>, target: Seq<char>) -> Seq<char> {
    "Invalid transition: "@ + current + " → "@ + target
}

/// The message of a refused deletion.
pub open spec fn undeletable_message(status: Seq<char>) -> Seq<char> {
    "Can only delete missions in 'created' status, current status: "@ + status
}

/// How far along the lifecycle a status is: `created` 0, `assigned` 1,
/// `executing` 2, any other status 3.
pub open spec fn status_rank(status: Seq<char>) -> int {
    if status == "created"@ {
        0
    } else if status == "assigned"@ {
        1
    } else if status == "executing"@ {
        2
    } else {
        3
    }
}

/// Validate that a mission status transition is allowed.
pub fn validate_transition(current: &str, target: &str) -> (r: Result<(), AppError>)
    ensures
        r is Ok <==> transition_allowed(current@, target@),
        r matches Err(e) ==> e is Validation && e.message() == invalid_transition_message(
            current@,
            target@,
        ),
{
    let created = str_eq(current, "created");
    let assigned = str_eq(current, "assigned");
    let executing = str_eq(current, "executing");
    let valid = (created && str_eq(target, "assigned")) || (created && str_eq(target, "cancelled"))
        || (assigned && str_eq(target, "executing")) || (assigned && str_eq(target, "cancelled"))
        || (executing && str_eq(target, "completed")) || (executing && str_eq(target, "failed"))
        || (executing && str_eq(target, "cancelled"));
    if !valid {
        let mut m = String::from_str("Invalid transition: ");
        m.append(current);
        m.append(" → ");
        m.append(target);
        return Err(AppError::Validation(m));
    }
    Ok(())
}

/// What a transition writes back to a mission.
pub struct MissionUpdate {
    /// The new status.
    pub status: String,
    /// The robot the mission is assigned to afterwards.
    pub robot_id: Option<u128>,
    /// The metadata document afterwards.
    pub metadata: serde_json::Value,
}

/// Plans moving a mission from `current_status` to `target`: the move must be
/// a lifecycle edge; a given `robot_id` replaces the mission's robot, otherwise
/// the robot is kept; a `fail_reason` is stored under the key `fail_reason`
/// of the metadata document when that is an object.
pub fn plan_transition(
    current_status: &str,
    current_robot: Option<u128>,
    metadata: serde_json::Value,
    target: &str,
    robot_id: Option<u128>,
    fail_reason: Option<&str>,
) -> (r: Result<MissionUpdate, AppError>)
    ensures
        r is Ok <==> transition_allowed(current_status@, target@),
        r matches Err(e) ==> e is Validation && e.message() == invalid_transition_message(
            current_status@,
            target@,
        ),
        r matches Ok(u) ==> {
            &&& u.status@ == target@
            &&& u.robot_id == (if robot_id is Some {
                robot_id
            } else {
                current_robot
            })
            &&& fail_reason is None ==> u.metadata == metadata
            &&& fail_reason matches Some(reason) ==> fail_reason_recorded(
                metadata,
                reason@,
                u.metadata,
            )
        },
{
    validate_transition(current_status, target)?;
    let new_robot_id = match robot_id {
        Some(id) => Some(id),
        None => current_robot,
    };
    let mut new_metadata = metadata;
    if let Some(reason) = fail_reason {
        json_insert_string(&mut new_metadata, "fail_reason", reason);
    }
    Ok(MissionUpdate { status: target.to_owned(), robot_id: new_robot_id, metadata: new_metadata })
}

/// Checks that a mission in `status` may be deleted: only missions that are
/// still `created` may.
pub fn check_deletable(status: &str) -> (r: Result<(), AppError>)
    ensures
        r is Ok <==> status@ == "created"@,
        r matches Err(e) ==> e is Validation && e.message() == undeletable_message(status@),
{
    if !str_eq(status, "created") {
        let mut m = String::from_str("Can only delete missions in 'created' status, current status: ");
        m.append(status);
        return Err(AppError::Validation(m));
    }
    Ok(())
}

/// The number of missions skipped before page `page` of size `limit`.
pub fn page_offset(page: i64, limit: i64) -> (r: i64)
    requires
        i64::MIN <= (page - 1) * limit <= i64::MAX,
        page >= i64::MIN + 1,
    ensures
        r == (page - 1) * limit,
{
    (page - 1) * limit
}

proof fn lemma_status_literals()
    ensures
        "created"@ != "assigned"@,
        "created"@ != "executing"@,
        "created"@ != "completed"@,
        "created"@ != "failed"@,
        "created"@ != "cancelled"@,
        "assigned"@ != "executing"@,
        "assigned"@ != "completed"@,
        "assigned"@ != "failed"@,
        "assigned"@ != "cancelled"@,
        "executing"@ != "completed"@,
        "executing"@ != "failed"@,
        "executing"@ != "cancelled"@,
        "completed"@ != "failed"@,
        "completed"@ != "cancelled"@,
        "failed"@ != "cancelled"@,
{
    reveal_strlit("created");
    reveal_strlit("assigned");
    reveal_strlit("executing");
    reveal_strlit("completed");
    reveal_strlit("failed");
    reveal_strlit("cancelled");
    assert("created"@[0] != "assigned"@[0]);
    assert("created"@[0] != "executing"@[0]);
    assert("created"@.len() != "completed"@.len());
    assert("created"@[0] != "failed"@[0]);
    assert("created"@.len() != "cancelled"@.len());
    assert("assigned"@[0] != "executing"@[0]);
    assert("assigned"@[0] != "completed"@[0]);
    assert("assigned"@[0] != "failed"@[0]);
    assert("assigned"@[0] != "cancelled"@[0]);
    assert("executing"@[0] != "completed"@[0]);
    assert("executing"@[0] != "failed"@[0]);
    assert("executing"@[0] != "cancelled"@[0]);
    assert("completed"@[0] != "failed"@[0]);
    assert("completed"@[2] != "cancelled"@[2]);
    assert("failed"@[0] != "cancelled"@[0]);
}

/// A mission that has ended (`completed`, `failed` or `cancelled`) never
/// changes status again.
pub proof fn lemma_ended_missions_are_final(target: Seq<char>)
    ensures
        !transition_allowed("completed"@, target),
        !transition_allowed("failed"@, target),
        !transition_allowed("cancelled"@, target),
{
    lemma_status_literals();
}

/// No mission ever returns to `created`.
pub proof fn lemma_created_is_only_initial(current: Seq<char>)
    ensures
        !transition_allowed(current, "created"@),
{
    lemma_status_literals();
}

/// Every transition moves strictly forward along the lifecycle; in
/// particular no status moves to itself.
pub proof fn lemma_transitions_advance(current: Seq<char>, target: Seq<char>)
    requires
        transition_allowed(current, target),
    ensures
        status_rank(current) < status_rank(target),
        current != target,
{
    lemma_status_literals();
}

/// A mission that has not ended can always be cancelled.
pub proof fn lemma_active_missions_cancellable(current: Seq<char>)
    requires
        current == "created"@ || current == "assigned"@ || current == "executing"@,
    ensures
        transition_allowed(current, "cancelled"@),
{
}

/// Any chain of allowed transitions visits at most four statuses: a mission
/// changes status at most three times.
pub proof fn lemma_lifecycle_bounded(history: Seq<Seq<char>>)
    requires
        history.len() >= 1,
        forall|i: int|
            0 <= i < history.len() - 1 ==> transition_allowed(
                #[trigger] history[i],
                history[i + 1],
            ),
    ensures
        history.len() <= 4,
{
    assert forall|i: int| 0 <= i < history.len() implies #[trigger] status_rank(history[i]) >= i by {
        lemma_rank_grows(history, i);
    }
    let last = history.len() - 1;
    assert(status_rank(history[last]) >= last);
}

proof fn lemma_rank_grows(history: Seq<Seq<char>>, i: int)
    requires
        0 <= i < history.len(),
        forall|k: int|
            0 <= k < history.len() - 1 ==> transition_allowed(
                #[trigger] history[k],
                history[k + 1],
            ),
    ensures
        status_rank(history[i]) >= i,
    decreases i,
{
    if i > 0 {
        lemma_rank_grows(history, i - 1);
        lemma_transitions_advance(history[i - 1], history[i]);
    } else {
        assert(status_rank(history[0]) >= 0);
    }
}

} // verus!
