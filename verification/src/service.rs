//! The decisions of the job service around its store: fresh ids for new
//! records, how failures are reported, when a completion is announced, and
//! what a pop answers.

use vstd::prelude::*;

use crate::events::{completion_entries, completion_subject, job_completed_payload, job_completed_subject, json_object_text};
use crate::keys::{no_colon, no_separator};
use crate::store::{create_job_group_plan, create_job_plan, pairs_view, plan_view, JobStore, RedisCommand};

verus! {

/// A lowercase hexadecimal digit.
pub open spec fn is_lower_hex(c: char) -> bool {
    ('0' <= c && c <= '9') || ('a' <= c && c <= 'f')
}

/// The hyphenated lowercase text of a random (version 4) UUID: 36 characters,
/// hyphens at 8, 13, 18 and 23, hexadecimal digits elsewhere, the version
/// digit `4` at 14 and the variant digit at 19 one of `8`, `9`, `a`, `b`.
pub open spec fn is_uuid_v4_text(s: Seq<char>) -> bool {
    &&& s.len() == 36
    &&& forall|i: int|
        0 <= i < 36 ==> if i == 8 || i == 13 || i == 18 || i == 23 {
            #[trigger] s[i] == '-'
        } else {
            is_lower_hex(s[i])
        }
    &&& s[14] == '4'
    &&& (s[19] == '8' || s[19] == '9' || s[19] == 'a' || s[19] == 'b')
}

/// Calls `uuid::Uuid::new_v4` and renders the UUID with `to_string`, which
/// the `uuid` crate writes in the hyphenated lowercase form. The value is
/// random: the contract claims only the form of the text.
#[verifier::external_body]
fn new_uuid_v4_text() -> (id: String)
    ensures
        is_uuid_v4_text(id@),
{
    uuid::Uuid::new_v4().to_string()
}

/// A new job group: a fresh random id and the writes that create the group
/// under it.
pub fn new_job_group(store: &JobStore, name: &str, template: &str) -> (res: (String, Vec<RedisCommand>))
    ensures
        is_uuid_v4_text(res.0@),
        plan_view(res.1@) == create_job_group_plan(store.root(), res.0@, name@, template@),
{
    let id = new_uuid_v4_text();
    let cmds = store.create_job_group(id.as_str(), name, template);
    (id, cmds)
}

/// A new job: a fresh random id and the writes that create the job under it,
/// recording the template version that its group's counter held.
pub fn new_job(
    store: &JobStore,
    group_id: &str,
    name: &str,
    template_version: i32,
    parameters: &Vec<(String, String)>,
) -> (res: (String, Vec<RedisCommand>))
    ensures
        is_uuid_v4_text(res.0@),
        plan_view(res.1@) == create_job_plan(
            store.root(),
            res.0@,
            group_id@,
            name@,
            template_version as int,
            pairs_view(parameters@),
        ),
{
    let id = new_uuid_v4_text();
    let cmds = store.create_job(id.as_str(), group_id, name, template_version, parameters);
    (id, cmds)
}

/// A status update announces the job's completion when the new status is
/// `Completed`, the request names the job's group, and a publisher is set up.
pub fn should_announce_completion(is_completed: bool, group_id: &str, has_publisher: bool) -> (announce: bool)
    ensures
        announce == (is_completed && group_id@.len() != 0 && has_publisher),
{
    is_completed && !group_id.is_empty() && has_publisher
}

/// What a status update does once the store has been written.
#[derive(Debug, PartialEq, Eq)]
pub enum StatusUpdateOutcome {
    /// The write failed: the request fails and nothing is announced.
    Failed,
    /// The write took effect: the reply reports `success`, and the completion
    /// is announced on the given subject with the given payload when due.
    Written { success: bool, announcement: Option<(String, String)> },
}

/// The step of a status update after the store's write: a failed write fails
/// the request; a successful one is reported as a success, and announces the
/// job's completion exactly when `should_announce_completion` says so.
pub fn status_update_outcome(
    write_ok: bool,
    is_completed: bool,
    group_id: &str,
    job_id: &str,
    has_publisher: bool,
) -> (outcome: StatusUpdateOutcome)
    ensures
        !write_ok ==> outcome is Failed,
        write_ok ==> (outcome matches StatusUpdateOutcome::Written { success, announcement } && {
            &&& success
            &&& (announcement is Some <==> (is_completed && group_id@.len() != 0 && has_publisher))
            &&& (announcement matches Some(a) ==> {
                &&& a.0@ == completion_subject(group_id@)
                &&& a.1@ == json_object_text(completion_entries(group_id@, job_id@))
            })
        }),
{
    if !write_ok {
        return StatusUpdateOutcome::Failed;
    }
    let announcement = if should_announce_completion(is_completed, group_id, has_publisher) {
        Some((job_completed_subject(group_id), job_completed_payload(group_id, job_id)))
    } else {
        None
    };
    StatusUpdateOutcome::Written { success: true, announcement }
}

/// What a pop answers: the id that left the group's set, or the empty text
/// when the set held none.
pub fn popped_job_id(reply: Option<String>) -> (job_id: String)
    ensures
        job_id@ == match reply {
            Some(id) => id@,
            None => Seq::<char>::empty(),
        },
{
    match reply {
        Some(id) => id,
        None => String::new(),
    }
}

/// An operation of the job service.
#[derive(Debug, PartialEq, Eq, Structural, Clone, Copy)]
pub enum Operation {
    CreateJobGroup,
    GetJobGroup,
    GetGroupTemplate,
    UpdateJobGroup,
    ListJobGroups,
    DeleteJobGroup,
    CreateJob,
    GetJob,
    ListJobs,
    DeleteJob,
    UpdateJobStatus,
    PopJobFromGroup,
}

/// How the service reports a failed operation to its caller.
#[derive(Debug, PartialEq, Eq, Structural, Clone, Copy)]
pub enum FailureCode {
    Internal,
    NotFound,
}

/// The operations that read one named record.
pub open spec fn reads_one_record(op: Operation) -> bool {
    op is GetJobGroup || op is GetGroupTemplate || op is GetJob
}

/// A failed read of one named record is reported as not found; any other
/// failure as internal.
pub fn failure_code(op: Operation) -> (code: FailureCode)
    ensures
        code == if reads_one_record(op) { FailureCode::NotFound } else { FailureCode::Internal },
{
    match op {
        Operation::GetJobGroup | Operation::GetGroupTemplate | Operation::GetJob => FailureCode::NotFound,
        _ => FailureCode::Internal,
    }
}

/// The ids the service hands out hold no colon, and so not the separator
/// `::` either: the store's keys of different records never collide (see
/// `law_keys_do_not_collide`).
pub proof fn law_fresh_ids_have_no_colon(id: Seq<char>)
    requires
        is_uuid_v4_text(id),
    ensures
        no_colon(id),
        no_separator(id),
{
    assert forall|i: int| 0 <= i < id.len() implies #[trigger] id[i] != ':' by {
        if i == 8 || i == 13 || i == 18 || i == 23 {
            assert(id[i] == '-');
        } else {
            assert(is_lower_hex(id[i]));
        }
    }
}

} // verus!
