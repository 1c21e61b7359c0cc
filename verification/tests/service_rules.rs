use condor::events::{job_completed_payload, job_completed_subject};
use condor::service::{
    failure_code, new_job, new_job_group, popped_job_id, should_announce_completion, FailureCode, Operation,
};
use condor::store::{JobStore, RedisCommand};

fn is_uuid_v4(id: &str) -> bool {
    let b = id.as_bytes();
    b.len() == 36
        && b.iter().enumerate().all(|(i, c)| {
            if i == 8 || i == 13 || i == 18 || i == 23 {
                *c == b'-'
            } else {
                c.is_ascii_digit() || (b'a'..=b'f').contains(c)
            }
        })
        && b[14] == b'4'
        && matches!(b[19], b'8' | b'9' | b'a' | b'b')
}

#[test]
fn new_group_gets_a_fresh_uuid_and_its_writes() {
    let store = JobStore::new("r");
    let (id, cmds) = new_job_group(&store, "n", "t");
    assert!(is_uuid_v4(&id));
    assert!(!id.contains(':'));
    assert_eq!(cmds, store.create_job_group(&id, "n", "t"));
    let (id2, _) = new_job_group(&store, "n", "t");
    assert_ne!(id, id2);
}

#[test]
fn new_job_gets_a_fresh_uuid_and_its_writes() {
    let store = JobStore::new("r");
    let params = vec![("a".to_string(), "b".to_string())];
    let (id, cmds) = new_job(&store, "g", "n", 3, &params);
    assert!(is_uuid_v4(&id));
    assert_eq!(cmds, store.create_job(&id, "g", "n", 3, &params));
    assert_eq!(
        cmds.last(),
        Some(&RedisCommand::SAdd { key: "r::condor::job_group::g::jobs".to_string(), member: id.clone() })
    );
}

#[test]
fn completion_is_announced_only_with_group_and_publisher() {
    assert!(should_announce_completion(true, "g", true));
    assert!(!should_announce_completion(false, "g", true));
    assert!(!should_announce_completion(true, "", true));
    assert!(!should_announce_completion(true, "g", false));
}

#[test]
fn pop_answers_empty_text_when_nothing_left() {
    assert_eq!(popped_job_id(None), "");
    assert_eq!(popped_job_id(Some("j1".to_string())), "j1");
}

#[test]
fn completion_subject() {
    assert_eq!(job_completed_subject("g1"), "condor.g1.job.completed");
    assert_eq!(job_completed_subject(""), "condor..job.completed");
}

#[test]
fn completion_payload_is_json_with_three_members() {
    let payload = job_completed_payload("g1", "j\"1");
    let v: serde_json::Value = serde_json::from_str(&payload).unwrap();
    let obj = v.as_object().unwrap();
    assert_eq!(obj.len(), 3);
    assert_eq!(obj["job_id"], "j\"1");
    assert_eq!(obj["group_id"], "g1");
    assert_eq!(obj["status"], "Completed");
    assert!(!payload.contains(' '));
}

#[test]
fn failures_of_record_reads_are_not_found() {
    for op in [Operation::GetJobGroup, Operation::GetGroupTemplate, Operation::GetJob] {
        assert_eq!(failure_code(op), FailureCode::NotFound);
    }
    for op in [
        Operation::CreateJobGroup,
        Operation::UpdateJobGroup,
        Operation::ListJobGroups,
        Operation::DeleteJobGroup,
        Operation::CreateJob,
        Operation::ListJobs,
        Operation::DeleteJob,
        Operation::UpdateJobStatus,
        Operation::PopJobFromGroup,
    ] {
        assert_eq!(failure_code(op), FailureCode::Internal);
    }
}
