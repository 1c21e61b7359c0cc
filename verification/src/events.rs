//! The event that announces a completed job: its subject and its JSON payload.

use vstd::prelude::*;
use vstd::string::*;

use crate::store::pairs_view;

verus! {

/// The text that `serde_json` renders for a JSON object whose members are the
/// given names and string values, inserted in the given order.
pub uninterp spec fn json_object_text(entries: Seq<(Seq<char>, Seq<char>)>) -> Seq<char>;

/// Calls `serde_json`: inserts each entry into a `serde_json::Map` as a
/// `Value::String`, in order, and renders the resulting `Value::Object` with
/// `to_string`. The contract claims only that the text is a function of the
/// entries, named `json_object_text`; how `serde_json` orders members and
/// escapes strings is left to it.
#[verifier::external_body]
fn json_object_of_strings(entries: Vec<(String, String)>) -> (text: String)
    ensures
        text@ == json_object_text(pairs_view(entries@)),
{
    let mut map = serde_json::Map::new();
    for (k, v) in entries {
        map.insert(k, serde_json::Value::String(v));
    }
    serde_json::Value::Object(map).to_string()
}

/// The subject on which a completed job of a group is announced.
pub open spec fn completion_subject(group_id: Seq<char>) -> Seq<char> {
    "condor."@ + group_id + ".job.completed"@
}

/// The members of a completion event: the job, its group and the status.
pub open spec fn completion_entries(group_id: Seq<char>, job_id: Seq<char>) -> Seq<(Seq<char>, Seq<char>)> {
    seq![("job_id"@, job_id), ("group_id"@, group_id), ("status"@, "Completed"@)]
}

/// The completion subject carries the whole group id: it is `condor.`, then
/// the group id unchanged, then `.job.completed`, so it is 21 characters
/// longer than the id; and different groups announce on different subjects.
pub proof fn law_completion_subject_carries_group(g: Seq<char>, h: Seq<char>)
    ensures
        completion_subject(g).len() == g.len() + 21,
        completion_subject(g).take(7) == "condor."@,
        completion_subject(g).subrange(7, 7 + g.len() as int) == g,
        completion_subject(g).skip(7 + g.len() as int) == ".job.completed"@,
        completion_subject(g) == completion_subject(h) ==> g == h,
{
    reveal_strlit("condor.");
    reveal_strlit(".job.completed");
    let s = completion_subject(g);
    assert(s.take(7) =~= "condor."@);
    assert(s.subrange(7, 7 + g.len() as int) =~= g);
    assert(s.skip(7 + g.len() as int) =~= ".job.completed"@);
    if s == completion_subject(h) {
        let t = completion_subject(h);
        assert(t.len() == h.len() + 21);
        assert(t.subrange(7, 7 + h.len() as int) =~= h);
    }
}

/// `condor.{group_id}.job.completed`
pub fn job_completed_subject(group_id: &str) -> (subject: String)
    ensures
        subject@ == completion_subject(group_id@),
        subject@.len() == group_id@.len() + 21,
        subject@.subrange(7, 7 + group_id@.len() as int) == group_id@,
{
    let mut s = "condor.".to_owned();
    s.append(group_id);
    s.append(".job.completed");
    proof {
        law_completion_subject_carries_group(group_id@, group_id@);
    }
    s
}

/// The JSON object `{job_id, group_id, status: "Completed"}` as text.
pub fn job_completed_payload(group_id: &str, job_id: &str) -> (payload: String)
    ensures
        payload@ == json_object_text(completion_entries(group_id@, job_id@)),
{
    let mut entries: Vec<(String, String)> = Vec::new();
    entries.push(("job_id".to_owned(), job_id.to_owned()));
    entries.push(("group_id".to_owned(), group_id.to_owned()));
    entries.push(("status".to_owned(), "Completed".to_owned()));
    assert(pairs_view(entries@) =~= completion_entries(group_id@, job_id@));
    json_object_of_strings(entries)
}

/// Where completion events are published, and the token that grants access.
pub struct NatsConfig {
    pub url: String,
    pub token: Option<String>,
}

} // verus!
