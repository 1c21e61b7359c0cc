//! What the job store sends to its key-value server, and how it reads the replies.
//!
//! Each operation of the store is a plan of commands over the key schema of
//! `keys`; where an operation reads before it writes, the plan comes in steps,
//! and a step takes the replies of the step before it as arguments.

use vstd::prelude::*;
use vstd::string::*;

use crate::decimal::{decimal, i32_to_decimal};
use crate::keys::{groups_key, group_jobs_key, group_key, job_key, params_key, templates_key, KeySpace};

verus! {

pub open spec fn field_name() -> Seq<char> {
    seq!['n', 'a', 'm', 'e']
}

pub open spec fn field_template_count() -> Seq<char> {
    seq!['t', 'e', 'm', 'p', 'l', 'a', 't', 'e', '_', 'c', 'o', 'u', 'n', 't']
}

pub open spec fn field_group_id() -> Seq<char> {
    seq!['g', 'r', 'o', 'u', 'p', '_', 'i', 'd']
}

pub open spec fn field_status() -> Seq<char> {
    seq!['s', 't', 'a', 't', 'u', 's']
}

pub open spec fn field_template_version() -> Seq<char> {
    seq!['t', 'e', 'm', 'p', 'l', 'a', 't', 'e', '_', 'v', 'e', 'r', 's', 'i', 'o', 'n']
}

/// The status a job is created with.
pub open spec fn status_created() -> Seq<char> {
    seq!['C', 'r', 'e', 'a', 't', 'e', 'd']
}

/// A command of the key-value server, as the store sends it.
#[derive(Debug, PartialEq, Eq)]
pub enum RedisCommand {
    /// Set one field of a hash.
    HSet { key: String, field: String, value: String },
    /// Read one field of a hash.
    HGet { key: String, field: String },
    /// Read several fields of a hash, in order.
    HMGet { key: String, fields: Vec<String> },
    /// Read every field of a hash.
    HGetAll { key: String },
    /// Add to the integer held in a field of a hash, and read the sum.
    HIncrBy { key: String, field: String, delta: i64 },
    /// Add a member to a set.
    SAdd { key: String, member: String },
    /// Remove a member from a set.
    SRem { key: String, member: String },
    /// Read every member of a set.
    SMembers { key: String },
    /// Remove some member of a set and read it.
    SPop { key: String },
    /// Remove a key, whatever it holds.
    Del { key: String },
}

/// The mathematical value of a `RedisCommand`.
pub enum StoreCommand {
    HSet { key: Seq<char>, field: Seq<char>, value: Seq<char> },
    HGet { key: Seq<char>, field: Seq<char> },
    HMGet { key: Seq<char>, fields: Seq<Seq<char>> },
    HGetAll { key: Seq<char> },
    HIncrBy { key: Seq<char>, field: Seq<char>, delta: int },
    SAdd { key: Seq<char>, member: Seq<char> },
    SRem { key: Seq<char>, member: Seq<char> },
    SMembers { key: Seq<char> },
    SPop { key: Seq<char> },
    Del { key: Seq<char> },
}

impl View for RedisCommand {
    type V = StoreCommand;

    open spec fn view(&self) -> StoreCommand {
        match self {
            RedisCommand::HSet { key, field, value } => StoreCommand::HSet {
                key: key@,
                field: field@,
                value: value@,
            },
            RedisCommand::HGet { key, field } => StoreCommand::HGet { key: key@, field: field@ },
            RedisCommand::HMGet { key, fields } => StoreCommand::HMGet {
                key: key@,
                fields: fields@.map_values(|f: String| f@),
            },
            RedisCommand::HGetAll { key } => StoreCommand::HGetAll { key: key@ },
            RedisCommand::HIncrBy { key, field, delta } => StoreCommand::HIncrBy {
                key: key@,
                field: field@,
                delta: *delta as int,
            },
            RedisCommand::SAdd { key, member } => StoreCommand::SAdd { key: key@, member: member@ },
            RedisCommand::SRem { key, member } => StoreCommand::SRem { key: key@, member: member@ },
            RedisCommand::SMembers { key } => StoreCommand::SMembers { key: key@ },
            RedisCommand::SPop { key } => StoreCommand::SPop { key: key@ },
            RedisCommand::Del { key } => StoreCommand::Del { key: key@ },
        }
    }
}

/// The mathematical value of a list of commands.
pub open spec fn plan_view(cmds: Seq<RedisCommand>) -> Seq<StoreCommand> {
    cmds.map_values(|c: RedisCommand| c@)
}

/// A request that the store refuses, with the message it gives.
#[derive(Debug, PartialEq, Eq)]
pub enum StoreError {
    NotFound(String),
}

/// The message of a missing job group.
pub open spec fn group_not_found(id: Seq<char>) -> Seq<char> {
    "job group "@ + id + " not found"@
}

/// The message of a missing job.
pub open spec fn job_not_found(id: Seq<char>) -> Seq<char> {
    "job "@ + id + " not found"@
}

/// The message of a missing template version.
pub open spec fn template_not_found(group_id: Seq<char>, version: int) -> Seq<char> {
    "template version "@ + decimal(version) + " for group "@ + group_id + " not found"@
}

// ── Plans, stated over the key schema ──

pub open spec fn create_job_group_plan(
    root: Seq<char>,
    id: Seq<char>,
    name: Seq<char>,
    template: Seq<char>,
) -> Seq<StoreCommand> {
    seq![
        StoreCommand::HSet { key: group_key(root, id), field: field_name(), value: name },
        StoreCommand::HSet {
            key: group_key(root, id),
            field: field_template_count(),
            value: decimal(1),
        },
        StoreCommand::HSet { key: templates_key(root, id), field: decimal(1), value: template },
        StoreCommand::SAdd { key: groups_key(root), member: id },
    ]
}

pub open spec fn group_header_command(root: Seq<char>, id: Seq<char>) -> StoreCommand {
    StoreCommand::HMGet {
        key: group_key(root, id),
        fields: seq![field_name(), field_template_count()],
    }
}

pub open spec fn job_header_command(root: Seq<char>, id: Seq<char>) -> StoreCommand {
    StoreCommand::HMGet {
        key: job_key(root, id),
        fields: seq![field_name(), field_group_id(), field_status(), field_template_version()],
    }
}

pub open spec fn job_summary_command(root: Seq<char>, id: Seq<char>) -> StoreCommand {
    StoreCommand::HMGet {
        key: job_key(root, id),
        fields: seq![field_name(), field_status(), field_template_version()],
    }
}

pub open spec fn template_read_command(root: Seq<char>, id: Seq<char>, version: int) -> StoreCommand {
    StoreCommand::HGet { key: templates_key(root, id), field: decimal(version) }
}

pub open spec fn bump_version_command(root: Seq<char>, id: Seq<char>) -> StoreCommand {
    StoreCommand::HIncrBy { key: group_key(root, id), field: field_template_count(), delta: 1 }
}

pub open spec fn template_write_command(
    root: Seq<char>,
    id: Seq<char>,
    version: int,
    template: Seq<char>,
) -> StoreCommand {
    StoreCommand::HSet { key: templates_key(root, id), field: decimal(version), value: template }
}

/// The deletions for each of the given jobs: its hash, then its parameters.
pub open spec fn job_deletions(root: Seq<char>, job_ids: Seq<Seq<char>>) -> Seq<StoreCommand>
    decreases job_ids.len(),
{
    if job_ids.len() == 0 {
        seq![]
    } else {
        job_deletions(root, job_ids.drop_last()) + seq![
            StoreCommand::Del { key: job_key(root, job_ids.last()) },
            StoreCommand::Del { key: params_key(root, job_ids.last()) },
        ]
    }
}

pub open spec fn delete_job_group_plan(
    root: Seq<char>,
    id: Seq<char>,
    job_ids: Seq<Seq<char>>,
) -> Seq<StoreCommand> {
    job_deletions(root, job_ids) + seq![
        StoreCommand::Del { key: group_key(root, id) },
        StoreCommand::Del { key: templates_key(root, id) },
        StoreCommand::Del { key: group_jobs_key(root, id) },
        StoreCommand::SRem { key: groups_key(root), member: id },
    ]
}

/// One field write for each parameter, in the order given.
pub open spec fn param_writes(root: Seq<char>, id: Seq<char>, params: Seq<(Seq<char>, Seq<char>)>) -> Seq<StoreCommand>
    decreases params.len(),
{
    if params.len() == 0 {
        seq![]
    } else {
        param_writes(root, id, params.drop_last()).push(
            StoreCommand::HSet {
                key: params_key(root, id),
                field: params.last().0,
                value: params.last().1,
            },
        )
    }
}

pub open spec fn create_job_plan(
    root: Seq<char>,
    id: Seq<char>,
    group_id: Seq<char>,
    name: Seq<char>,
    template_version: int,
    params: Seq<(Seq<char>, Seq<char>)>,
) -> Seq<StoreCommand> {
    seq![
        StoreCommand::HSet { key: job_key(root, id), field: field_name(), value: name },
        StoreCommand::HSet { key: job_key(root, id), field: field_group_id(), value: group_id },
        StoreCommand::HSet { key: job_key(root, id), field: field_status(), value: status_created() },
        StoreCommand::HSet {
            key: job_key(root, id),
            field: field_template_version(),
            value: decimal(template_version),
        },
    ] + param_writes(root, id, params) + seq![
        StoreCommand::SAdd { key: group_jobs_key(root, group_id), member: id },
    ]
}

pub open spec fn delete_job_plan(root: Seq<char>, id: Seq<char>, group_id: Option<Seq<char>>) -> Seq<StoreCommand> {
    match group_id {
        Some(g) => seq![
            StoreCommand::Del { key: job_key(root, id) },
            StoreCommand::Del { key: params_key(root, id) },
            StoreCommand::SRem { key: group_jobs_key(root, g), member: id },
        ],
        None => seq![],
    }
}

/// The pairs of a view of string pairs.
pub open spec fn pairs_view(v: Seq<(String, String)>) -> Seq<(Seq<char>, Seq<char>)> {
    v.map_values(|p: (String, String)| (p.0@, p.1@))
}

/// The job groups that a listing keeps: those whose header holds a non-empty name.
pub open spec fn kept_groups(ids: Seq<Seq<char>>, headers: Seq<(Seq<char>, i32)>) -> Seq<(Seq<char>, Seq<char>, i32)>
    decreases ids.len(),
{
    if ids.len() == 0 || headers.len() == 0 {
        seq![]
    } else {
        let rest = kept_groups(ids.drop_last(), headers.drop_last());
        let (name, count) = headers.last();
        if name.len() == 0 {
            rest
        } else {
            rest.push((ids.last(), name, count))
        }
    }
}

/// The jobs that a listing keeps: those whose header holds a non-empty name.
pub open spec fn kept_jobs(
    ids: Seq<Seq<char>>,
    headers: Seq<(Seq<char>, Seq<char>, i32)>,
) -> Seq<(Seq<char>, Seq<char>, Seq<char>, i32)>
    decreases ids.len(),
{
    if ids.len() == 0 || headers.len() == 0 {
        seq![]
    } else {
        let rest = kept_jobs(ids.drop_last(), headers.drop_last());
        let (name, status, version) = headers.last();
        if name.len() == 0 {
            rest
        } else {
            rest.push((ids.last(), name, status, version))
        }
    }
}

/// The texts of a list of strings.
pub open spec fn texts(v: Seq<String>) -> Seq<Seq<char>> {
    v.map_values(|s: String| s@)
}

/// The views of listed groups: id, name and counter.
pub open spec fn group_rows(v: Seq<(String, String, i32)>) -> Seq<(Seq<char>, Seq<char>, i32)> {
    v.map_values(|g: (String, String, i32)| (g.0@, g.1@, g.2))
}

/// The views of group headers: name and counter.
pub open spec fn header_rows(v: Seq<(String, i32)>) -> Seq<(Seq<char>, i32)> {
    v.map_values(|h: (String, i32)| (h.0@, h.1))
}

/// The views of listed jobs: id, name, status and version.
pub open spec fn job_rows(v: Seq<(String, String, String, i32)>) -> Seq<(Seq<char>, Seq<char>, Seq<char>, i32)> {
    v.map_values(|j: (String, String, String, i32)| (j.0@, j.1@, j.2@, j.3))
}

/// The views of job summaries: name, status and version.
pub open spec fn summary_rows(v: Seq<(String, String, i32)>) -> Seq<(Seq<char>, Seq<char>, i32)> {
    v.map_values(|h: (String, String, i32)| (h.0@, h.1@, h.2))
}

/// A listed group that is the `i`-th id, unchanged, with the name and counter
/// of its header, which holds a non-empty name.
pub open spec fn group_from(
    g: (Seq<char>, Seq<char>, i32),
    ids: Seq<Seq<char>>,
    headers: Seq<(Seq<char>, i32)>,
    i: int,
) -> bool {
    &&& 0 <= i < ids.len()
    &&& headers[i].0.len() != 0
    &&& g == (ids[i], headers[i].0, headers[i].1)
}

/// A listed job that is the `i`-th id, unchanged, with the name, status and
/// version of its summary, which holds a non-empty name.
pub open spec fn job_from(
    j: (Seq<char>, Seq<char>, Seq<char>, i32),
    ids: Seq<Seq<char>>,
    summaries: Seq<(Seq<char>, Seq<char>, i32)>,
    i: int,
) -> bool {
    &&& 0 <= i < ids.len()
    &&& summaries[i].0.len() != 0
    &&& j == (ids[i], summaries[i].0, summaries[i].1, summaries[i].2)
}

/// `idx` tells, for each group of a listing `r`, which of the listed ids it
/// came from: each comes from an id whose header holds a non-empty name and
/// carries that id unchanged, with the header's name and counter; they come
/// in the order of the ids; and every id whose header holds a name is one of
/// them.
pub open spec fn picks_named_groups(
    r: Seq<(Seq<char>, Seq<char>, i32)>,
    ids: Seq<Seq<char>>,
    headers: Seq<(Seq<char>, i32)>,
    idx: Seq<int>,
) -> bool {
    &&& idx.len() == r.len()
    &&& forall|k: int| 0 <= k < r.len() ==> #[trigger] group_from(r[k], ids, headers, idx[k])
    &&& forall|k1: int, k2: int| 0 <= k1 < k2 < r.len() ==> #[trigger] idx[k1] < #[trigger] idx[k2]
    &&& forall|i: int| #![trigger headers[i]] 0 <= i < ids.len() && headers[i].0.len() != 0 ==> idx.contains(i)
}

/// `idx` tells, for each job of a listing `r`, which of the listed ids it came
/// from, in the same way as `picks_named_groups`: the job carries that id and
/// the summary read for it (name, status and version) unchanged, in the order
/// of the ids, and every id whose summary holds a name is one of them,
/// whatever its status.
pub open spec fn picks_named_jobs(
    r: Seq<(Seq<char>, Seq<char>, Seq<char>, i32)>,
    ids: Seq<Seq<char>>,
    summaries: Seq<(Seq<char>, Seq<char>, i32)>,
    idx: Seq<int>,
) -> bool {
    &&& idx.len() == r.len()
    &&& forall|k: int| 0 <= k < r.len() ==> #[trigger] job_from(r[k], ids, summaries, idx[k])
    &&& forall|k1: int, k2: int| 0 <= k1 < k2 < r.len() ==> #[trigger] idx[k1] < #[trigger] idx[k2]
    &&& forall|i: int| #![trigger summaries[i]] 0 <= i < ids.len() && summaries[i].0.len() != 0 ==> idx.contains(i)
}

proof fn lemma_kept_groups_picks(ids: Seq<Seq<char>>, headers: Seq<(Seq<char>, i32)>) -> (idx: Seq<int>)
    requires
        ids.len() == headers.len(),
    ensures
        picks_named_groups(kept_groups(ids, headers), ids, headers, idx),
    decreases ids.len(),
{
    if ids.len() == 0 {
        Seq::<int>::empty()
    } else {
        let n = ids.len() - 1;
        let pi = ids.drop_last();
        let ph = headers.drop_last();
        let prev = lemma_kept_groups_picks(pi, ph);
        let rest = kept_groups(pi, ph);
        let r = kept_groups(ids, headers);
        let idx = if headers[n].0.len() == 0 { prev } else { prev.push(n) };
        assert(r == if headers[n].0.len() == 0 {
            rest
        } else {
            rest.push((ids[n], headers[n].0, headers[n].1))
        });
        assert(idx.len() == r.len());
        assert forall|k: int| 0 <= k < r.len() implies #[trigger] group_from(r[k], ids, headers, idx[k]) by {
            if k < rest.len() {
                assert(group_from(rest[k], pi, ph, prev[k]));
                assert(idx[k] == prev[k]);
                assert(0 <= prev[k] < pi.len());
                assert(ph[prev[k]] == headers[prev[k]]);
                assert(pi[prev[k]] == ids[prev[k]]);
                assert(r[k] == rest[k]);
            } else {
                assert(idx[k] == n);
                assert(r[k] == (ids[n], headers[n].0, headers[n].1));
            }
        }
        assert forall|k1: int, k2: int| 0 <= k1 < k2 < r.len() implies #[trigger] idx[k1] < #[trigger] idx[k2] by {
            if k2 < rest.len() {
                assert(prev[k1] < prev[k2]);
            } else {
                assert(group_from(rest[k1], pi, ph, prev[k1]));
            }
        }
        assert forall|i: int| #![trigger headers[i]] 0 <= i < ids.len() && headers[i].0.len() != 0 implies idx.contains(i) by {
            if i < n {
                assert(ph[i] == headers[i]);
                assert(prev.contains(i));
                let k = choose|k: int| 0 <= k < prev.len() && prev[k] == i;
                assert(idx[k] == i);
            } else {
                assert(idx[idx.len() - 1] == i);
            }
        }
        idx
    }
}

proof fn lemma_kept_jobs_picks(ids: Seq<Seq<char>>, summaries: Seq<(Seq<char>, Seq<char>, i32)>) -> (idx: Seq<int>)
    requires
        ids.len() == summaries.len(),
    ensures
        picks_named_jobs(kept_jobs(ids, summaries), ids, summaries, idx),
    decreases ids.len(),
{
    if ids.len() == 0 {
        Seq::<int>::empty()
    } else {
        let n = ids.len() - 1;
        let pi = ids.drop_last();
        let ph = summaries.drop_last();
        let prev = lemma_kept_jobs_picks(pi, ph);
        let rest = kept_jobs(pi, ph);
        let r = kept_jobs(ids, summaries);
        let idx = if summaries[n].0.len() == 0 { prev } else { prev.push(n) };
        assert(r == if summaries[n].0.len() == 0 {
            rest
        } else {
            rest.push((ids[n], summaries[n].0, summaries[n].1, summaries[n].2))
        });
        assert(idx.len() == r.len());
        assert forall|k: int| 0 <= k < r.len() implies #[trigger] job_from(r[k], ids, summaries, idx[k]) by {
            if k < rest.len() {
                assert(job_from(rest[k], pi, ph, prev[k]));
                assert(idx[k] == prev[k]);
                assert(0 <= prev[k] < pi.len());
                assert(ph[prev[k]] == summaries[prev[k]]);
                assert(pi[prev[k]] == ids[prev[k]]);
                assert(r[k] == rest[k]);
            } else {
                assert(idx[k] == n);
                assert(r[k] == (ids[n], summaries[n].0, summaries[n].1, summaries[n].2));
            }
        }
        assert forall|k1: int, k2: int| 0 <= k1 < k2 < r.len() implies #[trigger] idx[k1] < #[trigger] idx[k2] by {
            if k2 < rest.len() {
                assert(prev[k1] < prev[k2]);
            } else {
                assert(job_from(rest[k1], pi, ph, prev[k1]));
            }
        }
        assert forall|i: int| #![trigger summaries[i]] 0 <= i < ids.len() && summaries[i].0.len() != 0 implies idx.contains(i) by {
            if i < n {
                assert(ph[i] == summaries[i]);
                assert(prev.contains(i));
                let k = choose|k: int| 0 <= k < prev.len() && prev[k] == i;
                assert(idx[k] == i);
            } else {
                assert(idx[idx.len() - 1] == i);
            }
        }
        idx
    }
}

/// A listing of job groups is the listed ids, each with the header read for
/// it, kept exactly when the header holds a non-empty name: every group it
/// returns carries one of the ids unchanged, with that id's name and counter;
/// the groups come in the order of the ids; and no id with a named header is
/// left out.
pub proof fn law_group_listing_keeps_named_ids(ids: Seq<Seq<char>>, headers: Seq<(Seq<char>, i32)>)
    requires
        ids.len() == headers.len(),
    ensures
        exists|idx: Seq<int>| #[trigger] picks_named_groups(kept_groups(ids, headers), ids, headers, idx),
{
    let idx = lemma_kept_groups_picks(ids, headers);
}

/// A listing of jobs is the listed ids, each with the summary read for it,
/// kept exactly when the summary holds a non-empty name, whatever the status:
/// every job it returns carries one of the ids and that id's name, status and
/// version unchanged; the jobs come in the order of the ids; and no id with a
/// named summary is left out.
pub proof fn law_job_listing_keeps_named_ids(ids: Seq<Seq<char>>, summaries: Seq<(Seq<char>, Seq<char>, i32)>)
    requires
        ids.len() == summaries.len(),
    ensures
        exists|idx: Seq<int>| #[trigger] picks_named_jobs(kept_jobs(ids, summaries), ids, summaries, idx),
{
    let idx = lemma_kept_jobs_picks(ids, summaries);
}

/// Where the store keeps its data.
#[derive(Clone)]
pub struct JobStore {
    pub keys: KeySpace,
}

fn text(s: &str) -> (r: String)
    ensures
        r@ == s@,
{
    s.to_owned()
}

fn hset(key: String, field: String, value: String) -> (c: RedisCommand)
    ensures
        c@ == (StoreCommand::HSet { key: key@, field: field@, value: value@ }),
{
    RedisCommand::HSet { key, field, value }
}

impl JobStore {
    pub fn new(root: &str) -> (store: JobStore)
        ensures
            store.keys.root@ == root@,
    {
        JobStore { keys: KeySpace::new(root) }
    }

    pub open spec fn root(&self) -> Seq<char> {
        self.keys.root@
    }

    fn name_field() -> (f: String)
        ensures
            f@ == field_name(),
    {
        proof { reveal_strlit("name"); }
        text("name")
    }

    fn template_count_field() -> (f: String)
        ensures
            f@ == field_template_count(),
    {
        proof { reveal_strlit("template_count"); }
        text("template_count")
    }

    fn group_id_field() -> (f: String)
        ensures
            f@ == field_group_id(),
    {
        proof { reveal_strlit("group_id"); }
        text("group_id")
    }

    fn status_field() -> (f: String)
        ensures
            f@ == field_status(),
    {
        proof { reveal_strlit("status"); }
        text("status")
    }

    fn template_version_field() -> (f: String)
        ensures
            f@ == field_template_version(),
    {
        proof { reveal_strlit("template_version"); }
        text("template_version")
    }

    // ── Job groups ──

    /// The writes that create a job group: its name, its template counter at 1,
    /// its first template as version 1, and its id in the set of groups.
    pub fn create_job_group(&self, id: &str, name: &str, template: &str) -> (cmds: Vec<RedisCommand>)
        ensures
            plan_view(cmds@) == create_job_group_plan(self.root(), id@, name@, template@),
    {
        let hash_key = self.keys.group_key(id);
        let templates_key = self.keys.templates_key(id);
        let set_key = self.keys.groups_key();
        let mut cmds: Vec<RedisCommand> = Vec::new();
        cmds.push(hset(hash_key.clone(), Self::name_field(), text(name)));
        cmds.push(hset(hash_key, Self::template_count_field(), i32_to_decimal(1)));
        cmds.push(hset(templates_key, i32_to_decimal(1), text(template)));
        cmds.push(RedisCommand::SAdd { key: set_key, member: text(id) });
        assert(plan_view(cmds@) =~= create_job_group_plan(self.root(), id@, name@, template@));
        cmds
    }

    /// The read of a job group's name and template counter.
    pub fn job_group_header(&self, id: &str) -> (cmd: RedisCommand)
        ensures
            cmd@ == group_header_command(self.root(), id@),
    {
        let mut fields: Vec<String> = Vec::new();
        fields.push(Self::name_field());
        fields.push(Self::template_count_field());
        let cmd = RedisCommand::HMGet { key: self.keys.group_key(id), fields };
        assert(fields@.map_values(|f: String| f@) =~= seq![field_name(), field_template_count()]);
        cmd
    }

    /// After the header of a job group has been read: a group with an empty
    /// name is missing; otherwise the next read is its current template.
    pub fn job_group_template(&self, id: &str, name: &str, template_count: i32) -> (res: Result<RedisCommand, StoreError>)
        ensures
            name@.len() == 0 ==> (res matches Err(StoreError::NotFound(m)) && m@ == group_not_found(id@)),
            name@.len() != 0 ==> (res matches Ok(c) && c@ == template_read_command(self.root(), id@, template_count as int)),
    {
        if name.is_empty() {
            let mut m = text("job group ");
            m.append(id);
            m.append(" not found");
            Err(StoreError::NotFound(m))
        } else {
            Ok(RedisCommand::HGet {
                key: self.keys.templates_key(id),
                field: i32_to_decimal(template_count),
            })
        }
    }

    /// The first step of a template update: add one to the group's counter.
    pub fn bump_template_count(&self, id: &str) -> (cmd: RedisCommand)
        ensures
            cmd@ == bump_version_command(self.root(), id@),
    {
        RedisCommand::HIncrBy { key: self.keys.group_key(id), field: Self::template_count_field(), delta: 1 }
    }

    /// The second step of a template update: store the template under the
    /// version that the counter now holds.
    pub fn put_template(&self, id: &str, template_count: i32, template: &str) -> (cmd: RedisCommand)
        ensures
            cmd@ == template_write_command(self.root(), id@, template_count as int, template@),
    {
        hset(self.keys.templates_key(id), i32_to_decimal(template_count), text(template))
    }

    /// The read of every job group id.
    pub fn job_group_ids(&self) -> (cmd: RedisCommand)
        ensures
            cmd@ == (StoreCommand::SMembers { key: groups_key(self.root()) }),
    {
        RedisCommand::SMembers { key: self.keys.groups_key() }
    }

    /// The job groups a listing returns, from the ids and the header read for
    /// each of them: those with a non-empty name, in the order of the ids.
    pub fn collect_job_groups(ids: &Vec<String>, headers: &Vec<(String, i32)>) -> (groups: Vec<(String, String, i32)>)
        requires
            ids.len() == headers.len(),
        ensures
            groups@.map_values(|g: (String, String, i32)| (g.0@, g.1@, g.2)) == kept_groups(
                ids@.map_values(|s: String| s@),
                headers@.map_values(|h: (String, i32)| (h.0@, h.1)),
            ),
            exists|idx: Seq<int>| #[trigger] picks_named_groups(group_rows(groups@), texts(ids@), header_rows(headers@), idx),
    {
        let ghost iv = ids@.map_values(|s: String| s@);
        let ghost hv = headers@.map_values(|h: (String, i32)| (h.0@, h.1));
        let mut groups: Vec<(String, String, i32)> = Vec::new();
        let mut i: usize = 0;
        while i < ids.len()
            invariant
                i <= ids.len(),
                ids.len() == headers.len(),
                iv == ids@.map_values(|s: String| s@),
                hv == headers@.map_values(|h: (String, i32)| (h.0@, h.1)),
                groups@.map_values(|g: (String, String, i32)| (g.0@, g.1@, g.2)) == kept_groups(
                    iv.take(i as int),
                    hv.take(i as int),
                ),
            decreases ids.len() - i,
        {
            let ghost before = groups@;
            let (name, count) = &headers[i];
            if !name.as_str().is_empty() {
                groups.push((ids[i].clone(), name.clone(), *count));
            }
            proof {
                assert(iv.take(i + 1).drop_last() =~= iv.take(i as int));
                assert(hv.take(i + 1).drop_last() =~= hv.take(i as int));
                assert(hv.take(i + 1).last() == (name@, *count));
                assert(iv.take(i + 1).last() == ids@[i as int]@);
                assert(groups@.map_values(|g: (String, String, i32)| (g.0@, g.1@, g.2)) =~= kept_groups(
                    iv.take(i + 1),
                    hv.take(i + 1),
                ));
            }
            i = i + 1;
        }
        proof {
            assert(iv.take(ids.len() as int) =~= iv);
            assert(hv.take(ids.len() as int) =~= hv);
            let idx = lemma_kept_groups_picks(iv, hv);
            assert(texts(ids@) =~= iv);
            assert(header_rows(headers@) =~= hv);
            assert(group_rows(groups@) =~= kept_groups(iv, hv));
            assert(picks_named_groups(group_rows(groups@), texts(ids@), header_rows(headers@), idx));
        }
        groups
    }

    /// The read of the job ids of a job group.
    pub fn group_job_ids(&self, group_id: &str) -> (cmd: RedisCommand)
        ensures
            cmd@ == (StoreCommand::SMembers { key: group_jobs_key(self.root(), group_id@) }),
    {
        RedisCommand::SMembers { key: self.keys.group_jobs_key(group_id) }
    }

    /// The deletions of a job group, given the ids of its jobs: each job's hash
    /// and parameters, then the group's hash, templates and job set, and its id
    /// in the set of groups.
    pub fn delete_job_group(&self, id: &str, job_ids: &Vec<String>) -> (cmds: Vec<RedisCommand>)
        ensures
            plan_view(cmds@) == delete_job_group_plan(self.root(), id@, job_ids@.map_values(|s: String| s@)),
    {
        let ghost jv = job_ids@.map_values(|s: String| s@);
        let mut cmds: Vec<RedisCommand> = Vec::new();
        let mut i: usize = 0;
        while i < job_ids.len()
            invariant
                i <= job_ids.len(),
                jv == job_ids@.map_values(|s: String| s@),
                plan_view(cmds@) == job_deletions(self.root(), jv.take(i as int)),
            decreases job_ids.len() - i,
        {
            let ghost before = cmds@;
            cmds.push(RedisCommand::Del { key: self.keys.job_key(job_ids[i].as_str()) });
            cmds.push(RedisCommand::Del { key: self.keys.params_key(job_ids[i].as_str()) });
            proof {
                assert(jv.take(i + 1).drop_last() =~= jv.take(i as int));
                assert(jv.take(i + 1).last() == job_ids@[i as int]@);
                assert(plan_view(cmds@) =~= plan_view(before) + seq![
                    StoreCommand::Del { key: job_key(self.root(), job_ids@[i as int]@) },
                    StoreCommand::Del { key: params_key(self.root(), job_ids@[i as int]@) },
                ]);
            }
            i = i + 1;
        }
        proof {
            assert(jv.take(job_ids.len() as int) =~= jv);
        }
        let ghost before = cmds@;
        cmds.push(RedisCommand::Del { key: self.keys.group_key(id) });
        cmds.push(RedisCommand::Del { key: self.keys.templates_key(id) });
        cmds.push(RedisCommand::Del { key: self.keys.group_jobs_key(id) });
        cmds.push(RedisCommand::SRem { key: self.keys.groups_key(), member: text(id) });
        assert(plan_view(cmds@) =~= delete_job_group_plan(self.root(), id@, jv));
        cmds
    }

    // ── Jobs ──

    /// The read of a job group's template counter, which a new job records as
    /// its template version.
    pub fn group_template_count(&self, group_id: &str) -> (cmd: RedisCommand)
        ensures
            cmd@ == (StoreCommand::HGet { key: group_key(self.root(), group_id@), field: field_template_count() }),
    {
        RedisCommand::HGet { key: self.keys.group_key(group_id), field: Self::template_count_field() }
    }

    /// The writes that create a job: its name, group, status `Created` and
    /// template version, one field per parameter in the order given, and its
    /// id in the set of its group's jobs.
    pub fn create_job(
        &self,
        id: &str,
        group_id: &str,
        name: &str,
        template_version: i32,
        parameters: &Vec<(String, String)>,
    ) -> (cmds: Vec<RedisCommand>)
        ensures
            plan_view(cmds@) == create_job_plan(
                self.root(),
                id@,
                group_id@,
                name@,
                template_version as int,
                pairs_view(parameters@),
            ),
    {
        proof { reveal_strlit("Created"); }
        assert("Created"@ =~= status_created());
        let hash_key = self.keys.job_key(id);
        let pkey = self.keys.params_key(id);
        let mut cmds: Vec<RedisCommand> = Vec::new();
        cmds.push(hset(hash_key.clone(), Self::name_field(), text(name)));
        cmds.push(hset(hash_key.clone(), Self::group_id_field(), text(group_id)));
        cmds.push(hset(hash_key.clone(), Self::status_field(), text("Created")));
        cmds.push(hset(hash_key, Self::template_version_field(), i32_to_decimal(template_version)));
        let ghost head = plan_view(cmds@);
        assert(head =~= seq![
            StoreCommand::HSet { key: job_key(self.root(), id@), field: field_name(), value: name@ },
            StoreCommand::HSet { key: job_key(self.root(), id@), field: field_group_id(), value: group_id@ },
            StoreCommand::HSet { key: job_key(self.root(), id@), field: field_status(), value: status_created() },
            StoreCommand::HSet {
                key: job_key(self.root(), id@),
                field: field_template_version(),
                value: decimal(template_version as int),
            },
        ]);
        let ghost pv = pairs_view(parameters@);
        let mut i: usize = 0;
        while i < parameters.len()
            invariant
                i <= parameters.len(),
                pv == pairs_view(parameters@),
                pkey@ == params_key(self.root(), id@),
                plan_view(cmds@) == head + param_writes(self.root(), id@, pv.take(i as int)),
            decreases parameters.len() - i,
        {
            let ghost before = cmds@;
            let (k, v) = &parameters[i];
            cmds.push(hset(pkey.clone(), k.clone(), v.clone()));
            proof {
                assert(pv.take(i + 1).drop_last() =~= pv.take(i as int));
                assert(pv.take(i + 1).last() == (k@, v@));
                assert(plan_view(cmds@) =~= plan_view(before).push(StoreCommand::HSet {
                    key: params_key(self.root(), id@),
                    field: k@,
                    value: v@,
                }));
            }
            i = i + 1;
        }
        proof {
            assert(pv.take(parameters.len() as int) =~= pv);
        }
        let ghost before = cmds@;
        cmds.push(RedisCommand::SAdd { key: self.keys.group_jobs_key(group_id), member: text(id) });
        assert(plan_view(cmds@) =~= plan_view(before).push(
            StoreCommand::SAdd { key: group_jobs_key(self.root(), group_id@), member: id@ },
        ));
        assert(plan_view(cmds@) =~= create_job_plan(
            self.root(),
            id@,
            group_id@,
            name@,
            template_version as int,
            pv,
        ));
        cmds
    }

    /// The read of a job's name, group, status and template version.
    pub fn job_header(&self, id: &str) -> (cmd: RedisCommand)
        ensures
            cmd@ == job_header_command(self.root(), id@),
    {
        let mut fields: Vec<String> = Vec::new();
        fields.push(Self::name_field());
        fields.push(Self::group_id_field());
        fields.push(Self::status_field());
        fields.push(Self::template_version_field());
        let cmd = RedisCommand::HMGet { key: self.keys.job_key(id), fields };
        assert(fields@.map_values(|f: String| f@) =~= seq![
            field_name(),
            field_group_id(),
            field_status(),
            field_template_version(),
        ]);
        cmd
    }

    /// After the header of a job has been read: a job with an empty name is
    /// missing; otherwise the next read is its parameters.
    pub fn job_parameters(&self, id: &str, name: &str) -> (res: Result<RedisCommand, StoreError>)
        ensures
            name@.len() == 0 ==> (res matches Err(StoreError::NotFound(m)) && m@ == job_not_found(id@)),
            name@.len() != 0 ==> (res matches Ok(c) && c@ == (StoreCommand::HGetAll { key: params_key(self.root(), id@) })),
    {
        if name.is_empty() {
            let mut m = text("job ");
            m.append(id);
            m.append(" not found");
            Err(StoreError::NotFound(m))
        } else {
            Ok(RedisCommand::HGetAll { key: self.keys.params_key(id) })
        }
    }

    /// The read of one template version of a job group.
    pub fn group_template(&self, group_id: &str, version: i32) -> (cmd: RedisCommand)
        ensures
            cmd@ == template_read_command(self.root(), group_id@, version as int),
    {
        RedisCommand::HGet { key: self.keys.templates_key(group_id), field: i32_to_decimal(version) }
    }

    /// The template that was read, or the refusal when the version holds none.
    pub fn group_template_result(group_id: &str, version: i32, reply: Option<String>) -> (res: Result<String, StoreError>)
        ensures
            reply matches Some(t) ==> (res matches Ok(r) && r@ == t@),
            reply is None ==> (res matches Err(StoreError::NotFound(m)) && m@ == template_not_found(group_id@, version as int)),
    {
        match reply {
            Some(t) => Ok(t),
            None => {
                let mut m = text("template version ");
                let v = i32_to_decimal(version);
                m.append(v.as_str());
                m.append(" for group ");
                m.append(group_id);
                m.append(" not found");
                Err(StoreError::NotFound(m))
            },
        }
    }

    /// The read of a job's name, status and template version, for a listing.
    pub fn job_summary(&self, id: &str) -> (cmd: RedisCommand)
        ensures
            cmd@ == job_summary_command(self.root(), id@),
    {
        let mut fields: Vec<String> = Vec::new();
        fields.push(Self::name_field());
        fields.push(Self::status_field());
        fields.push(Self::template_version_field());
        let cmd = RedisCommand::HMGet { key: self.keys.job_key(id), fields };
        assert(fields@.map_values(|f: String| f@) =~= seq![
            field_name(),
            field_status(),
            field_template_version(),
        ]);
        cmd
    }

    /// The jobs a listing returns, from the ids and the summary read for each
    /// of them: those with a non-empty name, in the order of the ids.
    pub fn collect_jobs(ids: &Vec<String>, summaries: &Vec<(String, String, i32)>) -> (jobs: Vec<(String, String, String, i32)>)
        requires
            ids.len() == summaries.len(),
        ensures
            jobs@.map_values(|j: (String, String, String, i32)| (j.0@, j.1@, j.2@, j.3)) == kept_jobs(
                ids@.map_values(|s: String| s@),
                summaries@.map_values(|h: (String, String, i32)| (h.0@, h.1@, h.2)),
            ),
            exists|idx: Seq<int>| #[trigger] picks_named_jobs(job_rows(jobs@), texts(ids@), summary_rows(summaries@), idx),
    {
        let ghost iv = ids@.map_values(|s: String| s@);
        let ghost hv = summaries@.map_values(|h: (String, String, i32)| (h.0@, h.1@, h.2));
        let mut jobs: Vec<(String, String, String, i32)> = Vec::new();
        let mut i: usize = 0;
        while i < ids.len()
            invariant
                i <= ids.len(),
                ids.len() == summaries.len(),
                iv == ids@.map_values(|s: String| s@),
                hv == summaries@.map_values(|h: (String, String, i32)| (h.0@, h.1@, h.2)),
                jobs@.map_values(|j: (String, String, String, i32)| (j.0@, j.1@, j.2@, j.3)) == kept_jobs(
                    iv.take(i as int),
                    hv.take(i as int),
                ),
            decreases ids.len() - i,
        {
            let (name, status, version) = &summaries[i];
            if !name.as_str().is_empty() {
                jobs.push((ids[i].clone(), name.clone(), status.clone(), *version));
            }
            proof {
                assert(iv.take(i + 1).drop_last() =~= iv.take(i as int));
                assert(hv.take(i + 1).drop_last() =~= hv.take(i as int));
                assert(hv.take(i + 1).last() == (name@, status@, *version));
                assert(iv.take(i + 1).last() == ids@[i as int]@);
                assert(jobs@.map_values(|j: (String, String, String, i32)| (j.0@, j.1@, j.2@, j.3)) =~= kept_jobs(
                    iv.take(i + 1),
                    hv.take(i + 1),
                ));
            }
            i = i + 1;
        }
        proof {
            assert(iv.take(ids.len() as int) =~= iv);
            assert(hv.take(ids.len() as int) =~= hv);
            let idx = lemma_kept_jobs_picks(iv, hv);
            assert(texts(ids@) =~= iv);
            assert(summary_rows(summaries@) =~= hv);
            assert(job_rows(jobs@) =~= kept_jobs(iv, hv));
            assert(picks_named_jobs(job_rows(jobs@), texts(ids@), summary_rows(summaries@), idx));
        }
        jobs
    }

    /// The read of the group a job belongs to.
    pub fn job_group_of(&self, id: &str) -> (cmd: RedisCommand)
        ensures
            cmd@ == (StoreCommand::HGet { key: job_key(self.root(), id@), field: field_group_id() }),
    {
        RedisCommand::HGet { key: self.keys.job_key(id), field: Self::group_id_field() }
    }

    /// The deletions of a job, given the group it belongs to: its hash, its
    /// parameters and its id in the group's set; nothing when it has no group.
    pub fn delete_job(&self, id: &str, group_id: &Option<String>) -> (cmds: Vec<RedisCommand>)
        ensures
            plan_view(cmds@) == delete_job_plan(
                self.root(),
                id@,
                match group_id { Some(g) => Some(g@), None => None },
            ),
    {
        let mut cmds: Vec<RedisCommand> = Vec::new();
        match group_id {
            Some(g) => {
                cmds.push(RedisCommand::Del { key: self.keys.job_key(id) });
                cmds.push(RedisCommand::Del { key: self.keys.params_key(id) });
                cmds.push(RedisCommand::SRem { key: self.keys.group_jobs_key(g.as_str()), member: text(id) });
            },
            None => {},
        }
        assert(plan_view(cmds@) =~= delete_job_plan(
            self.root(),
            id@,
            match group_id { Some(g) => Some(g@), None => None },
        ));
        cmds
    }

    /// The write of a job's status.
    pub fn update_job_status(&self, id: &str, status: &str) -> (cmd: RedisCommand)
        ensures
            cmd@ == (StoreCommand::HSet { key: job_key(self.root(), id@), field: field_status(), value: status@ }),
    {
        hset(self.keys.job_key(id), Self::status_field(), text(status))
    }

    /// The removal of some job id from a job group's set, which the reply names.
    pub fn pop_job_from_group(&self, group_id: &str) -> (cmd: RedisCommand)
        ensures
            cmd@ == (StoreCommand::SPop { key: group_jobs_key(self.root(), group_id@) }),
    {
        RedisCommand::SPop { key: self.keys.group_jobs_key(group_id) }
    }
}

} // verus!
