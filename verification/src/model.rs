//! The data of the key-value server as a mathematical value, what each command
//! does to it, and what the store's plans leave behind.

use vstd::prelude::*;

use crate::decimal::{decimal, lemma_decimal_injective};
use crate::keys::{
    group_jobs_key, group_key, groups_key, job_key, join_key, lemma_join_key_push, params_key, templates_key,
};
use crate::store::{
    bump_version_command, group_header_command, job_header_command, job_summary_command, create_job_group_plan, create_job_plan, delete_job_group_plan,
    delete_job_plan, field_group_id, field_name, field_status, field_template_count,
    field_template_version, job_deletions, param_writes, status_created, template_read_command,
    template_write_command, StoreCommand,
};

verus! {

/// The server's data: hashes of fields and sets of members, by key.
pub struct StoreModel {
    pub hashes: Map<Seq<char>, Map<Seq<char>, Seq<char>>>,
    pub sets: Map<Seq<char>, Set<Seq<char>>>,
}

/// The hash at a key; a key that holds none reads as the empty hash.
pub open spec fn hash_of(m: StoreModel, key: Seq<char>) -> Map<Seq<char>, Seq<char>> {
    if m.hashes.dom().contains(key) {
        m.hashes[key]
    } else {
        Map::empty()
    }
}

/// The set at a key; a key that holds none reads as the empty set.
pub open spec fn set_of(m: StoreModel, key: Seq<char>) -> Set<Seq<char>> {
    if m.sets.dom().contains(key) {
        m.sets[key]
    } else {
        Set::empty()
    }
}

/// One field of a hash, if it is set.
pub open spec fn hget(m: StoreModel, key: Seq<char>, field: Seq<char>) -> Option<Seq<char>> {
    if hash_of(m, key).dom().contains(field) {
        Some(hash_of(m, key)[field])
    } else {
        None
    }
}

/// A field that is either unset or holds the decimal text of an integer.
pub open spec fn counter_valid(m: StoreModel, key: Seq<char>, field: Seq<char>) -> bool {
    match hget(m, key, field) {
        Some(v) => exists|n: int| decimal(n) == v,
        None => true,
    }
}

/// The integer a counter field holds: zero when unset.
pub open spec fn counter(m: StoreModel, key: Seq<char>, field: Seq<char>) -> int {
    match hget(m, key, field) {
        Some(v) => choose|n: int| decimal(n) == v,
        None => 0,
    }
}

/// What a read answers.
pub enum Reply {
    /// `HGet`: the field, if it is set.
    Field(Option<Seq<char>>),
    /// `HMGet`: each field asked for, in order, if it is set.
    Fields(Seq<Option<Seq<char>>>),
    /// `HGetAll`: every field of the hash.
    Hash(Map<Seq<char>, Seq<char>>),
    /// `SMembers`: every member of the set.
    Members(Set<Seq<char>>),
}

/// The answer of a read command on the data; other commands answer no read.
pub open spec fn reply_of(m: StoreModel, c: StoreCommand) -> Option<Reply> {
    match c {
        StoreCommand::HGet { key, field } => Some(Reply::Field(hget(m, key, field))),
        StoreCommand::HMGet { key, fields } => Some(
            Reply::Fields(fields.map_values(|f: Seq<char>| hget(m, key, f))),
        ),
        StoreCommand::HGetAll { key } => Some(Reply::Hash(hash_of(m, key))),
        StoreCommand::SMembers { key } => Some(Reply::Members(set_of(m, key))),
        _ => None,
    }
}

/// A pop of the set at `key`: the server answers `None` and changes nothing
/// when the set is empty; otherwise it answers some member, which leaves the
/// set, and nothing else changes. Which member leaves is the server's choice.
pub open spec fn pop_step(m: StoreModel, key: Seq<char>, reply: Option<Seq<char>>, m2: StoreModel) -> bool {
    match reply {
        None => set_of(m, key) == Set::<Seq<char>>::empty() && m2 == m,
        Some(j) => {
            &&& set_of(m, key).contains(j)
            &&& m2 == StoreModel { hashes: m.hashes, sets: m.sets.insert(key, set_of(m, key).remove(j)) }
        },
    }
}

/// The member that `apply` takes for a pop: one that `choose` names.
pub open spec fn chosen_pop(m: StoreModel, key: Seq<char>) -> Option<Seq<char>> {
    if set_of(m, key) == Set::<Seq<char>>::empty() {
        None
    } else {
        Some(set_of(m, key).choose())
    }
}

/// The data after a command; reads leave it as it is. For `SPop` it takes the
/// member `chosen_pop` names, which is one pop the server may make
/// (`lemma_apply_pop`); the laws on pops are stated over `pop_step`, for every
/// member the server may pick.
pub open spec fn apply(m: StoreModel, c: StoreCommand) -> StoreModel {
    match c {
        StoreCommand::HSet { key, field, value } => StoreModel {
            hashes: m.hashes.insert(key, hash_of(m, key).insert(field, value)),
            sets: m.sets,
        },
        StoreCommand::HIncrBy { key, field, delta } => StoreModel {
            hashes: m.hashes.insert(
                key,
                hash_of(m, key).insert(field, decimal(counter(m, key, field) + delta)),
            ),
            sets: m.sets,
        },
        StoreCommand::SAdd { key, member } => StoreModel {
            hashes: m.hashes,
            sets: m.sets.insert(key, set_of(m, key).insert(member)),
        },
        StoreCommand::SRem { key, member } => StoreModel {
            hashes: m.hashes,
            sets: m.sets.insert(key, set_of(m, key).remove(member)),
        },
        StoreCommand::Del { key } => StoreModel {
            hashes: m.hashes.remove(key),
            sets: m.sets.remove(key),
        },
        StoreCommand::SPop { key } => match chosen_pop(m, key) {
            Some(j) => StoreModel { hashes: m.hashes, sets: m.sets.insert(key, set_of(m, key).remove(j)) },
            None => m,
        },
        _ => m,
    }
}

/// The pop that `apply` makes is one the server may make.
pub proof fn lemma_apply_pop(m: StoreModel, key: Seq<char>)
    ensures
        pop_step(m, key, chosen_pop(m, key), apply(m, StoreCommand::SPop { key })),
{
    if set_of(m, key) != Set::<Seq<char>>::empty() {
        let s = set_of(m, key);
        assert(exists|x: Seq<char>| s.contains(x)) by {
            assert(!(s =~= Set::<Seq<char>>::empty()));
        }
    }
}

/// The data after a sequence of commands, applied in order.
pub open spec fn apply_all(m: StoreModel, cs: Seq<StoreCommand>) -> StoreModel
    decreases cs.len(),
{
    if cs.len() == 0 {
        m
    } else {
        apply(apply_all(m, cs.drop_last()), cs.last())
    }
}

/// A key that holds neither fields nor members.
pub open spec fn gone(m: StoreModel, key: Seq<char>) -> bool {
    hash_of(m, key) == Map::<Seq<char>, Seq<char>>::empty() && set_of(m, key) == Set::<Seq<char>>::empty()
}

/// Applying one command more is one more step.
pub proof fn lemma_apply_all_push(m: StoreModel, cs: Seq<StoreCommand>, c: StoreCommand)
    ensures
        apply_all(m, cs.push(c)) == apply(apply_all(m, cs), c),
{
    assert(cs.push(c).drop_last() =~= cs);
}

/// Applying two plans in a row is applying their concatenation.
pub proof fn lemma_apply_all_concat(m: StoreModel, a: Seq<StoreCommand>, b: Seq<StoreCommand>)
    ensures
        apply_all(m, a + b) == apply_all(apply_all(m, a), b),
    decreases b.len(),
{
    if b.len() == 0 {
        assert(a + b =~= a);
    } else {
        lemma_apply_all_concat(m, a, b.drop_last());
        assert((a + b).drop_last() =~= a + b.drop_last());
        assert((a + b).last() == b.last());
    }
}

/// A key with a part after it is longer, so it is another key.
proof fn lemma_longer_key(root: Seq<char>, parts: Seq<Seq<char>>, p: Seq<char>)
    ensures
        join_key(root, parts.push(p)) != join_key(root, parts),
{
    lemma_join_key_push(root, parts, p);
    assert(join_key(root, parts.push(p)).len() > join_key(root, parts).len());
}

proof fn lemma_group_keys_differ(root: Seq<char>, id: Seq<char>)
    ensures
        group_key(root, id) != templates_key(root, id),
{
    let base = seq![crate::keys::word_condor(), crate::keys::word_job_group(), id];
    assert(base.push(crate::keys::word_templates()) =~= seq![
        crate::keys::word_condor(),
        crate::keys::word_job_group(),
        id,
        crate::keys::word_templates(),
    ]);
    lemma_longer_key(root, base, crate::keys::word_templates());
}

proof fn lemma_job_keys_differ(root: Seq<char>, id: Seq<char>)
    ensures
        job_key(root, id) != params_key(root, id),
{
    let base = seq![crate::keys::word_condor(), crate::keys::word_job(), id];
    assert(base.push(crate::keys::word_params()) =~= seq![
        crate::keys::word_condor(),
        crate::keys::word_job(),
        id,
        crate::keys::word_params(),
    ]);
    lemma_longer_key(root, base, crate::keys::word_params());
}

proof fn lemma_counter_of_decimal(m: StoreModel, key: Seq<char>, field: Seq<char>, n: int)
    requires
        hget(m, key, field) == Some(decimal(n)),
    ensures
        counter_valid(m, key, field),
        counter(m, key, field) == n,
{
    let c = choose|k: int| decimal(k) == decimal(n);
    assert(decimal(c) == decimal(n));
    lemma_decimal_injective(c, n);
}

/// Creating a job group and then reading it gives back what was written:
/// the name, the counter at 1, the template as the current version, and the
/// id among the groups.
pub proof fn law_created_group_reads_back(
    m: StoreModel,
    root: Seq<char>,
    id: Seq<char>,
    name: Seq<char>,
    template: Seq<char>,
)
    ensures
        ({
            let m1 = apply_all(m, create_job_group_plan(root, id, name, template));
            &&& hget(m1, group_key(root, id), field_name()) == Some(name)
            &&& counter_valid(m1, group_key(root, id), field_template_count())
            &&& counter(m1, group_key(root, id), field_template_count()) == 1
            &&& reply_of(m1, group_header_command(root, id)) == Some(
                Reply::Fields(seq![Some(name), Some(decimal(1))]),
            )
            &&& reply_of(m1, template_read_command(root, id, 1)) == Some(Reply::Field(Some(template)))
            &&& reply_of(m1, StoreCommand::SMembers { key: groups_key(root) }) matches Some(Reply::Members(ids))
                && ids.contains(id)
        }),
{
    let plan = create_job_group_plan(root, id, name, template);
    let g = group_key(root, id);
    let t = templates_key(root, id);
    lemma_group_keys_differ(root, id);
    assert(field_name() != field_template_count()) by {
        assert(field_name().len() != field_template_count().len());
    }
    let m0 = apply_all(m, plan.take(0));
    let m1 = apply_all(m, plan.take(1));
    let m2 = apply_all(m, plan.take(2));
    let m3 = apply_all(m, plan.take(3));
    let m4 = apply_all(m, plan.take(4));
    assert(plan.take(0) =~= seq![]);
    assert(plan.take(1) =~= plan.take(0).push(plan[0]));
    assert(plan.take(2) =~= plan.take(1).push(plan[1]));
    assert(plan.take(3) =~= plan.take(2).push(plan[2]));
    assert(plan.take(4) =~= plan.take(3).push(plan[3]));
    assert(plan.take(4) =~= plan);
    lemma_apply_all_push(m, plan.take(0), plan[0]);
    lemma_apply_all_push(m, plan.take(1), plan[1]);
    lemma_apply_all_push(m, plan.take(2), plan[2]);
    lemma_apply_all_push(m, plan.take(3), plan[3]);
    assert(hget(m4, g, field_name()) == Some(name));
    assert(hget(m4, g, field_template_count()) == Some(decimal(1)));
    lemma_counter_of_decimal(m4, g, field_template_count(), 1);
    assert(hget(m4, t, decimal(1)) == Some(template));
    assert(set_of(m4, groups_key(root)).contains(id));
    assert(seq![field_name(), field_template_count()].map_values(|f: Seq<char>| hget(m4, g, f)) =~= seq![
        Some(name),
        Some(decimal(1)),
    ]);
}

/// Updating a job group's template adds one to its counter and stores the
/// template under the new version, which reads back as the current one; every
/// other version and the group's name stay as they were.
/// The second step writes under the version that the first step's reply gives.
pub proof fn law_update_adds_version(m: StoreModel, root: Seq<char>, id: Seq<char>, template: Seq<char>)
    requires
        counter_valid(m, group_key(root, id), field_template_count()),
    ensures
        ({
            let g = group_key(root, id);
            let t = templates_key(root, id);
            let n = counter(m, g, field_template_count());
            let m1 = apply(m, bump_version_command(root, id));
            let reply = counter(m1, g, field_template_count());
            let m2 = apply(m1, template_write_command(root, id, reply, template));
            &&& reply == n + 1
            &&& counter_valid(m2, g, field_template_count())
            &&& counter(m2, g, field_template_count()) == n + 1
            &&& reply_of(m2, template_read_command(root, id, n + 1)) == Some(Reply::Field(Some(template)))
            &&& reply_of(m2, group_header_command(root, id)) == Some(
                Reply::Fields(seq![hget(m, g, field_name()), Some(decimal(n + 1))]),
            )
            &&& forall|v: int| v != n + 1 ==> #[trigger] hget(m2, t, decimal(v)) == hget(m, t, decimal(v))
            &&& hget(m2, g, field_name()) == hget(m, g, field_name())
        }),
{
    let g = group_key(root, id);
    let t = templates_key(root, id);
    lemma_group_keys_differ(root, id);
    assert(field_name() != field_template_count()) by {
        assert(field_name().len() != field_template_count().len());
    }
    let n = counter(m, g, field_template_count());
    let m1 = apply(m, bump_version_command(root, id));
    assert(hget(m1, g, field_template_count()) == Some(decimal(n + 1)));
    lemma_counter_of_decimal(m1, g, field_template_count(), n + 1);
    let m2 = apply(m1, template_write_command(root, id, n + 1, template));
    assert(hget(m2, g, field_template_count()) == Some(decimal(n + 1)));
    lemma_counter_of_decimal(m2, g, field_template_count(), n + 1);
    assert(seq![field_name(), field_template_count()].map_values(|f: Seq<char>| hget(m2, g, f)) =~= seq![
        hget(m, g, field_name()),
        Some(decimal(n + 1)),
    ]);
    assert forall|v: int| v != n + 1 implies #[trigger] hget(m2, t, decimal(v)) == hget(m, t, decimal(v)) by {
        if decimal(v) == decimal(n + 1) {
            lemma_decimal_injective(v, n + 1);
        }
    }
}

proof fn lemma_gone_after_del(m: StoreModel, key: Seq<char>)
    ensures
        gone(apply(m, StoreCommand::Del { key }), key),
{
    let m1 = apply(m, StoreCommand::Del { key });
    assert(hash_of(m1, key) =~= Map::<Seq<char>, Seq<char>>::empty());
    assert(set_of(m1, key) =~= Set::<Seq<char>>::empty());
}

/// A key that holds nothing still holds nothing after deletions and removals
/// of set members.
proof fn lemma_gone_stays_gone(m: StoreModel, key: Seq<char>, c: StoreCommand)
    requires
        gone(m, key),
        c is Del || c is SRem,
    ensures
        gone(apply(m, c), key),
{
    let m1 = apply(m, c);
    match c {
        StoreCommand::Del { key: k } => {
            assert(hash_of(m1, key) =~= Map::<Seq<char>, Seq<char>>::empty());
            assert(set_of(m1, key) =~= Set::<Seq<char>>::empty());
        },
        StoreCommand::SRem { key: k, member } => {
            assert(hash_of(m1, key) =~= Map::<Seq<char>, Seq<char>>::empty());
            assert(set_of(m1, key) =~= Set::<Seq<char>>::empty());
        },
        _ => {},
    }
}

proof fn lemma_job_deletions_remove_jobs(m: StoreModel, root: Seq<char>, job_ids: Seq<Seq<char>>)
    ensures
        forall|j: int| 0 <= j < job_ids.len() ==> {
            &&& gone(apply_all(m, job_deletions(root, job_ids)), job_key(root, #[trigger] job_ids[j]))
            &&& gone(apply_all(m, job_deletions(root, job_ids)), params_key(root, job_ids[j]))
        },
    decreases job_ids.len(),
{
    if job_ids.len() > 0 {
        let init = job_ids.drop_last();
        let last = job_ids.last();
        lemma_job_deletions_remove_jobs(m, root, init);
        let a = job_deletions(root, init);
        let dk = StoreCommand::Del { key: job_key(root, last) };
        let dp = StoreCommand::Del { key: params_key(root, last) };
        let b = seq![dk, dp];
        let ma = apply_all(m, a);
        lemma_apply_all_concat(m, a, b);
        assert(b =~= seq![dk].push(dp));
        assert(seq![dk] =~= Seq::<StoreCommand>::empty().push(dk));
        lemma_apply_all_push(ma, Seq::<StoreCommand>::empty(), dk);
        lemma_apply_all_push(ma, seq![dk], dp);
        let mk = apply(ma, dk);
        let mb = apply(mk, dp);
        assert(apply_all(ma, b) == mb);
        lemma_gone_after_del(ma, job_key(root, last));
        lemma_gone_stays_gone(mk, job_key(root, last), dp);
        lemma_gone_after_del(mk, params_key(root, last));
        assert forall|j: int| 0 <= j < job_ids.len() implies {
            &&& gone(mb, job_key(root, #[trigger] job_ids[j]))
            &&& gone(mb, params_key(root, job_ids[j]))
        } by {
            if j < init.len() {
                assert(init[j] == job_ids[j]);
                lemma_gone_stays_gone(ma, job_key(root, job_ids[j]), dk);
                lemma_gone_stays_gone(mk, job_key(root, job_ids[j]), dp);
                lemma_gone_stays_gone(ma, params_key(root, job_ids[j]), dk);
                lemma_gone_stays_gone(mk, params_key(root, job_ids[j]), dp);
            }
        }
    }
}

/// Deleting a job group leaves nothing of it: its hash, templates and job set
/// hold nothing, its id is not among the groups, and each job that was listed
/// in it holds nothing either.
pub proof fn law_deleted_group_is_gone(m: StoreModel, root: Seq<char>, id: Seq<char>, job_ids: Seq<Seq<char>>)
    ensures
        ({
            let m1 = apply_all(m, delete_job_group_plan(root, id, job_ids));
            &&& gone(m1, group_key(root, id))
            &&& gone(m1, templates_key(root, id))
            &&& gone(m1, group_jobs_key(root, id))
            &&& !set_of(m1, groups_key(root)).contains(id)
            &&& reply_of(m1, group_header_command(root, id)) == Some(Reply::Fields(seq![None::<Seq<char>>, None]))
            &&& forall|v: int| #[trigger] reply_of(m1, template_read_command(root, id, v)) == Some(Reply::Field(None))
            &&& reply_of(m1, StoreCommand::SMembers { key: groups_key(root) }) matches Some(Reply::Members(ids))
                && !ids.contains(id)
            &&& reply_of(m1, StoreCommand::SMembers { key: group_jobs_key(root, id) }) == Some(
                Reply::Members(Set::<Seq<char>>::empty()),
            )
            &&& forall|j: int| 0 <= j < job_ids.len() ==> {
                &&& gone(m1, job_key(root, #[trigger] job_ids[j]))
                &&& gone(m1, params_key(root, job_ids[j]))
            }
        }),
{
    let a = job_deletions(root, job_ids);
    let c1 = StoreCommand::Del { key: group_key(root, id) };
    let c2 = StoreCommand::Del { key: templates_key(root, id) };
    let c3 = StoreCommand::Del { key: group_jobs_key(root, id) };
    let c4 = StoreCommand::SRem { key: groups_key(root), member: id };
    let tail = seq![c1, c2, c3, c4];
    assert(delete_job_group_plan(root, id, job_ids) == a + tail);
    lemma_apply_all_concat(m, a, tail);
    let ma = apply_all(m, a);
    lemma_job_deletions_remove_jobs(m, root, job_ids);
    assert(tail.take(0) =~= seq![]);
    assert(tail.take(1) =~= tail.take(0).push(c1));
    assert(tail.take(2) =~= tail.take(1).push(c2));
    assert(tail.take(3) =~= tail.take(2).push(c3));
    assert(tail.take(4) =~= tail.take(3).push(c4));
    assert(tail.take(4) =~= tail);
    lemma_apply_all_push(ma, tail.take(0), c1);
    lemma_apply_all_push(ma, tail.take(1), c2);
    lemma_apply_all_push(ma, tail.take(2), c3);
    lemma_apply_all_push(ma, tail.take(3), c4);
    let m1 = apply(ma, c1);
    let m2 = apply(m1, c2);
    let m3 = apply(m2, c3);
    let m4 = apply(m3, c4);
    assert(apply_all(ma, tail) == m4);
    lemma_gone_after_del(ma, group_key(root, id));
    lemma_gone_stays_gone(m1, group_key(root, id), c2);
    lemma_gone_stays_gone(m2, group_key(root, id), c3);
    lemma_gone_stays_gone(m3, group_key(root, id), c4);
    lemma_gone_after_del(m1, templates_key(root, id));
    lemma_gone_stays_gone(m2, templates_key(root, id), c3);
    lemma_gone_stays_gone(m3, templates_key(root, id), c4);
    lemma_gone_after_del(m2, group_jobs_key(root, id));
    lemma_gone_stays_gone(m3, group_jobs_key(root, id), c4);
    assert(!set_of(m4, groups_key(root)).contains(id));
    assert(seq![field_name(), field_template_count()].map_values(
        |f: Seq<char>| hget(m4, group_key(root, id), f),
    ) =~= seq![None::<Seq<char>>, None]);
    assert forall|j: int| 0 <= j < job_ids.len() implies {
        &&& gone(m4, job_key(root, #[trigger] job_ids[j]))
        &&& gone(m4, params_key(root, job_ids[j]))
    } by {
        let k = job_key(root, job_ids[j]);
        let p = params_key(root, job_ids[j]);
        lemma_gone_stays_gone(ma, k, c1);
        lemma_gone_stays_gone(m1, k, c2);
        lemma_gone_stays_gone(m2, k, c3);
        lemma_gone_stays_gone(m3, k, c4);
        lemma_gone_stays_gone(ma, p, c1);
        lemma_gone_stays_gone(m1, p, c2);
        lemma_gone_stays_gone(m2, p, c3);
        lemma_gone_stays_gone(m3, p, c4);
    }
}

/// Parameter names that occur once each, as in a map.
pub open spec fn distinct_names(params: Seq<(Seq<char>, Seq<char>)>) -> bool {
    forall|i: int, j: int| 0 <= i < j < params.len() ==> #[trigger] params[i].0 != #[trigger] params[j].0
}

proof fn lemma_param_writes(m: StoreModel, root: Seq<char>, id: Seq<char>, params: Seq<(Seq<char>, Seq<char>)>)
    requires
        distinct_names(params),
    ensures
        ({
            let m1 = apply_all(m, param_writes(root, id, params));
            &&& m1.sets == m.sets
            &&& forall|k: Seq<char>| k != params_key(root, id) ==> #[trigger] hash_of(m1, k) == hash_of(m, k)
            &&& forall|i: int| 0 <= i < params.len() ==> hget(m1, params_key(root, id), #[trigger] params[i].0) == Some(params[i].1)
        }),
    decreases params.len(),
{
    if params.len() == 0 {
        assert(param_writes(root, id, params) =~= seq![]);
    } else {
        let init = params.drop_last();
        let last = params.last();
        assert(distinct_names(init)) by {
            assert forall|i: int, j: int| 0 <= i < j < init.len() implies #[trigger] init[i].0 != #[trigger] init[j].0 by {
                assert(init[i] == params[i]);
                assert(init[j] == params[j]);
            }
        }
        lemma_param_writes(m, root, id, init);
        let c = StoreCommand::HSet { key: params_key(root, id), field: last.0, value: last.1 };
        lemma_apply_all_push(m, param_writes(root, id, init), c);
        let m0 = apply_all(m, param_writes(root, id, init));
        let m1 = apply(m0, c);
        assert(apply_all(m, param_writes(root, id, params)) == m1);
        assert(m1.sets == m.sets);
        assert forall|k: Seq<char>| k != params_key(root, id) implies #[trigger] hash_of(m1, k) == hash_of(m, k) by {
            assert(hash_of(m0, k) == hash_of(m, k));
        }
        assert forall|i: int| 0 <= i < params.len() implies hget(m1, params_key(root, id), #[trigger] params[i].0) == Some(params[i].1) by {
            if i < init.len() {
                assert(init[i] == params[i]);
                assert(params[i].0 != params[params.len() - 1].0);
            }
        }
    }
}

/// Creating a job and then reading it gives back what was written: its name,
/// group, status `Created`, template version and each of its parameters; and
/// its id is among the jobs of its group.
pub proof fn law_created_job_reads_back(
    m: StoreModel,
    root: Seq<char>,
    id: Seq<char>,
    group_id: Seq<char>,
    name: Seq<char>,
    template_version: int,
    params: Seq<(Seq<char>, Seq<char>)>,
)
    requires
        distinct_names(params),
    ensures
        ({
            let m1 = apply_all(m, create_job_plan(root, id, group_id, name, template_version, params));
            let k = job_key(root, id);
            &&& hget(m1, k, field_name()) == Some(name)
            &&& hget(m1, k, field_group_id()) == Some(group_id)
            &&& hget(m1, k, field_status()) == Some(status_created())
            &&& hget(m1, k, field_template_version()) == Some(decimal(template_version))
            &&& reply_of(m1, job_header_command(root, id)) == Some(
                Reply::Fields(seq![Some(name), Some(group_id), Some(status_created()), Some(decimal(template_version))]),
            )
            &&& reply_of(m1, job_summary_command(root, id)) == Some(
                Reply::Fields(seq![Some(name), Some(status_created()), Some(decimal(template_version))]),
            )
            &&& reply_of(m1, StoreCommand::HGetAll { key: params_key(root, id) }) matches Some(Reply::Hash(h))
                && forall|i: int| 0 <= i < params.len() ==> h.dom().contains(#[trigger] params[i].0) && h[params[i].0] == params[i].1
            &&& reply_of(m1, StoreCommand::SMembers { key: group_jobs_key(root, group_id) }) matches Some(Reply::Members(ids))
                && ids.contains(id)
        }),
{
    let k = job_key(root, id);
    let pk = params_key(root, id);
    lemma_job_keys_differ(root, id);
    assert(field_name() != field_group_id() && field_name() != field_status() && field_name() != field_template_version()) by {
        assert(field_name().len() != field_group_id().len());
        assert(field_name().len() != field_status().len());
        assert(field_name().len() != field_template_version().len());
    }
    assert(field_group_id() != field_status() && field_group_id() != field_template_version()) by {
        assert(field_group_id().len() != field_status().len());
        assert(field_group_id().len() != field_template_version().len());
    }
    assert(field_status() != field_template_version()) by {
        assert(field_status().len() != field_template_version().len());
    }
    let h1 = StoreCommand::HSet { key: k, field: field_name(), value: name };
    let h2 = StoreCommand::HSet { key: k, field: field_group_id(), value: group_id };
    let h3 = StoreCommand::HSet { key: k, field: field_status(), value: status_created() };
    let h4 = StoreCommand::HSet { key: k, field: field_template_version(), value: decimal(template_version) };
    let head = seq![h1, h2, h3, h4];
    let pw = param_writes(root, id, params);
    let add = StoreCommand::SAdd { key: group_jobs_key(root, group_id), member: id };
    let plan = create_job_plan(root, id, group_id, name, template_version, params);
    assert(plan == (head + pw).push(add));
    lemma_apply_all_push(m, head + pw, add);
    lemma_apply_all_concat(m, head, pw);
    assert(head.take(0) =~= seq![]);
    assert(head.take(1) =~= head.take(0).push(h1));
    assert(head.take(2) =~= head.take(1).push(h2));
    assert(head.take(3) =~= head.take(2).push(h3));
    assert(head.take(4) =~= head.take(3).push(h4));
    assert(head.take(4) =~= head);
    lemma_apply_all_push(m, head.take(0), h1);
    lemma_apply_all_push(m, head.take(1), h2);
    lemma_apply_all_push(m, head.take(2), h3);
    lemma_apply_all_push(m, head.take(3), h4);
    let mh = apply_all(m, head);
    assert(hget(mh, k, field_name()) == Some(name));
    assert(hget(mh, k, field_group_id()) == Some(group_id));
    assert(hget(mh, k, field_status()) == Some(status_created()));
    assert(hget(mh, k, field_template_version()) == Some(decimal(template_version)));
    lemma_param_writes(mh, root, id, params);
    let mp = apply_all(mh, pw);
    assert(hash_of(mp, k) == hash_of(mh, k));
    let m1 = apply(mp, add);
    assert(hash_of(m1, k) == hash_of(mp, k));
    assert(hash_of(m1, pk) == hash_of(mp, pk));
    assert(set_of(m1, group_jobs_key(root, group_id)).contains(id));
    assert(seq![field_name(), field_group_id(), field_status(), field_template_version()].map_values(
        |f: Seq<char>| hget(m1, k, f),
    ) =~= seq![Some(name), Some(group_id), Some(status_created()), Some(decimal(template_version))]);
    assert(seq![field_name(), field_status(), field_template_version()].map_values(
        |f: Seq<char>| hget(m1, k, f),
    ) =~= seq![Some(name), Some(status_created()), Some(decimal(template_version))]);
    assert forall|i: int| 0 <= i < params.len() implies hash_of(m1, pk).dom().contains(#[trigger] params[i].0)
        && hash_of(m1, pk)[params[i].0] == params[i].1 by {
        assert(hget(m1, pk, params[i].0) == Some(params[i].1));
    }
}

/// Deleting a job of a group leaves nothing of it: its hash and parameters
/// hold nothing and its id is not among its group's jobs. A job without a
/// group is left as it is.
pub proof fn law_deleted_job_is_gone(m: StoreModel, root: Seq<char>, id: Seq<char>, group_id: Option<Seq<char>>)
    ensures
        ({
            let m1 = apply_all(m, delete_job_plan(root, id, group_id));
            match group_id {
                Some(g) => {
                    &&& gone(m1, job_key(root, id))
                    &&& gone(m1, params_key(root, id))
                    &&& !set_of(m1, group_jobs_key(root, g)).contains(id)
                    &&& reply_of(m1, job_header_command(root, id)) == Some(
                        Reply::Fields(seq![None::<Seq<char>>, None, None, None]),
                    )
                    &&& reply_of(m1, StoreCommand::HGetAll { key: params_key(root, id) }) == Some(
                        Reply::Hash(Map::<Seq<char>, Seq<char>>::empty()),
                    )
                },
                None => m1 == m,
            }
        }),
{
    match group_id {
        Some(g) => {
            let plan = delete_job_plan(root, id, group_id);
            let c1 = StoreCommand::Del { key: job_key(root, id) };
            let c2 = StoreCommand::Del { key: params_key(root, id) };
            let c3 = StoreCommand::SRem { key: group_jobs_key(root, g), member: id };
            assert(plan.take(0) =~= seq![]);
            assert(plan.take(1) =~= plan.take(0).push(c1));
            assert(plan.take(2) =~= plan.take(1).push(c2));
            assert(plan.take(3) =~= plan.take(2).push(c3));
            assert(plan.take(3) =~= plan);
            lemma_apply_all_push(m, plan.take(0), c1);
            lemma_apply_all_push(m, plan.take(1), c2);
            lemma_apply_all_push(m, plan.take(2), c3);
            let m1 = apply(m, c1);
            let m2 = apply(m1, c2);
            let m3 = apply(m2, c3);
            lemma_gone_after_del(m, job_key(root, id));
            lemma_gone_stays_gone(m1, job_key(root, id), c2);
            lemma_gone_stays_gone(m2, job_key(root, id), c3);
            lemma_gone_after_del(m1, params_key(root, id));
            lemma_gone_stays_gone(m2, params_key(root, id), c3);
            assert(!set_of(m3, group_jobs_key(root, g)).contains(id));
            assert(seq![field_name(), field_group_id(), field_status(), field_template_version()].map_values(
                |f: Seq<char>| hget(m3, job_key(root, id), f),
            ) =~= seq![None::<Seq<char>>, None, None, None]);
        },
        None => {
            assert(delete_job_plan(root, id, group_id) =~= seq![]);
        },
    }
}

/// Deleting a job of a group touches that job alone: the group's job set
/// loses exactly the job's id and keeps every other member, and every other
/// set and every hash but the job's own hash and parameters stay as they were.
pub proof fn law_job_deletion_touches_only_the_job(m: StoreModel, root: Seq<char>, id: Seq<char>, g: Seq<char>)
    ensures
        ({
            let m1 = apply_all(m, delete_job_plan(root, id, Some(g)));
            let jobs = group_jobs_key(root, g);
            &&& set_of(m1, jobs) == set_of(m, jobs).remove(id)
            &&& forall|k: Seq<char>|
                k != job_key(root, id) && k != params_key(root, id) && k != jobs ==> #[trigger] set_of(m1, k) == set_of(m, k)
            &&& forall|k: Seq<char>|
                k != job_key(root, id) && k != params_key(root, id) ==> #[trigger] hash_of(m1, k) == hash_of(m, k)
        }),
{
    let jobs = group_jobs_key(root, g);
    crate::keys::law_keys_do_not_collide(root, g, id);
    let plan = delete_job_plan(root, id, Some(g));
    let c1 = StoreCommand::Del { key: job_key(root, id) };
    let c2 = StoreCommand::Del { key: params_key(root, id) };
    let c3 = StoreCommand::SRem { key: jobs, member: id };
    assert(plan.take(0) =~= seq![]);
    assert(plan.take(1) =~= plan.take(0).push(c1));
    assert(plan.take(2) =~= plan.take(1).push(c2));
    assert(plan.take(3) =~= plan.take(2).push(c3));
    assert(plan.take(3) =~= plan);
    lemma_apply_all_push(m, plan.take(0), c1);
    lemma_apply_all_push(m, plan.take(1), c2);
    lemma_apply_all_push(m, plan.take(2), c3);
    let m1 = apply(m, c1);
    let m2 = apply(m1, c2);
    let m3 = apply(m2, c3);
    assert(set_of(m2, jobs) == set_of(m, jobs));
    assert(set_of(m3, jobs) == set_of(m, jobs).remove(id));
    assert forall|k: Seq<char>|
        k != job_key(root, id) && k != params_key(root, id) && k != jobs implies #[trigger] set_of(m3, k) == set_of(m, k) by {
        assert(set_of(m1, k) == set_of(m, k));
        assert(set_of(m2, k) == set_of(m1, k));
    }
    assert forall|k: Seq<char>|
        k != job_key(root, id) && k != params_key(root, id) implies #[trigger] hash_of(m3, k) == hash_of(m, k) by {
        assert(hash_of(m1, k) == hash_of(m, k));
        assert(hash_of(m2, k) == hash_of(m1, k));
    }
}

/// Writing a job's status changes that field alone: it reads back as written,
/// and the job's other fields stay as they were.
pub proof fn law_status_update_reads_back(m: StoreModel, root: Seq<char>, id: Seq<char>, status: Seq<char>)
    ensures
        ({
            let k = job_key(root, id);
            let m1 = apply(m, StoreCommand::HSet { key: k, field: field_status(), value: status });
            &&& hget(m1, k, field_status()) == Some(status)
            &&& forall|f: Seq<char>| f != field_status() ==> #[trigger] hget(m1, k, f) == hget(m, k, f)
            &&& reply_of(m1, job_summary_command(root, id)) == Some(
                Reply::Fields(seq![hget(m, k, field_name()), Some(status), hget(m, k, field_template_version())]),
            )
        }),
{
    let k = job_key(root, id);
    let m1 = apply(m, StoreCommand::HSet { key: k, field: field_status(), value: status });
    assert(field_name() != field_status()) by {
        assert(field_name().len() != field_status().len());
    }
    assert(field_template_version() != field_status()) by {
        assert(field_template_version().len() != field_status().len());
    }
    assert(seq![field_name(), field_status(), field_template_version()].map_values(|f: Seq<char>| hget(m1, k, f))
        =~= seq![hget(m, k, field_name()), Some(status), hget(m, k, field_template_version())]);
}

/// A pop of a job group's set answers nothing exactly when the set is empty,
/// and otherwise one of its members, which leaves the set; every hash and
/// every other set stay as they were.
pub proof fn law_pop_answers(m: StoreModel, root: Seq<char>, group_id: Seq<char>, reply: Option<Seq<char>>, m2: StoreModel)
    requires
        pop_step(m, group_jobs_key(root, group_id), reply, m2),
    ensures
        ({
            let key = group_jobs_key(root, group_id);
            &&& (reply is None) <==> set_of(m, key) == Set::<Seq<char>>::empty()
            &&& reply matches Some(j) ==> {
                &&& set_of(m, key).contains(j)
                &&& !set_of(m2, key).contains(j)
                &&& set_of(m2, key) == set_of(m, key).remove(j)
            }
            &&& m2.hashes == m.hashes
            &&& forall|k: Seq<char>| k != key ==> #[trigger] set_of(m2, k) == set_of(m, k)
        }),
{
    let key = group_jobs_key(root, group_id);
    if let Some(j) = reply {
        assert(set_of(m, key) != Set::<Seq<char>>::empty()) by {
            assert(set_of(m, key).contains(j));
        }
    }
}

/// The pops of a set that only pops change, from `states[k]` to
/// `states[k + 1]` with answer `replies[k]`.
pub open spec fn pop_run(key: Seq<char>, states: Seq<StoreModel>, replies: Seq<Option<Seq<char>>>) -> bool {
    &&& states.len() == replies.len() + 1
    &&& forall|k: int| 0 <= k < replies.len() ==> pop_step(#[trigger] states[k], key, replies[k], states[k + 1])
}

proof fn lemma_pop_run_prefix(key: Seq<char>, states: Seq<StoreModel>, replies: Seq<Option<Seq<char>>>, n: nat, k: nat)
    requires
        pop_run(key, states, replies),
        set_of(states[0], key).finite(),
        set_of(states[0], key).len() == n,
        k <= n,
        k <= replies.len(),
    ensures
        set_of(states[k as int], key).finite(),
        set_of(states[k as int], key).len() == n - k,
        set_of(states[k as int], key).subset_of(set_of(states[0], key)),
        forall|i: int| 0 <= i < k ==> (#[trigger] replies[i]) is Some,
        forall|i: int| 0 <= i < k ==> set_of(states[0], key).contains((#[trigger] replies[i])->0),
        forall|i: int| 0 <= i < k ==> !set_of(states[k as int], key).contains((#[trigger] replies[i])->0),
        forall|i: int, j: int| 0 <= i < j < k ==> (#[trigger] replies[i])->0 != (#[trigger] replies[j])->0,
        forall|x: Seq<char>| #[trigger] set_of(states[0], key).contains(x) ==>
            set_of(states[k as int], key).contains(x) || exists|i: int| 0 <= i < k && replies[i] == Some(x),
    decreases k,
{
    if k > 0 {
        let p = (k - 1) as nat;
        lemma_pop_run_prefix(key, states, replies, n, p);
        let s = set_of(states[p as int], key);
        assert(pop_step(states[p as int], key, replies[p as int], states[k as int]));
        assert(s.len() > 0);
        if replies[p as int] is None {
            assert(s == Set::<Seq<char>>::empty());
            assert(s.len() == 0);
        }
        let j = replies[p as int]->0;
        assert(s.contains(j));
        let s2 = set_of(states[k as int], key);
        assert(s2 == s.remove(j));
        assert forall|x: Seq<char>| #[trigger] set_of(states[0], key).contains(x) implies
            s2.contains(x) || exists|i: int| 0 <= i < k && replies[i] == Some(x) by {
            if !s2.contains(x) {
                if s.contains(x) {
                    assert(x == j);
                    assert(replies[p as int] == Some(x));
                } else {
                    let i = choose|i: int| 0 <= i < p && replies[i] == Some(x);
                    assert(0 <= i < k && replies[i] == Some(x));
                }
            }
        }
        assert forall|i: int, l: int| 0 <= i < l < k implies (#[trigger] replies[i])->0 != (#[trigger] replies[l])->0 by {
            if l == p {
                assert(!s.contains(replies[i]->0));
            }
        }
    }
}

/// Popping a job group's set of `n` jobs `n + 1` times, with nothing else
/// writing it, hands out each of its jobs exactly once and then answers
/// nothing: the first `n` answers are distinct members that together make up
/// the set, and the last answer is none.
pub proof fn law_pops_hand_out_each_job_once(
    root: Seq<char>,
    group_id: Seq<char>,
    states: Seq<StoreModel>,
    replies: Seq<Option<Seq<char>>>,
    n: nat,
)
    requires
        pop_run(group_jobs_key(root, group_id), states, replies),
        replies.len() == n + 1,
        set_of(states[0], group_jobs_key(root, group_id)).finite(),
        set_of(states[0], group_jobs_key(root, group_id)).len() == n,
    ensures
        ({
            let jobs = set_of(states[0], group_jobs_key(root, group_id));
            &&& forall|i: int| 0 <= i < n ==> (#[trigger] replies[i]) is Some && jobs.contains(replies[i]->0)
            &&& forall|i: int, j: int| 0 <= i < j < n ==> (#[trigger] replies[i])->0 != (#[trigger] replies[j])->0
            &&& forall|x: Seq<char>| #[trigger] jobs.contains(x) ==> exists|i: int| 0 <= i < n && replies[i] == Some(x)
            &&& replies[n as int] is None
        }),
{
    let key = group_jobs_key(root, group_id);
    lemma_pop_run_prefix(key, states, replies, n, n);
    let last = set_of(states[n as int], key);
    assert(last.len() == 0);
    assert(last =~= Set::<Seq<char>>::empty()) by {
        if exists|x: Seq<char>| last.contains(x) {
            let x = choose|x: Seq<char>| last.contains(x);
            assert(last.remove(x).len() == last.len() - 1);
        }
    }
    assert(pop_step(states[n as int], key, replies[n as int], states[n as int + 1]));
}

} // verus!
