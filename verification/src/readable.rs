//! What every write of the store keeps: each listed job group can be read,
//! with its name, its template counter and every template version up to it.

use vstd::prelude::*;

use crate::decimal::decimal;
use crate::keys::{
    group_jobs_key, group_key, groups_key, job_key, law_keys_do_not_collide, lemma_keys_of_separator_free_group,
    no_separator, params_key, templates_key,
};
use crate::model::{
    apply, apply_all, counter, counter_valid, hget, hash_of, law_created_group_reads_back, law_update_adds_version,
    lemma_apply_all_concat, lemma_apply_all_push, pop_step, reply_of, set_of, Reply, StoreModel,
};
use crate::store::{
    bump_version_command, create_job_group_plan, create_job_plan, delete_job_group_plan, delete_job_plan,
    field_name, field_status, field_template_count, job_deletions, param_writes, template_read_command,
    template_write_command, StoreCommand,
};

verus! {

/// A job group that reads back whole: an id without the separator `::`, a name, a template
/// counter of at least 1, and a template for every version up to it.
pub open spec fn group_readable(m: StoreModel, root: Seq<char>, id: Seq<char>) -> bool {
    let g = group_key(root, id);
    &&& no_separator(id)
    &&& hget(m, g, field_name()) is Some
    &&& hget(m, g, field_template_count()) is Some
    &&& counter_valid(m, g, field_template_count())
    &&& counter(m, g, field_template_count()) >= 1
    &&& forall|v: int|
        1 <= v <= counter(m, g, field_template_count()) ==> #[trigger] hget(m, templates_key(root, id), decimal(v)) is Some
}

/// Every job group in the set of groups reads back whole.
pub open spec fn store_readable(m: StoreModel, root: Seq<char>) -> bool {
    forall|id: Seq<char>| #[trigger] set_of(m, groups_key(root)).contains(id) ==> group_readable(m, root, id)
}

/// `m2` keeps what makes group `id` readable in `m`: its name stays set, its
/// counter stays as it was, and no template field goes.
pub open spec fn keeps_group(m: StoreModel, m2: StoreModel, root: Seq<char>, id: Seq<char>) -> bool {
    let g = group_key(root, id);
    &&& (hget(m, g, field_name()) is Some ==> hget(m2, g, field_name()) is Some)
    &&& hget(m2, g, field_template_count()) == hget(m, g, field_template_count())
    &&& forall|f: Seq<char>| #[trigger] hget(m, templates_key(root, id), f) is Some ==> hget(m2, templates_key(root, id), f) is Some
}

/// A command that leaves group `id` readable: it neither writes the group's
/// counter nor deletes the group's hash or templates.
pub open spec fn spares(c: StoreCommand, root: Seq<char>, id: Seq<char>) -> bool {
    match c {
        StoreCommand::HSet { key, field, value } => !(key == group_key(root, id) && field == field_template_count()),
        StoreCommand::HIncrBy { key, field, delta } => !(key == group_key(root, id) && field == field_template_count()),
        StoreCommand::Del { key } => key != group_key(root, id) && key != templates_key(root, id),
        _ => true,
    }
}

/// A command of a plan that leaves every readable group readable and adds no
/// group to the set of groups.
pub open spec fn spares_groups(c: StoreCommand, root: Seq<char>) -> bool {
    &&& !(c is SPop)
    &&& !(c matches StoreCommand::SAdd { key, member } && key == groups_key(root))
    &&& forall|id: Seq<char>| no_separator(id) ==> #[trigger] spares(c, root, id)
}

proof fn lemma_keeps_readable(m: StoreModel, m2: StoreModel, root: Seq<char>, id: Seq<char>)
    requires
        group_readable(m, root, id),
        keeps_group(m, m2, root, id),
    ensures
        group_readable(m2, root, id),
{
    let g = group_key(root, id);
    assert(counter(m2, g, field_template_count()) == counter(m, g, field_template_count()));
    assert forall|v: int| 1 <= v <= counter(m2, g, field_template_count()) implies
        #[trigger] hget(m2, templates_key(root, id), decimal(v)) is Some by {
        assert(hget(m, templates_key(root, id), decimal(v)) is Some);
    }
}

proof fn lemma_step_keeps_group(m: StoreModel, c: StoreCommand, root: Seq<char>, id: Seq<char>)
    requires
        spares(c, root, id),
        !(c is SPop),
    ensures
        keeps_group(m, apply(m, c), root, id),
{
    let m2 = apply(m, c);
    let g = group_key(root, id);
    let t = templates_key(root, id);
    assert forall|f: Seq<char>| #[trigger] hget(m, t, f) is Some implies hget(m2, t, f) is Some by {
        match c {
            StoreCommand::Del { key } => {
                assert(hash_of(m2, t) == hash_of(m, t));
            },
            _ => {},
        }
    }
    match c {
        StoreCommand::Del { key } => {
            assert(hash_of(m2, g) == hash_of(m, g));
        },
        _ => {},
    }
}

proof fn lemma_step_keeps_store(m: StoreModel, c: StoreCommand, root: Seq<char>)
    requires
        store_readable(m, root),
        spares_groups(c, root),
    ensures
        store_readable(apply(m, c), root),
{
    let m2 = apply(m, c);
    let s = groups_key(root);
    assert forall|id: Seq<char>| #[trigger] set_of(m2, s).contains(id) implies group_readable(m2, root, id) by {
        assert(set_of(m, s).contains(id)) by {
            match c {
                StoreCommand::SAdd { key, member } => {
                    assert(key != s);
                },
                StoreCommand::SRem { key, member } => {},
                StoreCommand::Del { key } => {},
                _ => {},
            }
        }
        assert(group_readable(m, root, id));
        assert(spares(c, root, id));
        lemma_step_keeps_group(m, c, root, id);
        lemma_keeps_readable(m, m2, root, id);
    }
}

proof fn lemma_plan_keeps_store(m: StoreModel, cs: Seq<StoreCommand>, root: Seq<char>)
    requires
        store_readable(m, root),
        forall|k: int| 0 <= k < cs.len() ==> spares_groups(#[trigger] cs[k], root),
    ensures
        store_readable(apply_all(m, cs), root),
    decreases cs.len(),
{
    if cs.len() > 0 {
        let init = cs.drop_last();
        assert forall|k: int| 0 <= k < init.len() implies spares_groups(#[trigger] init[k], root) by {
            assert(init[k] == cs[k]);
        }
        lemma_plan_keeps_store(m, init, root);
        assert(spares_groups(cs[cs.len() - 1], root));
        lemma_step_keeps_store(apply_all(m, init), cs.last(), root);
    }
}

/// A command on a job's hash or parameters spares every group.
proof fn lemma_job_command_spares(root: Seq<char>, job: Seq<char>, c: StoreCommand)
    requires
        match c {
            StoreCommand::HSet { key, field, value } => key == job_key(root, job) || key == params_key(root, job),
            StoreCommand::Del { key } => key == job_key(root, job) || key == params_key(root, job),
            StoreCommand::SAdd { key, member } => key != groups_key(root),
            StoreCommand::SRem { key, member } => true,
            _ => false,
        },
    ensures
        spares_groups(c, root),
{
    assert forall|id: Seq<char>| no_separator(id) implies #[trigger] spares(c, root, id) by {
        law_keys_do_not_collide(root, id, job);
    }
}

proof fn lemma_job_deletions_spare(root: Seq<char>, job_ids: Seq<Seq<char>>)
    ensures
        forall|k: int| 0 <= k < job_deletions(root, job_ids).len() ==> spares_groups(#[trigger] job_deletions(root, job_ids)[k], root),
    decreases job_ids.len(),
{
    if job_ids.len() > 0 {
        lemma_job_deletions_spare(root, job_ids.drop_last());
        let a = job_deletions(root, job_ids.drop_last());
        let j = job_ids.last();
        let b = seq![
            StoreCommand::Del { key: job_key(root, j) },
            StoreCommand::Del { key: params_key(root, j) },
        ];
        lemma_job_command_spares(root, j, b[0]);
        lemma_job_command_spares(root, j, b[1]);
        assert forall|k: int| 0 <= k < (a + b).len() implies spares_groups(#[trigger] (a + b)[k], root) by {
            if k < a.len() {
                assert((a + b)[k] == a[k]);
            } else {
                assert((a + b)[k] == b[k - a.len()]);
            }
        }
    }
}

proof fn lemma_param_writes_spare(root: Seq<char>, id: Seq<char>, params: Seq<(Seq<char>, Seq<char>)>)
    ensures
        forall|k: int| 0 <= k < param_writes(root, id, params).len() ==> spares_groups(#[trigger] param_writes(root, id, params)[k], root),
    decreases params.len(),
{
    if params.len() > 0 {
        lemma_param_writes_spare(root, id, params.drop_last());
        let a = param_writes(root, id, params.drop_last());
        let c = StoreCommand::HSet { key: params_key(root, id), field: params.last().0, value: params.last().1 };
        lemma_job_command_spares(root, id, c);
        assert forall|k: int| 0 <= k < a.push(c).len() implies spares_groups(#[trigger] a.push(c)[k], root) by {
            if k < a.len() {
                assert(a.push(c)[k] == a[k]);
            }
        }
    }
}

/// The empty store is readable.
pub proof fn law_empty_store_is_readable(root: Seq<char>)
    ensures
        store_readable(StoreModel { hashes: Map::empty(), sets: Map::empty() }, root),
{
}

/// Creating a job group under an id without the separator `::` (the
/// service's fresh ids hold no colon at all) keeps the store readable.
pub proof fn law_create_group_keeps_store_readable(
    m: StoreModel,
    root: Seq<char>,
    id: Seq<char>,
    name: Seq<char>,
    template: Seq<char>,
)
    requires
        store_readable(m, root),
        no_separator(id),
    ensures
        store_readable(apply_all(m, create_job_group_plan(root, id, name, template)), root),
{
    let plan = create_job_group_plan(root, id, name, template);
    let g = group_key(root, id);
    let t = templates_key(root, id);
    let s = groups_key(root);
    assert(plan.take(0) =~= seq![]);
    assert(plan.take(1) =~= plan.take(0).push(plan[0]));
    assert(plan.take(2) =~= plan.take(1).push(plan[1]));
    assert(plan.take(3) =~= plan.take(2).push(plan[2]));
    assert(plan.take(4) =~= plan.take(3).push(plan[3]));
    assert(plan.take(4) =~= plan);
    lemma_apply_all_push(m, plan.take(0), plan[0]);
    lemma_apply_all_push(m, plan.take(1), plan[1]);
    lemma_apply_all_push(m, plan.take(2), plan[2]);
    lemma_apply_all_push(m, plan.take(3), plan[3]);
    let m1 = apply(m, plan[0]);
    let m2 = apply(m1, plan[1]);
    let m3 = apply(m2, plan[2]);
    let m4 = apply(m3, plan[3]);
    assert(apply_all(m, plan) == m4);
    law_created_group_reads_back(m, root, id, name, template);
    assert(field_name() != field_template_count()) by {
        assert(field_name().len() != field_template_count().len());
    }
    assert forall|i: Seq<char>| #[trigger] set_of(m4, s).contains(i) implies group_readable(m4, root, i) by {
        if i == id {
            assert(counter(m4, g, field_template_count()) == 1);
            assert(reply_of(m4, template_read_command(root, id, 1)) == Some(Reply::Field(Some(template))));
            assert forall|v: int| 1 <= v <= counter(m4, g, field_template_count()) implies
                #[trigger] hget(m4, t, decimal(v)) is Some by {
                assert(v == 1);
            }
        } else {
            assert(set_of(m, s).contains(i));
            assert(group_readable(m, root, i));
            law_keys_do_not_collide(root, id, i);
            lemma_keys_of_separator_free_group(root, id, i);
            lemma_step_keeps_group(m, plan[0], root, i);
            lemma_step_keeps_group(m1, plan[1], root, i);
            lemma_step_keeps_group(m2, plan[2], root, i);
            lemma_step_keeps_group(m3, plan[3], root, i);
            lemma_keeps_readable(m, m1, root, i);
            lemma_keeps_readable(m1, m2, root, i);
            lemma_keeps_readable(m2, m3, root, i);
            lemma_keeps_readable(m3, m4, root, i);
        }
    }
}

/// Updating a job group's template, whatever the id, keeps the store
/// readable: the group's new version has its template, and every other group
/// is untouched.
pub proof fn law_update_keeps_store_readable(m: StoreModel, root: Seq<char>, id: Seq<char>, template: Seq<char>)
    requires
        store_readable(m, root),
    ensures
        ({
            let m1 = apply(m, bump_version_command(root, id));
            let reply = counter(m1, group_key(root, id), field_template_count());
            store_readable(apply(m1, template_write_command(root, id, reply, template)), root)
        }),
{
    let g = group_key(root, id);
    let t = templates_key(root, id);
    let s = groups_key(root);
    let b = bump_version_command(root, id);
    let m1 = apply(m, b);
    let reply = counter(m1, g, field_template_count());
    let p = template_write_command(root, id, reply, template);
    let m2 = apply(m1, p);
    assert forall|i: Seq<char>| #[trigger] set_of(m2, s).contains(i) implies group_readable(m2, root, i) by {
        assert(set_of(m, s).contains(i));
        assert(group_readable(m, root, i));
        if i == id {
            law_update_adds_version(m, root, id, template);
            let n = counter(m, g, field_template_count());
            assert(reply == n + 1);
            assert(reply_of(m2, template_read_command(root, id, n + 1)) == Some(Reply::Field(Some(template))));
            assert forall|v: int| 1 <= v <= counter(m2, g, field_template_count()) implies
                #[trigger] hget(m2, t, decimal(v)) is Some by {
                if v != n + 1 {
                    assert(hget(m2, t, decimal(v)) == hget(m, t, decimal(v)));
                    assert(hget(m, t, decimal(v)) is Some);
                }
            }
        } else {
            law_keys_do_not_collide(root, id, i);
            lemma_keys_of_separator_free_group(root, id, i);
            lemma_step_keeps_group(m, b, root, i);
            lemma_step_keeps_group(m1, p, root, i);
            lemma_keeps_readable(m, m1, root, i);
            lemma_keeps_readable(m1, m2, root, i);
        }
    }
}

/// Deleting a job group keeps the store readable, unless the group's hash key
/// is the templates key of another listed group (an id that is a listed id
/// followed by `::templates`), whose templates the deletion would remove.
pub proof fn law_delete_group_keeps_store_readable(m: StoreModel, root: Seq<char>, id: Seq<char>, job_ids: Seq<Seq<char>>)
    requires
        store_readable(m, root),
        forall|i: Seq<char>| #[trigger] set_of(m, groups_key(root)).contains(i) ==> group_key(root, id) != templates_key(root, i),
    ensures
        store_readable(apply_all(m, delete_job_group_plan(root, id, job_ids)), root),
{
    let s = groups_key(root);
    let a = job_deletions(root, job_ids);
    let c1 = StoreCommand::Del { key: group_key(root, id) };
    let c2 = StoreCommand::Del { key: templates_key(root, id) };
    let c3 = StoreCommand::Del { key: group_jobs_key(root, id) };
    let c4 = StoreCommand::SRem { key: s, member: id };
    let tail = seq![c1, c2, c3, c4];
    assert(delete_job_group_plan(root, id, job_ids) == a + tail);
    lemma_apply_all_concat(m, a, tail);
    lemma_job_deletions_spare(root, job_ids);
    lemma_plan_keeps_store(m, a, root);
    let ma = apply_all(m, a);
    assert(tail.take(0) =~= seq![]);
    assert(tail.take(1) =~= tail.take(0).push(c1));
    assert(tail.take(2) =~= tail.take(1).push(c2));
    assert(tail.take(3) =~= tail.take(2).push(c3));
    assert(tail.take(4) =~= tail.take(3).push(c4));
    assert(tail.take(4) =~= tail);
    lemma_apply_all_push(ma, tail.take(0), c1);
    lemma_apply_all_push(ma, tail.take(1), c2);
    lemma_apply_all_push(ma, tail.take(2), c3);
    lemma_apply_all_push(ma, tail.take(3), c4);
    let m1 = apply(ma, c1);
    let m2 = apply(m1, c2);
    let m3 = apply(m2, c3);
    let m4 = apply(m3, c4);
    assert(apply_all(ma, tail) == m4);
    law_keys_do_not_collide(root, id, id);
    // The job deletions leave the set of groups as it was.
    assert(set_of(ma, s) == set_of(m, s)) by {
        lemma_job_deletions_keep_set(m, root, job_ids);
    }
    assert forall|i: Seq<char>| #[trigger] set_of(m4, s).contains(i) implies group_readable(m4, root, i) by {
        assert(i != id);
        assert(set_of(ma, s).contains(i));
        assert(set_of(m, s).contains(i));
        assert(group_readable(ma, root, i));
        law_keys_do_not_collide(root, id, i);
        lemma_keys_of_separator_free_group(root, id, i);
        lemma_step_keeps_group(ma, c1, root, i);
        lemma_step_keeps_group(m1, c2, root, i);
        lemma_step_keeps_group(m2, c3, root, i);
        lemma_step_keeps_group(m3, c4, root, i);
        lemma_keeps_readable(ma, m1, root, i);
        lemma_keeps_readable(m1, m2, root, i);
        lemma_keeps_readable(m2, m3, root, i);
        lemma_keeps_readable(m3, m4, root, i);
    }
}

proof fn lemma_job_deletions_keep_set(m: StoreModel, root: Seq<char>, job_ids: Seq<Seq<char>>)
    ensures
        set_of(apply_all(m, job_deletions(root, job_ids)), groups_key(root)) == set_of(m, groups_key(root)),
    decreases job_ids.len(),
{
    if job_ids.len() > 0 {
        let init = job_ids.drop_last();
        let j = job_ids.last();
        lemma_job_deletions_keep_set(m, root, init);
        let a = job_deletions(root, init);
        let dk = StoreCommand::Del { key: job_key(root, j) };
        let dp = StoreCommand::Del { key: params_key(root, j) };
        let b = seq![dk, dp];
        lemma_apply_all_concat(m, a, b);
        assert(b =~= seq![dk].push(dp));
        assert(seq![dk] =~= Seq::<StoreCommand>::empty().push(dk));
        let ma = apply_all(m, a);
        lemma_apply_all_push(ma, Seq::<StoreCommand>::empty(), dk);
        lemma_apply_all_push(ma, seq![dk], dp);
        law_keys_do_not_collide(root, j, j);
        assert(apply_all(ma, b) == apply(apply(ma, dk), dp));
    }
}

/// Creating a job keeps the store readable.
pub proof fn law_create_job_keeps_store_readable(
    m: StoreModel,
    root: Seq<char>,
    id: Seq<char>,
    group_id: Seq<char>,
    name: Seq<char>,
    template_version: int,
    params: Seq<(Seq<char>, Seq<char>)>,
)
    requires
        store_readable(m, root),
    ensures
        store_readable(apply_all(m, create_job_plan(root, id, group_id, name, template_version, params)), root),
{
    let plan = create_job_plan(root, id, group_id, name, template_version, params);
    let head = seq![
        StoreCommand::HSet { key: job_key(root, id), field: field_name(), value: name },
        StoreCommand::HSet { key: job_key(root, id), field: crate::store::field_group_id(), value: group_id },
        StoreCommand::HSet { key: job_key(root, id), field: field_status(), value: crate::store::status_created() },
        StoreCommand::HSet {
            key: job_key(root, id),
            field: crate::store::field_template_version(),
            value: decimal(template_version),
        },
    ];
    let pw = param_writes(root, id, params);
    let add = StoreCommand::SAdd { key: group_jobs_key(root, group_id), member: id };
    assert(plan == head + pw + seq![add]);
    lemma_param_writes_spare(root, id, params);
    law_keys_do_not_collide(root, group_id, id);
    assert forall|k: int| 0 <= k < plan.len() implies spares_groups(#[trigger] plan[k], root) by {
        if k < head.len() {
            assert(plan[k] == head[k]);
            lemma_job_command_spares(root, id, head[k]);
        } else if k < head.len() + pw.len() {
            assert(plan[k] == pw[k - head.len()]);
        } else {
            assert(plan[k] == add);
            lemma_job_command_spares(root, id, add);
        }
    }
    lemma_plan_keeps_store(m, plan, root);
}

/// Deleting a job keeps the store readable.
pub proof fn law_delete_job_keeps_store_readable(m: StoreModel, root: Seq<char>, id: Seq<char>, group_id: Option<Seq<char>>)
    requires
        store_readable(m, root),
    ensures
        store_readable(apply_all(m, delete_job_plan(root, id, group_id)), root),
{
    let plan = delete_job_plan(root, id, group_id);
    assert forall|k: int| 0 <= k < plan.len() implies spares_groups(#[trigger] plan[k], root) by {
        lemma_job_command_spares(root, id, plan[k]);
    }
    lemma_plan_keeps_store(m, plan, root);
}

/// Writing a job's status keeps the store readable.
pub proof fn law_status_update_keeps_store_readable(m: StoreModel, root: Seq<char>, id: Seq<char>, status: Seq<char>)
    requires
        store_readable(m, root),
    ensures
        store_readable(apply(m, StoreCommand::HSet { key: job_key(root, id), field: field_status(), value: status }), root),
{
    let c = StoreCommand::HSet { key: job_key(root, id), field: field_status(), value: status };
    lemma_job_command_spares(root, id, c);
    lemma_step_keeps_store(m, c, root);
}

/// Popping a job group's set keeps the store readable, whatever member the
/// server picks.
pub proof fn law_pop_keeps_store_readable(
    m: StoreModel,
    root: Seq<char>,
    group_id: Seq<char>,
    reply: Option<Seq<char>>,
    m2: StoreModel,
)
    requires
        store_readable(m, root),
        pop_step(m, group_jobs_key(root, group_id), reply, m2),
    ensures
        store_readable(m2, root),
{
    let s = groups_key(root);
    law_keys_do_not_collide(root, group_id, group_id);
    assert(set_of(m2, s) == set_of(m, s));
    assert forall|i: Seq<char>| #[trigger] set_of(m2, s).contains(i) implies group_readable(m2, root, i) by {
        assert(group_readable(m, root, i));
        assert(keeps_group(m, m2, root, i)) by {
            assert(hash_of(m2, group_key(root, i)) == hash_of(m, group_key(root, i)));
            assert(hash_of(m2, templates_key(root, i)) == hash_of(m, templates_key(root, i)));
        }
        lemma_keeps_readable(m, m2, root, i);
    }
}

} // verus!
