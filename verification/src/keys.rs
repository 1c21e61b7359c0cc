//! The key schema of the job store: every key is the configured root followed
//! by `::`-separated parts.

use vstd::prelude::*;
use vstd::string::*;

verus! {

/// The separator placed before each part of a key.
pub open spec fn sep() -> Seq<char> {
    seq![':', ':']
}

pub open spec fn word_condor() -> Seq<char> {
    seq!['c', 'o', 'n', 'd', 'o', 'r']
}

pub open spec fn word_job_group() -> Seq<char> {
    seq!['j', 'o', 'b', '_', 'g', 'r', 'o', 'u', 'p']
}

pub open spec fn word_jobgroups() -> Seq<char> {
    seq!['j', 'o', 'b', 'g', 'r', 'o', 'u', 'p', 's']
}

pub open spec fn word_job() -> Seq<char> {
    seq!['j', 'o', 'b']
}

pub open spec fn word_templates() -> Seq<char> {
    seq!['t', 'e', 'm', 'p', 'l', 'a', 't', 'e', 's']
}

pub open spec fn word_jobs() -> Seq<char> {
    seq!['j', 'o', 'b', 's']
}

pub open spec fn word_params() -> Seq<char> {
    seq!['p', 'a', 'r', 'a', 'm', 's']
}

/// The key made of a root and parts: the root, then `::` and each part in turn.
pub open spec fn join_key(root: Seq<char>, parts: Seq<Seq<char>>) -> Seq<char>
    decreases parts.len(),
{
    if parts.len() == 0 {
        root
    } else {
        join_key(root, parts.drop_last()) + sep() + parts.last()
    }
}

/// The hash that holds a job group's name and template counter.
pub open spec fn group_key(root: Seq<char>, id: Seq<char>) -> Seq<char> {
    join_key(root, seq![word_condor(), word_job_group(), id])
}

/// The hash that holds every template version of a job group.
pub open spec fn templates_key(root: Seq<char>, id: Seq<char>) -> Seq<char> {
    join_key(root, seq![word_condor(), word_job_group(), id, word_templates()])
}

/// The set of the job ids that belong to a job group.
pub open spec fn group_jobs_key(root: Seq<char>, id: Seq<char>) -> Seq<char> {
    join_key(root, seq![word_condor(), word_job_group(), id, word_jobs()])
}

/// The set of all job group ids.
pub open spec fn groups_key(root: Seq<char>) -> Seq<char> {
    join_key(root, seq![word_condor(), word_jobgroups()])
}

/// The hash that holds a job's name, group, status and template version.
pub open spec fn job_key(root: Seq<char>, id: Seq<char>) -> Seq<char> {
    join_key(root, seq![word_condor(), word_job(), id])
}

/// The hash that holds a job's parameters.
pub open spec fn params_key(root: Seq<char>, id: Seq<char>) -> Seq<char> {
    join_key(root, seq![word_condor(), word_job(), id, word_params()])
}

/// Text without a colon, as the ids that the service hands out are.
pub open spec fn no_colon(s: Seq<char>) -> bool {
    forall|i: int| 0 <= i < s.len() ==> #[trigger] s[i] != ':'
}

/// Text in which the separator of key parts, two colons in a row, does not
/// occur.
pub open spec fn no_separator(s: Seq<char>) -> bool {
    forall|i: int| 0 <= i && i + 1 < s.len() ==> !(#[trigger] s[i] == ':' && s[i + 1] == ':')
}

/// The prefix that every key of the store shares.
pub open spec fn namespace(root: Seq<char>) -> Seq<char> {
    root + sep() + word_condor() + sep()
}

/// Adding a part to a key appends the separator and the part.
pub proof fn lemma_join_key_push(root: Seq<char>, parts: Seq<Seq<char>>, p: Seq<char>)
    ensures
        join_key(root, parts.push(p)) == join_key(root, parts) + sep() + p,
{
    assert(parts.push(p).drop_last() =~= parts);
}

proof fn lemma_key_forms(root: Seq<char>, a: Seq<char>)
    ensures
        group_key(root, a) == namespace(root) + (word_job_group() + sep() + a),
        templates_key(root, a) == namespace(root) + (word_job_group() + sep() + a + sep() + word_templates()),
        group_jobs_key(root, a) == namespace(root) + (word_job_group() + sep() + a + sep() + word_jobs()),
        job_key(root, a) == namespace(root) + (word_job() + sep() + a),
        params_key(root, a) == namespace(root) + (word_job() + sep() + a + sep() + word_params()),
        groups_key(root) == namespace(root) + word_jobgroups(),
{
    let c = word_condor();
    let e = Seq::<Seq<char>>::empty();
    lemma_join_key_push(root, e, c);
    assert(e.push(c) =~= seq![c]);
    assert(join_key(root, e) == root);
    lemma_join_key_push(root, seq![c], word_job_group());
    assert(seq![c].push(word_job_group()) =~= seq![c, word_job_group()]);
    lemma_join_key_push(root, seq![c, word_job_group()], a);
    assert(seq![c, word_job_group()].push(a) =~= seq![c, word_job_group(), a]);
    lemma_join_key_push(root, seq![c, word_job_group(), a], word_templates());
    assert(seq![c, word_job_group(), a].push(word_templates()) =~= seq![c, word_job_group(), a, word_templates()]);
    lemma_join_key_push(root, seq![c, word_job_group(), a], word_jobs());
    assert(seq![c, word_job_group(), a].push(word_jobs()) =~= seq![c, word_job_group(), a, word_jobs()]);
    lemma_join_key_push(root, seq![c], word_job());
    assert(seq![c].push(word_job()) =~= seq![c, word_job()]);
    lemma_join_key_push(root, seq![c, word_job()], a);
    assert(seq![c, word_job()].push(a) =~= seq![c, word_job(), a]);
    lemma_join_key_push(root, seq![c, word_job(), a], word_params());
    assert(seq![c, word_job(), a].push(word_params()) =~= seq![c, word_job(), a, word_params()]);
    lemma_join_key_push(root, seq![c], word_jobgroups());
    assert(seq![c].push(word_jobgroups()) =~= seq![c, word_jobgroups()]);
    let n = namespace(root);
    assert(group_key(root, a) =~= n + (word_job_group() + sep() + a));
    assert(templates_key(root, a) =~= n + (word_job_group() + sep() + a + sep() + word_templates()));
    assert(group_jobs_key(root, a) =~= n + (word_job_group() + sep() + a + sep() + word_jobs()));
    assert(job_key(root, a) =~= n + (word_job() + sep() + a));
    assert(params_key(root, a) =~= n + (word_job() + sep() + a + sep() + word_params()));
    assert(groups_key(root) =~= n + word_jobgroups());
}

proof fn lemma_cancel_prefix(p: Seq<char>, x: Seq<char>, y: Seq<char>)
    requires
        p + x == p + y,
    ensures
        x == y,
{
    assert(x =~= (p + x).subrange(p.len() as int, (p + x).len() as int));
    assert(y =~= (p + y).subrange(p.len() as int, (p + y).len() as int));
}

proof fn lemma_kinds_apart(root: Seq<char>, a: Seq<char>, b: Seq<char>)
    ensures
        group_key(root, a) != job_key(root, b),
        group_key(root, a) != params_key(root, b),
        templates_key(root, a) != job_key(root, b),
        templates_key(root, a) != params_key(root, b),
        group_jobs_key(root, a) != job_key(root, b),
        group_jobs_key(root, a) != params_key(root, b),
        groups_key(root) != group_key(root, a),
        groups_key(root) != templates_key(root, a),
        groups_key(root) != group_jobs_key(root, a),
        groups_key(root) != job_key(root, b),
        groups_key(root) != params_key(root, b),
{
    lemma_key_forms(root, a);
    lemma_key_forms(root, b);
    let n = namespace(root);
    let g = word_job_group();
    let j = word_job();
    let s = sep();
    // After the namespace, job group keys carry '_' at 3, job keys ':' and the
    // set of groups 'g'.
    assert forall|x: Seq<char>, z: Seq<char>| (n + (g + x) == n + (j + (s + z))) implies false by {
        lemma_cancel_prefix(n, g + x, j + (s + z));
        assert((g + x)[3] == '_');
        assert((j + (s + z))[3] == ':');
    }
    assert forall|x: Seq<char>| (n + word_jobgroups() == n + (g + x)) implies false by {
        lemma_cancel_prefix(n, word_jobgroups(), g + x);
        assert((g + x)[3] == '_');
    }
    assert forall|z: Seq<char>| (n + word_jobgroups() == n + (j + (s + z))) implies false by {
        lemma_cancel_prefix(n, word_jobgroups(), j + (s + z));
        assert((j + (s + z))[3] == ':');
    }
    assert(job_key(root, b) =~= n + (j + (s + b)));
    assert(params_key(root, b) =~= n + (j + (s + (b + s + word_params()))));
    assert(group_key(root, a) =~= n + (g + (s + a)));
    assert(templates_key(root, a) =~= n + (g + (s + a + s + word_templates())));
    assert(group_jobs_key(root, a) =~= n + (g + (s + a + s + word_jobs())));
}

proof fn lemma_ids_apart(root: Seq<char>, a: Seq<char>, b: Seq<char>)
    ensures
        group_key(root, a) == group_key(root, b) ==> a == b,
        templates_key(root, a) == templates_key(root, b) ==> a == b,
        group_jobs_key(root, a) == group_jobs_key(root, b) ==> a == b,
        job_key(root, a) == job_key(root, b) ==> a == b,
        params_key(root, a) == params_key(root, b) ==> a == b,
{
    lemma_key_forms(root, a);
    lemma_key_forms(root, b);
    let n = namespace(root);
    let s = sep();
    let q = n + word_job_group() + s;
    let r = n + word_job() + s;
    assert(group_key(root, a) =~= q + a);
    assert(group_key(root, b) =~= q + b);
    if group_key(root, a) == group_key(root, b) {
        lemma_cancel_prefix(q, a, b);
    }
    assert(templates_key(root, a) =~= q + a + (s + word_templates()));
    assert(templates_key(root, b) =~= q + b + (s + word_templates()));
    if templates_key(root, a) == templates_key(root, b) {
        assert(a =~= templates_key(root, a).subrange(q.len() as int, (q.len() + a.len()) as int));
        assert(b =~= templates_key(root, b).subrange(q.len() as int, (q.len() + b.len()) as int));
    }
    assert(group_jobs_key(root, a) =~= q + a + (s + word_jobs()));
    assert(group_jobs_key(root, b) =~= q + b + (s + word_jobs()));
    if group_jobs_key(root, a) == group_jobs_key(root, b) {
        assert(a =~= group_jobs_key(root, a).subrange(q.len() as int, (q.len() + a.len()) as int));
        assert(b =~= group_jobs_key(root, b).subrange(q.len() as int, (q.len() + b.len()) as int));
    }
    assert(job_key(root, a) =~= r + a);
    assert(job_key(root, b) =~= r + b);
    if job_key(root, a) == job_key(root, b) {
        lemma_cancel_prefix(r, a, b);
    }
    assert(params_key(root, a) =~= r + a + (s + word_params()));
    assert(params_key(root, b) =~= r + b + (s + word_params()));
    if params_key(root, a) == params_key(root, b) {
        assert(a =~= params_key(root, a).subrange(r.len() as int, (r.len() + a.len()) as int));
        assert(b =~= params_key(root, b).subrange(r.len() as int, (r.len() + b.len()) as int));
    }
}

proof fn lemma_separator_free_apart(root: Seq<char>, a: Seq<char>, b: Seq<char>)
    requires
        no_separator(a),
        no_separator(b),
    ensures
        group_key(root, a) != templates_key(root, b),
        group_key(root, a) != group_jobs_key(root, b),
        templates_key(root, a) != group_jobs_key(root, b),
        job_key(root, a) != params_key(root, b),
{
    lemma_key_forms(root, a);
    lemma_key_forms(root, b);
    let n = namespace(root);
    let s = sep();
    let q = n + word_job_group() + s;
    let r = n + word_job() + s;
    let tt = s + word_templates();
    let tj = s + word_jobs();
    let tp = s + word_params();
    assert(templates_key(root, b) =~= q + (b + tt));
    assert(group_key(root, a) =~= q + a);
    if group_key(root, a) == templates_key(root, b) {
        lemma_cancel_prefix(q, a, b + tt);
        assert(a[b.len() as int] == ':' && a[b.len() + 1int] == ':');
    }
    assert(group_jobs_key(root, b) =~= q + (b + tj));
    if group_key(root, a) == group_jobs_key(root, b) {
        lemma_cancel_prefix(q, a, b + tj);
        assert(a[b.len() as int] == ':' && a[b.len() + 1int] == ':');
    }
    assert(templates_key(root, a) =~= q + (a + tt));
    if templates_key(root, a) == group_jobs_key(root, b) {
        lemma_cancel_prefix(q, a + tt, b + tj);
        assert((a + tt).len() == (b + tj).len());
        assert((a + tt)[a.len() as int] == ':' && (a + tt)[a.len() + 1int] == ':');
        assert(b[a.len() as int] == ':' && b[a.len() + 1int] == ':');
    }
    assert(params_key(root, b) =~= r + (b + tp));
    assert(job_key(root, a) =~= r + a);
    if job_key(root, a) == params_key(root, b) {
        lemma_cancel_prefix(r, a, b + tp);
        assert(a[b.len() as int] == ':' && a[b.len() + 1int] == ':');
    }
}

/// Against the group of an id `b` without the separator, whatever `a` is: the templates and
/// the job set of `a` are not `b`'s hash, and the job set of `a` is never the
/// templates of `b`.
pub proof fn lemma_keys_of_separator_free_group(root: Seq<char>, a: Seq<char>, b: Seq<char>)
    requires
        no_separator(b),
    ensures
        templates_key(root, a) != group_key(root, b),
        group_jobs_key(root, a) != group_key(root, b),
        group_jobs_key(root, a) != templates_key(root, b),
{
    lemma_key_forms(root, a);
    lemma_key_forms(root, b);
    let n = namespace(root);
    let s = sep();
    let q = n + word_job_group() + s;
    let tt = s + word_templates();
    let tj = s + word_jobs();
    assert(group_key(root, b) =~= q + b);
    assert(templates_key(root, a) =~= q + (a + tt));
    assert(group_jobs_key(root, a) =~= q + (a + tj));
    assert(templates_key(root, b) =~= q + (b + tt));
    if templates_key(root, a) == group_key(root, b) {
        lemma_cancel_prefix(q, a + tt, b);
        assert(b[a.len() as int] == ':' && b[a.len() + 1int] == ':');
    }
    if group_jobs_key(root, a) == group_key(root, b) {
        lemma_cancel_prefix(q, a + tj, b);
        assert(b[a.len() as int] == ':' && b[a.len() + 1int] == ':');
    }
    if group_jobs_key(root, a) == templates_key(root, b) {
        lemma_cancel_prefix(q, a + tj, b + tt);
        assert((a + tj).len() == (b + tt).len());
        assert((a + tj)[a.len() as int] == ':');
        assert((b + tt)[a.len() as int] == tt[5]);
    }
}

/// The store's keys do not collide. Keys of job groups, keys of jobs and the
/// set of all groups never share a key, whatever the ids; each kind of key
/// names one id; and for ids in which the separator `::` does not occur, a job
/// group's hash, templates and job set are three different keys, as are a
/// job's hash and parameters.
pub proof fn law_keys_do_not_collide(root: Seq<char>, a: Seq<char>, b: Seq<char>)
    ensures
        group_key(root, a) != job_key(root, b),
        group_key(root, a) != params_key(root, b),
        templates_key(root, a) != job_key(root, b),
        templates_key(root, a) != params_key(root, b),
        group_jobs_key(root, a) != job_key(root, b),
        group_jobs_key(root, a) != params_key(root, b),
        groups_key(root) != group_key(root, a),
        groups_key(root) != templates_key(root, a),
        groups_key(root) != group_jobs_key(root, a),
        groups_key(root) != job_key(root, b),
        groups_key(root) != params_key(root, b),
        group_key(root, a) == group_key(root, b) ==> a == b,
        templates_key(root, a) == templates_key(root, b) ==> a == b,
        group_jobs_key(root, a) == group_jobs_key(root, b) ==> a == b,
        job_key(root, a) == job_key(root, b) ==> a == b,
        params_key(root, a) == params_key(root, b) ==> a == b,
        no_separator(a) && no_separator(b) ==> {
            &&& group_key(root, a) != templates_key(root, b)
            &&& group_key(root, a) != group_jobs_key(root, b)
            &&& templates_key(root, a) != group_jobs_key(root, b)
            &&& job_key(root, a) != params_key(root, b)
        },
{
    lemma_kinds_apart(root, a, b);
    lemma_ids_apart(root, a, b);
    if no_separator(a) && no_separator(b) {
        lemma_separator_free_apart(root, a, b);
    }
}

/// Where the store's keys live: the root that prefixes all of them.
#[derive(Clone)]
pub struct KeySpace {
    pub root: String,
}

impl KeySpace {
    pub fn new(root: &str) -> (ks: KeySpace)
        ensures
            ks.root@ == root@,
    {
        KeySpace { root: root.to_owned() }
    }

    /// The key for `parts` under this root.
    pub fn gen_key(&self, parts: &[&str]) -> (key: String)
        ensures
            key@ == join_key(self.root@, parts@.map_values(|p: &str| p@)),
    {
        let ghost pv = parts@.map_values(|p: &str| p@);
        let mut key = self.root.clone();
        let mut i: usize = 0;
        while i < parts.len()
            invariant
                i <= parts.len(),
                pv == parts@.map_values(|p: &str| p@),
                key@ == join_key(self.root@, pv.take(i as int)),
            decreases parts.len() - i,
        {
            proof { reveal_strlit("::"); }
            key.append("::");
            key.append(parts[i]);
            proof {
                assert(pv.take(i + 1).drop_last() =~= pv.take(i as int));
                assert(pv.take(i + 1).last() == parts@[i as int]@);
            }
            i = i + 1;
        }
        proof {
            assert(pv.take(parts.len() as int) =~= pv);
        }
        key
    }

    /// The hash of a job group.
    pub fn group_key(&self, id: &str) -> (key: String)
        ensures
            key@ == group_key(self.root@, id@),
    {
        proof {
            reveal_strlit("condor");
            reveal_strlit("job_group");
        }
        let parts = ["condor", "job_group", id];
        assert("condor"@ =~= word_condor());
        assert("job_group"@ =~= word_job_group());
        let key = self.gen_key(&parts);
        assert(parts@.map_values(|p: &str| p@) =~= seq![word_condor(), word_job_group(), id@]);
        key
    }

    /// The hash of a job group's template versions.
    pub fn templates_key(&self, id: &str) -> (key: String)
        ensures
            key@ == templates_key(self.root@, id@),
    {
        proof {
            reveal_strlit("condor");
            reveal_strlit("job_group");
            reveal_strlit("templates");
        }
        let parts = ["condor", "job_group", id, "templates"];
        assert("condor"@ =~= word_condor());
        assert("job_group"@ =~= word_job_group());
        assert("templates"@ =~= word_templates());
        let key = self.gen_key(&parts);
        assert(parts@.map_values(|p: &str| p@) =~= seq![word_condor(), word_job_group(), id@, word_templates()]);
        key
    }

    /// The set of a job group's job ids.
    pub fn group_jobs_key(&self, id: &str) -> (key: String)
        ensures
            key@ == group_jobs_key(self.root@, id@),
    {
        proof {
            reveal_strlit("condor");
            reveal_strlit("job_group");
            reveal_strlit("jobs");
        }
        let parts = ["condor", "job_group", id, "jobs"];
        assert("condor"@ =~= word_condor());
        assert("job_group"@ =~= word_job_group());
        assert("jobs"@ =~= word_jobs());
        let key = self.gen_key(&parts);
        assert(parts@.map_values(|p: &str| p@) =~= seq![word_condor(), word_job_group(), id@, word_jobs()]);
        key
    }

    /// The hash of a job.
    pub fn job_key(&self, id: &str) -> (key: String)
        ensures
            key@ == job_key(self.root@, id@),
    {
        proof {
            reveal_strlit("condor");
            reveal_strlit("job");
        }
        let parts = ["condor", "job", id];
        assert("condor"@ =~= word_condor());
        assert("job"@ =~= word_job());
        let key = self.gen_key(&parts);
        assert(parts@.map_values(|p: &str| p@) =~= seq![word_condor(), word_job(), id@]);
        key
    }

    /// The hash of a job's parameters.
    pub fn params_key(&self, id: &str) -> (key: String)
        ensures
            key@ == params_key(self.root@, id@),
    {
        proof {
            reveal_strlit("condor");
            reveal_strlit("job");
            reveal_strlit("params");
        }
        let parts = ["condor", "job", id, "params"];
        assert("condor"@ =~= word_condor());
        assert("job"@ =~= word_job());
        assert("params"@ =~= word_params());
        let key = self.gen_key(&parts);
        assert(parts@.map_values(|p: &str| p@) =~= seq![word_condor(), word_job(), id@, word_params()]);
        key
    }

    /// The set of all job group ids.
    pub fn groups_key(&self) -> (key: String)
        ensures
            key@ == groups_key(self.root@),
    {
        proof {
            reveal_strlit("condor");
            reveal_strlit("jobgroups");
        }
        let parts = ["condor", "jobgroups"];
        assert("condor"@ =~= word_condor());
        assert("jobgroups"@ =~= word_jobgroups());
        let key = self.gen_key(&parts);
        assert(parts@.map_values(|p: &str| p@) =~= seq![word_condor(), word_jobgroups()]);
        key
    }
}

} // verus!
