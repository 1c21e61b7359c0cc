use std::collections::{HashMap, HashSet};

use condor::keys::KeySpace;
use condor::service::new_job_group;
use condor::store::{JobStore, RedisCommand};

/// A small in-memory server with the hash and set semantics the store relies on.
#[derive(Default, Clone, PartialEq, Debug)]
struct Memory {
    hashes: HashMap<String, HashMap<String, String>>,
    sets: HashMap<String, HashSet<String>>,
}

impl Memory {
    fn apply(&mut self, c: &RedisCommand) {
        match c {
            RedisCommand::HSet { key, field, value } => {
                self.hashes.entry(key.clone()).or_default().insert(field.clone(), value.clone());
            }
            RedisCommand::HIncrBy { key, field, delta } => {
                let h = self.hashes.entry(key.clone()).or_default();
                let cur: i64 = h.get(field).map(|v| v.parse().unwrap()).unwrap_or(0);
                h.insert(field.clone(), (cur + delta).to_string());
            }
            RedisCommand::SAdd { key, member } => {
                self.sets.entry(key.clone()).or_default().insert(member.clone());
            }
            RedisCommand::SRem { key, member } => {
                if let Some(s) = self.sets.get_mut(key) {
                    s.remove(member);
                }
            }
            RedisCommand::Del { key } => {
                self.hashes.remove(key);
                self.sets.remove(key);
            }
            _ => {}
        }
    }

    /// A pop that takes the smallest member, one of the picks the server may make.
    fn pop(&mut self, c: &RedisCommand) -> Option<String> {
        match c {
            RedisCommand::SPop { key } => {
                let set = self.sets.entry(key.clone()).or_default();
                let pick = set.iter().min().cloned();
                if let Some(j) = &pick {
                    set.remove(j);
                }
                pick
            }
            _ => panic!("not a pop"),
        }
    }

    /// Every listed group has an id without the separator, a name, a counter
    /// of at least 1 and a template for every version up to it.
    fn readable(&self, root: &str) -> bool {
        let ks = KeySpace::new(root);
        self.sets.get(&ks.groups_key()).map_or(true, |ids| {
            ids.iter().all(|id| {
                let g = ks.group_key(id);
                let count: Option<i32> = self.field(&g, "template_count").and_then(|c| c.parse().ok());
                !id.contains("::")
                    && self.field(&g, "name").is_some()
                    && count.is_some_and(|c| {
                        c >= 1 && (1..=c).all(|v| self.field(&ks.templates_key(id), &v.to_string()).is_some())
                    })
            })
        })
    }

    fn apply_all(&mut self, cs: &[RedisCommand]) {
        for c in cs {
            self.apply(c);
        }
    }

    fn hget(&self, c: &RedisCommand) -> Option<String> {
        match c {
            RedisCommand::HGet { key, field } => self.hashes.get(key).and_then(|h| h.get(field).cloned()),
            _ => panic!("not a field read"),
        }
    }

    fn field(&self, key: &str, field: &str) -> Option<String> {
        self.hashes.get(key).and_then(|h| h.get(field).cloned())
    }

    fn holds(&self, key: &str) -> bool {
        self.hashes.get(key).is_some_and(|h| !h.is_empty()) || self.sets.get(key).is_some_and(|s| !s.is_empty())
    }
}

#[test]
fn law_created_group_reads_back() {
    let store = JobStore::new("r");
    let mut m = Memory::default();
    m.apply_all(&store.create_job_group("g1", "build", "tpl-1"));
    assert_eq!(m.field("r::condor::job_group::g1", "name"), Some("build".to_string()));
    let count: i32 = m.field("r::condor::job_group::g1", "template_count").unwrap().parse().unwrap();
    assert_eq!(count, 1);
    let read = store.job_group_template("g1", "build", count).unwrap();
    assert_eq!(m.hget(&read), Some("tpl-1".to_string()));
    assert!(m.sets["r::condor::jobgroups"].contains("g1"));
}

#[test]
fn law_update_adds_version() {
    let store = JobStore::new("r");
    let mut m = Memory::default();
    m.apply_all(&store.create_job_group("g1", "build", "v1"));
    for (i, t) in ["v2", "v3"].iter().enumerate() {
        m.apply(&store.bump_template_count("g1"));
        let reply: i32 = m.field("r::condor::job_group::g1", "template_count").unwrap().parse().unwrap();
        assert_eq!(reply, i as i32 + 2);
        m.apply(&store.put_template("g1", reply, t));
        assert_eq!(m.hget(&store.job_group_template("g1", "build", reply).unwrap()), Some(t.to_string()));
    }
    assert_eq!(m.hget(&store.group_template("g1", 1)), Some("v1".to_string()));
    assert_eq!(m.hget(&store.group_template("g1", 2)), Some("v2".to_string()));
    assert_eq!(m.hget(&store.group_template("g1", 3)), Some("v3".to_string()));
    assert_eq!(m.hget(&store.group_template("g1", 4)), None);
    assert_eq!(m.field("r::condor::job_group::g1", "name"), Some("build".to_string()));
}

#[test]
fn law_created_job_reads_back() {
    let store = JobStore::new("r");
    let mut m = Memory::default();
    let params = vec![("a".to_string(), "1".to_string()), ("b".to_string(), "2".to_string())];
    m.apply_all(&store.create_job("j1", "g1", "run", 5, &params));
    let k = "r::condor::job::j1";
    assert_eq!(m.field(k, "name"), Some("run".to_string()));
    assert_eq!(m.field(k, "group_id"), Some("g1".to_string()));
    assert_eq!(m.field(k, "status"), Some("Created".to_string()));
    assert_eq!(m.field(k, "template_version"), Some("5".to_string()));
    assert_eq!(m.field("r::condor::job::j1::params", "a"), Some("1".to_string()));
    assert_eq!(m.field("r::condor::job::j1::params", "b"), Some("2".to_string()));
    assert!(m.sets["r::condor::job_group::g1::jobs"].contains("j1"));
}

#[test]
fn law_deleted_group_is_gone() {
    let store = JobStore::new("r");
    let mut m = Memory::default();
    m.apply_all(&store.create_job_group("g1", "build", "v1"));
    m.apply_all(&store.create_job_group("g2", "other", "w1"));
    m.apply_all(&store.create_job("j1", "g1", "a", 1, &vec![("p".to_string(), "q".to_string())]));
    m.apply_all(&store.create_job("j2", "g1", "b", 1, &vec![]));
    let job_ids = vec!["j1".to_string(), "j2".to_string()];
    m.apply_all(&store.delete_job_group("g1", &job_ids));
    for key in [
        "r::condor::job_group::g1",
        "r::condor::job_group::g1::templates",
        "r::condor::job_group::g1::jobs",
        "r::condor::job::j1",
        "r::condor::job::j1::params",
        "r::condor::job::j2",
    ] {
        assert!(!m.holds(key), "{key} still holds data");
    }
    assert!(!m.sets["r::condor::jobgroups"].contains("g1"));
    assert!(m.sets["r::condor::jobgroups"].contains("g2"));
    assert_eq!(m.field("r::condor::job_group::g2", "name"), Some("other".to_string()));
}

#[test]
fn law_deleted_job_is_gone() {
    let store = JobStore::new("r");
    let mut m = Memory::default();
    m.apply_all(&store.create_job("j1", "g1", "a", 1, &vec![("p".to_string(), "q".to_string())]));
    let before = m.clone();
    m.apply_all(&store.delete_job("j1", &None));
    assert_eq!(m, before);
    m.apply_all(&store.delete_job("j1", &Some("g1".to_string())));
    assert!(!m.holds("r::condor::job::j1"));
    assert!(!m.holds("r::condor::job::j1::params"));
    assert!(!m.sets["r::condor::job_group::g1::jobs"].contains("j1"));
}

#[test]
fn law_status_update_reads_back() {
    let store = JobStore::new("r");
    let mut m = Memory::default();
    m.apply_all(&store.create_job("j1", "g1", "a", 3, &vec![]));
    m.apply(&store.update_job_status("j1", "Completed"));
    assert_eq!(m.field("r::condor::job::j1", "status"), Some("Completed".to_string()));
    assert_eq!(m.field("r::condor::job::j1", "name"), Some("a".to_string()));
    assert_eq!(m.field("r::condor::job::j1", "template_version"), Some("3".to_string()));
}

#[test]
fn law_keys_do_not_collide() {
    let ks = KeySpace::new("r");
    let ids = ["a", "b", "job", "x_y"];
    let mut all = HashSet::new();
    assert!(all.insert(ks.groups_key()));
    for id in ids {
        assert!(all.insert(ks.group_key(id)));
        assert!(all.insert(ks.templates_key(id)));
        assert!(all.insert(ks.group_jobs_key(id)));
        assert!(all.insert(ks.job_key(id)));
        assert!(all.insert(ks.params_key(id)));
    }
    // An id holding the separator can alias another kind within the family.
    assert_eq!(ks.group_key("a::templates"), ks.templates_key("a"));
}

#[test]
fn law_fresh_ids_have_no_colon() {
    let store = JobStore::new("r");
    for _ in 0..20 {
        let (id, _) = new_job_group(&store, "n", "t");
        assert!(!id.contains(':'));
    }
}

#[test]
fn law_pops_hand_out_each_job_once() {
    let store = JobStore::new("r");
    let mut m = Memory::default();
    for j in ["j1", "j2", "j3"] {
        m.apply_all(&store.create_job(j, "g1", "n", 1, &vec![]));
    }
    let pop = store.pop_job_from_group("g1");
    let mut seen = HashSet::new();
    for _ in 0..3 {
        let j = m.pop(&pop).expect("a job while the set holds one");
        assert!(seen.insert(j.clone()));
        assert!(!m.sets["r::condor::job_group::g1::jobs"].contains(&j));
        assert!(m.holds(&format!("r::condor::job::{j}")));
    }
    assert_eq!(seen, ["j1", "j2", "j3"].iter().map(|s| s.to_string()).collect());
    assert_eq!(m.pop(&pop), None);
}

#[test]
fn law_writes_keep_the_store_readable() {
    let store = JobStore::new("r");
    let mut m = Memory::default();
    assert!(m.readable("r"));
    let (g1, cmds) = new_job_group(&store, "a", "t1");
    m.apply_all(&cmds);
    assert!(m.readable("r"));
    let (g2, cmds) = new_job_group(&store, "b", "u1");
    m.apply_all(&cmds);
    m.apply(&store.bump_template_count(&g1));
    let reply: i32 = m.field(&format!("r::condor::job_group::{g1}"), "template_count").unwrap().parse().unwrap();
    m.apply(&store.put_template(&g1, reply, "t2"));
    assert!(m.readable("r"));
    // An update of a group that is not listed leaves the listed ones readable.
    m.apply(&store.bump_template_count("nobody"));
    m.apply(&store.put_template("nobody", 1, "x"));
    assert!(m.readable("r"));
    m.apply_all(&store.create_job("j1", &g1, "n", reply, &vec![("k".to_string(), "v".to_string())]));
    m.apply(&store.update_job_status("j1", "Completed"));
    assert!(m.readable("r"));
    m.pop(&store.pop_job_from_group(&g1));
    assert!(m.readable("r"));
    m.apply_all(&store.delete_job("j1", &Some(g1.clone())));
    m.apply_all(&store.delete_job_group(&g2, &vec![]));
    assert!(m.readable("r"));
}

#[test]
fn deleting_an_id_that_names_another_groups_templates_breaks_it() {
    let store = JobStore::new("r");
    let mut m = Memory::default();
    m.apply_all(&store.create_job_group("x", "a", "t1"));
    assert!(m.readable("r"));
    m.apply_all(&store.delete_job_group("x::templates", &vec![]));
    assert!(!m.readable("r"));
}

#[test]
fn single_colons_in_group_ids_keep_the_store_readable() {
    let store = JobStore::new("r");
    let mut m = Memory::default();
    m.apply_all(&store.create_job_group("a:", "n", "t1"));
    m.apply_all(&store.create_job_group(":b", "n", "u1"));
    m.apply(&store.bump_template_count("a:"));
    m.apply(&store.put_template("a:", 2, "t2"));
    assert!(m.readable("r"));
    m.apply_all(&store.delete_job_group(":b", &vec![]));
    assert!(m.readable("r"));
}
