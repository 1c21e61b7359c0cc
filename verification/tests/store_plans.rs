use condor::keys::KeySpace;
use condor::store::{JobStore, RedisCommand, StoreError};

fn hset(key: &str, field: &str, value: &str) -> RedisCommand {
    RedisCommand::HSet { key: key.to_string(), field: field.to_string(), value: value.to_string() }
}

#[test]
fn keys_follow_the_schema() {
    let ks = KeySpace::new("app");
    assert_eq!(ks.gen_key(&["condor", "job_group", "g1"]), "app::condor::job_group::g1");
    assert_eq!(ks.gen_key(&[]), "app");
    assert_eq!(ks.group_key("g1"), "app::condor::job_group::g1");
    assert_eq!(ks.templates_key("g1"), "app::condor::job_group::g1::templates");
    assert_eq!(ks.group_jobs_key("g1"), "app::condor::job_group::g1::jobs");
    assert_eq!(ks.groups_key(), "app::condor::jobgroups");
    assert_eq!(ks.job_key("j1"), "app::condor::job::j1");
    assert_eq!(ks.params_key("j1"), "app::condor::job::j1::params");
}

#[test]
fn empty_root_keys_start_with_separator() {
    let ks = KeySpace::new("");
    assert_eq!(ks.job_key("x"), "::condor::job::x");
}

#[test]
fn create_job_group_writes_name_counter_template_and_membership() {
    let store = JobStore::new("r");
    let cmds = store.create_job_group("g1", "build", "tpl");
    assert_eq!(
        cmds,
        vec![
            hset("r::condor::job_group::g1", "name", "build"),
            hset("r::condor::job_group::g1", "template_count", "1"),
            hset("r::condor::job_group::g1::templates", "1", "tpl"),
            RedisCommand::SAdd { key: "r::condor::jobgroups".to_string(), member: "g1".to_string() },
        ]
    );
}

#[test]
fn reading_a_group_asks_for_name_and_counter() {
    let store = JobStore::new("r");
    assert_eq!(
        store.job_group_header("g1"),
        RedisCommand::HMGet {
            key: "r::condor::job_group::g1".to_string(),
            fields: vec!["name".to_string(), "template_count".to_string()],
        }
    );
}

#[test]
fn a_group_without_name_is_not_found() {
    let store = JobStore::new("r");
    assert_eq!(
        store.job_group_template("g9", "", 0),
        Err(StoreError::NotFound("job group g9 not found".to_string()))
    );
}

#[test]
fn a_named_group_reads_its_current_template() {
    let store = JobStore::new("r");
    assert_eq!(
        store.job_group_template("g1", "build", 3),
        Ok(RedisCommand::HGet { key: "r::condor::job_group::g1::templates".to_string(), field: "3".to_string() })
    );
}

#[test]
fn update_bumps_counter_then_stores_template_under_new_version() {
    let store = JobStore::new("r");
    assert_eq!(
        store.bump_template_count("g1"),
        RedisCommand::HIncrBy {
            key: "r::condor::job_group::g1".to_string(),
            field: "template_count".to_string(),
            delta: 1,
        }
    );
    assert_eq!(store.put_template("g1", 2, "v2"), hset("r::condor::job_group::g1::templates", "2", "v2"));
}

#[test]
fn listing_groups_keeps_only_named_ones_in_order() {
    let ids = vec!["a".to_string(), "b".to_string(), "c".to_string()];
    let headers = vec![("A".to_string(), 1), ("".to_string(), 0), ("C".to_string(), 4)];
    assert_eq!(
        JobStore::collect_job_groups(&ids, &headers),
        vec![("a".to_string(), "A".to_string(), 1), ("c".to_string(), "C".to_string(), 4)]
    );
    assert_eq!(JobStore::collect_job_groups(&vec![], &vec![]), vec![]);
}

#[test]
fn deleting_a_group_deletes_its_jobs_first() {
    let store = JobStore::new("r");
    let cmds = store.delete_job_group("g1", &vec!["j1".to_string(), "j2".to_string()]);
    let del = |k: &str| RedisCommand::Del { key: k.to_string() };
    assert_eq!(
        cmds,
        vec![
            del("r::condor::job::j1"),
            del("r::condor::job::j1::params"),
            del("r::condor::job::j2"),
            del("r::condor::job::j2::params"),
            del("r::condor::job_group::g1"),
            del("r::condor::job_group::g1::templates"),
            del("r::condor::job_group::g1::jobs"),
            RedisCommand::SRem { key: "r::condor::jobgroups".to_string(), member: "g1".to_string() },
        ]
    );
}

#[test]
fn deleting_a_group_without_jobs() {
    let store = JobStore::new("r");
    assert_eq!(store.delete_job_group("g1", &vec![]).len(), 4);
}

#[test]
fn create_job_writes_header_params_and_membership() {
    let store = JobStore::new("r");
    let params = vec![("k1".to_string(), "v1".to_string()), ("k2".to_string(), "v2".to_string())];
    let cmds = store.create_job("j1", "g1", "run", 7, &params);
    assert_eq!(
        cmds,
        vec![
            hset("r::condor::job::j1", "name", "run"),
            hset("r::condor::job::j1", "group_id", "g1"),
            hset("r::condor::job::j1", "status", "Created"),
            hset("r::condor::job::j1", "template_version", "7"),
            hset("r::condor::job::j1::params", "k1", "v1"),
            hset("r::condor::job::j1::params", "k2", "v2"),
            RedisCommand::SAdd { key: "r::condor::job_group::g1::jobs".to_string(), member: "j1".to_string() },
        ]
    );
    assert_eq!(
        store.group_template_count("g1"),
        RedisCommand::HGet { key: "r::condor::job_group::g1".to_string(), field: "template_count".to_string() }
    );
}

#[test]
fn reading_a_job() {
    let store = JobStore::new("r");
    assert_eq!(
        store.job_header("j1"),
        RedisCommand::HMGet {
            key: "r::condor::job::j1".to_string(),
            fields: vec![
                "name".to_string(),
                "group_id".to_string(),
                "status".to_string(),
                "template_version".to_string(),
            ],
        }
    );
    assert_eq!(
        store.job_parameters("j1", "run"),
        Ok(RedisCommand::HGetAll { key: "r::condor::job::j1::params".to_string() })
    );
    assert_eq!(store.job_parameters("j9", ""), Err(StoreError::NotFound("job j9 not found".to_string())));
}

#[test]
fn template_versions_are_found_or_refused() {
    let store = JobStore::new("r");
    assert_eq!(
        store.group_template("g1", 12),
        RedisCommand::HGet { key: "r::condor::job_group::g1::templates".to_string(), field: "12".to_string() }
    );
    assert_eq!(JobStore::group_template_result("g1", 12, Some("t".to_string())), Ok("t".to_string()));
    assert_eq!(
        JobStore::group_template_result("g1", 12, None),
        Err(StoreError::NotFound("template version 12 for group g1 not found".to_string()))
    );
    assert_eq!(
        JobStore::group_template_result("g1", -3, None),
        Err(StoreError::NotFound("template version -3 for group g1 not found".to_string()))
    );
}

#[test]
fn listing_jobs_keeps_only_named_ones() {
    let store = JobStore::new("r");
    assert_eq!(
        store.job_summary("j1"),
        RedisCommand::HMGet {
            key: "r::condor::job::j1".to_string(),
            fields: vec!["name".to_string(), "status".to_string(), "template_version".to_string()],
        }
    );
    let ids = vec!["j1".to_string(), "j2".to_string()];
    let summaries = vec![("".to_string(), "".to_string(), 0), ("b".to_string(), "Completed".to_string(), 2)];
    assert_eq!(
        JobStore::collect_jobs(&ids, &summaries),
        vec![("j2".to_string(), "b".to_string(), "Completed".to_string(), 2)]
    );
}

#[test]
fn deleting_a_job_needs_its_group() {
    let store = JobStore::new("r");
    assert_eq!(
        store.job_group_of("j1"),
        RedisCommand::HGet { key: "r::condor::job::j1".to_string(), field: "group_id".to_string() }
    );
    assert_eq!(store.delete_job("j1", &None), vec![]);
    assert_eq!(
        store.delete_job("j1", &Some("g1".to_string())),
        vec![
            RedisCommand::Del { key: "r::condor::job::j1".to_string() },
            RedisCommand::Del { key: "r::condor::job::j1::params".to_string() },
            RedisCommand::SRem { key: "r::condor::job_group::g1::jobs".to_string(), member: "j1".to_string() },
        ]
    );
}

#[test]
fn status_update_and_pop() {
    let store = JobStore::new("r");
    assert_eq!(store.update_job_status("j1", "Running"), hset("r::condor::job::j1", "status", "Running"));
    assert_eq!(
        store.pop_job_from_group("g1"),
        RedisCommand::SPop { key: "r::condor::job_group::g1::jobs".to_string() }
    );
    assert_eq!(
        store.group_job_ids("g1"),
        RedisCommand::SMembers { key: "r::condor::job_group::g1::jobs".to_string() }
    );
    assert_eq!(store.job_group_ids(), RedisCommand::SMembers { key: "r::condor::jobgroups".to_string() });
}
