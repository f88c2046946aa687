use halvor::sync::{key_sync_plan, managed_setting_values, settings_sync_plan};

fn s(x: &str) -> String {
    x.to_string()
}

#[test]
fn hosts_sync_to_the_env_file() {
    let env = vec![s("a"), s("b")];
    let db = vec![s("b"), s("c"), s("d")];
    let plan = key_sync_plan(&env, &db);
    assert_eq!(plan.store.len(), 2);
    assert_eq!(plan.store[0].key, "a");
    assert!(!plan.store[0].existed);
    assert!(plan.store[1].existed);
    assert_eq!(plan.added, 1);
    assert_eq!(plan.updated, 1);
    assert_eq!(plan.delete, vec![s("c"), s("d")]);
    // After the sync the database holds exactly the env keys.
    let mut after: Vec<String> = db.iter().filter(|k| !plan.delete.contains(k)).cloned().collect();
    for st in &plan.store {
        if !after.contains(&st.key) {
            after.push(st.key.clone());
        }
    }
    after.sort();
    assert_eq!(after, vec![s("a"), s("b")]);
}

#[test]
fn settings_come_from_the_environment() {
    let vars = vec![(s("TLD"), s("example")), (s("ACME_EMAIL"), s("me@x")), (s("PATH"), s("/bin"))];
    let values = managed_setting_values("ts.net", &vars);
    assert_eq!(values.len(), 13);
    assert_eq!(values[0], (s("TAILNET_BASE"), s("ts.net")));
    assert_eq!(values[1], (s("TAILNET_TLD"), s("example")));
    assert_eq!(values[2], (s("ACME_EMAIL"), s("me@x")));
    assert_eq!(values[3], (s("PIA_USERNAME"), s("")));
    let vars = vec![(s("TLD"), s("a")), (s("TAILNET_TLD"), s("b"))];
    assert_eq!(managed_setting_values("ts.net", &vars)[1], (s("TAILNET_TLD"), s("b")));
}

#[test]
fn settings_sync_writes_values_and_deletes_managed_empties() {
    let values = vec![(s("A"), s("1")), (s("B"), s("")), (s("C"), s("3"))];
    let stored = vec![Some(s("B")), Some(s("A")), None, Some(s("X"))];
    let plan = settings_sync_plan(&values, &vec![true, false, false], &stored);
    assert_eq!(plan.set, vec![(s("A"), s("1")), (s("C"), s("3"))]);
    assert_eq!(plan.updated, 1);
    assert_eq!(plan.added, 1);
    assert_eq!(plan.delete, vec![s("B")]);
}
