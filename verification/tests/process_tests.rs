use egg::process::{
    after_exit, respawned_instance, ExitAction,
    instance_name, spawned_instance, split_command, ProcessStatus, ProcessTable, SpawnError,
};

#[test]
fn instance_names_are_zero_padded() {
    assert_eq!(instance_name("queue", 0), "queue_00");
    assert_eq!(instance_name("queue", 7), "queue_07");
    assert_eq!(instance_name("queue", 12), "queue_12");
    assert_eq!(instance_name("queue", 100), "queue_100");
}

#[test]
fn commands_split_into_program_and_arguments() {
    let (program, args) = split_command("  php artisan   queue:work --tries=3 ").unwrap();
    assert_eq!(program, "php");
    assert_eq!(args, vec!["artisan", "queue:work", "--tries=3"]);
    let (program, args) = split_command("sleep").unwrap();
    assert_eq!(program, "sleep");
    assert!(args.is_empty());
}

#[test]
fn empty_command_is_an_error() {
    assert!(matches!(split_command("   "), Err(SpawnError::EmptyCommand)));
    assert_eq!(SpawnError::EmptyCommand.message(), "Empty command");
}

#[test]
fn spawn_outcomes_become_records() {
    let ok = spawned_instance("queue_00", 0, Ok(Some(42)));
    assert_eq!(ok.name, "queue_00");
    assert_eq!(ok.pid, Some(42));
    assert_eq!(ok.status.label(), "RUNNING");
    assert_eq!(ok.restarts, 0);
    let failed = spawned_instance("queue_01", 1, Err("no such file".to_string()));
    assert_eq!(failed.instance_num, 1);
    assert_eq!(failed.pid, None);
    assert_eq!(failed.status.word(), "FAILED");
    assert_eq!(failed.status.label(), "FAILED (no such file)");
}

#[test]
fn status_words() {
    assert_eq!(ProcessStatus::Starting.label(), "STARTING");
    assert_eq!(ProcessStatus::Stopping.label(), "STOPPING");
    assert_eq!(ProcessStatus::Stopped.label(), "STOPPED");
    assert_eq!(ProcessStatus::Restarting.label(), "RESTARTING");
}

#[test]
fn process_table_replaces_and_clears() {
    let mut t = ProcessTable::new();
    t.insert("queue", vec![spawned_instance("queue_00", 0, Ok(Some(1)))]);
    t.insert("mail", vec![]);
    t.insert(
        "queue",
        vec![spawned_instance("queue_00", 0, Ok(Some(2))), spawned_instance("queue_01", 1, Ok(Some(3)))],
    );
    let status = t.get_status();
    assert_eq!(status.len(), 2);
    assert_eq!(status[0].0, "queue");
    assert_eq!(status[0].1.len(), 2);
    assert_eq!(status[0].1[1].pid, Some(3));
    assert_eq!(status[1].0, "mail");
    t.clear();
    assert!(t.get_status().is_empty());
}

#[test]
fn instance_names_never_repeat() {
    let names: Vec<String> = (0..150).map(|i| instance_name("w", i)).collect();
    let mut sorted = names.clone();
    sorted.sort();
    sorted.dedup();
    assert_eq!(sorted.len(), names.len());
}

#[test]
fn instance_records_follow_spawn_outcomes() {
    let outcomes = vec![Ok(Some(10)), Err("boom".to_string()), Ok(None)];
    let records = egg::process::instance_records("queue", &outcomes);
    assert_eq!(records.len(), 3);
    assert_eq!(records[0].name, "queue_00");
    assert_eq!(records[0].instance_num, 0);
    assert_eq!(records[0].pid, Some(10));
    assert_eq!(records[0].status.label(), "RUNNING");
    assert_eq!(records[1].name, "queue_01");
    assert_eq!(records[1].pid, None);
    assert_eq!(records[1].status.label(), "FAILED (boom)");
    assert_eq!(records[2].name, "queue_02");
    assert_eq!(records[2].instance_num, 2);
    assert!(egg::process::instance_records("queue", &Vec::new()).is_empty());
}

#[test]
fn exits_are_restarted_as_autorestart_asks() {
    let running = spawned_instance("w_00", 0, Ok(Some(5)));
    let (a, r) = after_exit(&running, "true", 3, Some(0));
    assert_eq!(a, ExitAction::Restart);
    assert_eq!(r.restarts, 1);
    assert_eq!(r.pid, None);
    assert_eq!(r.status.label(), "RESTARTING");
    assert_eq!(after_exit(&running, "unexpected", 3, Some(0)).0, ExitAction::Stop);
    assert_eq!(after_exit(&running, "unexpected", 3, Some(1)).0, ExitAction::Restart);
    assert_eq!(after_exit(&running, "unexpected", 3, None).0, ExitAction::Restart);
    let (a, r) = after_exit(&running, "false", 3, Some(1));
    assert_eq!(a, ExitAction::Stop);
    assert_eq!(r.status.label(), "STOPPED");
    assert_eq!(after_exit(&running, "true", 0, Some(0)).0, ExitAction::GiveUp);
}

#[test]
fn restarts_stop_at_startretries() {
    let mut rec = spawned_instance("w_00", 0, Ok(Some(5)));
    let mut restarts = 0;
    loop {
        let (a, r) = after_exit(&rec, "true", 2, Some(1));
        if a != ExitAction::Restart {
            assert_eq!(a, ExitAction::GiveUp);
            assert_eq!(r.status.label(), "FAILED (too many restarts)");
            break;
        }
        restarts += 1;
        rec = respawned_instance(&r, Ok(Some(6 + restarts)));
        assert_eq!(rec.status.label(), "RUNNING");
        assert_eq!(rec.restarts, restarts);
    }
    assert_eq!(restarts, 2);
}
