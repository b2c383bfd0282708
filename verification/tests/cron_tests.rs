use egg::config::CronJob;
use egg::cron::{parse_schedule, CronError, CronScheduler};

fn job(schedule: &str, enabled: bool) -> CronJob {
    CronJob {
        enabled,
        schedule: schedule.to_string(),
        command: "true".to_string(),
        user: None,
        description: None,
    }
}

#[test]
fn five_field_schedules_parse() {
    assert!(parse_schedule("* * * * *").is_ok());
    assert!(parse_schedule("0 3 * * *").is_ok());
    assert!(parse_schedule("*/5 * * * 1-5").is_ok());
}

#[test]
fn six_field_schedules_are_passed_on() {
    assert!(parse_schedule("30 0 3 * * *").is_ok());
}

#[test]
fn invalid_schedules_are_rejected_with_the_expression() {
    match parse_schedule("not a cron") {
        Err(CronError::InvalidExpression { expression }) => assert_eq!(expression, "not a cron"),
        Ok(_) => panic!("accepted"),
    }
    assert!(parse_schedule("61 * * * *").is_err());
    let e = parse_schedule("bad").err().unwrap();
    assert_eq!(e.message(), "Invalid cron expression: bad");
}

#[test]
fn register_records_a_fresh_status() {
    let mut s = CronScheduler::new();
    s.register("scheduler", &job("* * * * *", true)).unwrap();
    let status = s.get_status();
    assert_eq!(status.len(), 1);
    assert_eq!(status[0].name, "scheduler");
    assert_eq!(status[0].schedule, "* * * * *");
    assert_eq!(status[0].run_count, 0);
    assert_eq!(status[0].last_run, None);
    assert_eq!(status[0].last_exit_code, None);
    assert!(status[0].enabled);
    assert!(status[0].next_run.is_some());
}

#[test]
fn register_rejects_invalid_schedule_and_keeps_state() {
    let mut s = CronScheduler::new();
    assert!(s.register("bad", &job("every day", true)).is_err());
    assert!(s.get_status().is_empty());
}

#[test]
fn registering_again_replaces() {
    let mut s = CronScheduler::new();
    s.add_job("a", &job("* * * * *", true), Some(100));
    s.add_job("a", &job("0 3 * * *", false), Some(200));
    let status = s.get_status();
    assert_eq!(status.len(), 1);
    assert_eq!(status[0].schedule, "0 3 * * *");
    assert_eq!(status[0].next_run, Some(200));
}

#[test]
fn due_jobs_are_enabled_and_reached() {
    let mut s = CronScheduler::new();
    s.add_job("early", &job("* * * * *", true), Some(100));
    s.add_job("later", &job("* * * * *", true), Some(500));
    s.add_job("off", &job("* * * * *", false), Some(50));
    s.add_job("never", &job("* * * * *", true), None);
    assert_eq!(s.due_jobs(100), vec!["early".to_string()]);
    assert_eq!(s.due_jobs(99), Vec::<String>::new());
    assert_eq!(s.due_jobs(1000), vec!["early".to_string(), "later".to_string()]);
}

#[test]
fn finishing_a_run_updates_only_that_job() {
    let mut s = CronScheduler::new();
    s.add_job("a", &job("* * * * *", true), Some(100));
    s.add_job("b", &job("* * * * *", true), Some(100));
    s.finish_run("a", 120, Some(0), Some(Some(180)));
    let status = s.get_status();
    assert_eq!(status[0].last_run, Some(120));
    assert_eq!(status[0].run_count, 1);
    assert_eq!(status[0].last_exit_code, Some(0));
    assert_eq!(status[0].next_run, Some(180));
    assert_eq!(status[1].run_count, 0);
    s.finish_run("a", 180, None, None);
    let status = s.get_status();
    assert_eq!(status[0].run_count, 2);
    assert_eq!(status[0].last_exit_code, None);
    assert_eq!(status[0].next_run, Some(180));
}

#[test]
fn record_run_recomputes_the_next_run() {
    let mut s = CronScheduler::new();
    s.add_job("a", &job("* * * * *", true), Some(0));
    s.record_run("a", 5, Some(1));
    let status = s.get_status();
    assert_eq!(status[0].run_count, 1);
    assert_eq!(status[0].last_exit_code, Some(1));
    assert_eq!(status[0].last_run, Some(5));
    assert!(status[0].next_run.unwrap() > 5);
}

#[test]
fn default_scheduler_is_empty() {
    let s = CronScheduler::default();
    assert!(s.get_status().is_empty());
    assert!(s.due_jobs(i64::MAX).is_empty());
}

#[test]
fn five_field_expressions_get_a_seconds_field() {
    assert_eq!(egg::cron::full_expression("* * * * *"), "0 * * * * *");
    assert_eq!(egg::cron::full_expression("0 3 * * *"), "0 0 3 * * *");
    assert_eq!(egg::cron::full_expression("30 0 3 * * *"), "30 0 3 * * *");
    assert_eq!(egg::cron::full_expression("bad"), "bad");
}

#[test]
fn registering_twice_keeps_one_status_per_name() {
    let mut s = CronScheduler::new();
    s.register("a", &job("* * * * *", true)).unwrap();
    s.register("b", &job("0 3 * * *", true)).unwrap();
    s.register("a", &job("0 4 * * *", false)).unwrap();
    let status = s.get_status();
    assert_eq!(status.iter().filter(|st| st.name == "a").count(), 1);
    let a = status.iter().find(|st| st.name == "a").unwrap();
    assert_eq!(a.schedule, "0 4 * * *");
    assert!(!a.enabled);
    assert_eq!(s.command_of("a"), Some("true".to_string()));
    assert_eq!(s.command_of("zzz"), None);
    assert_eq!(s.run_count_of("b"), Some(0));
    assert_eq!(s.run_count_of("zzz"), None);
}

#[test]
fn recording_due_runs_updates_each_once() {
    let mut s = CronScheduler::new();
    s.add_job("a", &job("* * * * *", true), Some(10));
    s.add_job("b", &job("* * * * *", true), Some(10));
    s.add_job("c", &job("* * * * *", true), Some(99));
    let due = s.due_jobs(20);
    assert_eq!(due, vec!["a".to_string(), "b".to_string()]);
    let runs: Vec<(String, Option<i32>)> = due.into_iter().zip([Some(0), Some(2)]).collect();
    s.record_runs(20, &runs);
    let status = s.get_status();
    assert_eq!(status[0].run_count, 1);
    assert_eq!(status[0].last_exit_code, Some(0));
    assert_eq!(status[1].run_count, 1);
    assert_eq!(status[1].last_exit_code, Some(2));
    assert_eq!(status[1].last_run, Some(20));
    assert!(status[1].next_run.unwrap() > 20);
    assert_eq!(status[2].run_count, 0);
    assert_eq!(status[2].next_run, Some(99));
}
