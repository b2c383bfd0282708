use egg::config::{CronJob, EggConfig, ProjectConfig, SupervisorProcess};
use egg::status::{
    cron_human_readable, cron_status_row, init_template, invalid_schedules, only_allows,
    parse_ps_pids, process_search_pattern, process_status_row, startup_crons, startup_processes,
};

fn process(enabled: bool) -> SupervisorProcess {
    SupervisorProcess {
        enabled,
        command: "php artisan queue:work".to_string(),
        process_name: "p".to_string(),
        numprocs: 2,
        directory: None,
        autostart: true,
        autorestart: "true".to_string(),
        startretries: 3,
        startsecs: 1,
        stopwaitsecs: 10,
        user: None,
        redirect_stderr: true,
        stdout_logfile: None,
        stderr_logfile: None,
        environment: None,
    }
}

fn job(schedule: &str, enabled: bool) -> CronJob {
    CronJob {
        enabled,
        schedule: schedule.to_string(),
        command: "true".to_string(),
        user: None,
        description: None,
    }
}

fn config() -> EggConfig {
    EggConfig {
        project: ProjectConfig { name: "app".to_string(), description: None },
        supervisor: vec![
            ("queue".to_string(), process(true)),
            ("off".to_string(), process(false)),
            ("horizon".to_string(), process(true)),
        ],
        cron: vec![
            ("scheduler".to_string(), job("* * * * *", true)),
            ("broken".to_string(), job("* * *", true)),
            ("nightly".to_string(), job("0 3 * * *", false)),
            ("yearly".to_string(), job("0 0 1 1 * 2030", false)),
        ],
    }
}

#[test]
fn human_every_minute() {
    assert_eq!(cron_human_readable("* * * * *"), "every minute");
    assert_eq!(cron_human_readable("  * * * * *  "), "every minute");
}

#[test]
fn human_every_n_minutes() {
    assert_eq!(cron_human_readable("*/5 * * * *"), "every 5 minutes");
    assert_eq!(cron_human_readable("*/05 * * * *"), "every 5 minutes");
    assert_eq!(cron_human_readable("*/+7 * * * *"), "every 7 minutes");
}

#[test]
fn human_step_that_is_not_a_number_is_hourly() {
    assert_eq!(cron_human_readable("*/x * * * *"), "hourly at minute */x");
    assert_eq!(cron_human_readable("*/99999999999 * * * *"), "hourly at minute */99999999999");
}

#[test]
fn human_hourly() {
    assert_eq!(cron_human_readable("15 * * * *"), "hourly at minute 15");
    assert_eq!(cron_human_readable("0 * * * *"), "hourly at minute 0");
}

#[test]
fn human_every_n_hours() {
    assert_eq!(cron_human_readable("0 */6 * * *"), "every 6 hours");
    assert_eq!(cron_human_readable("5 */6 * * *"), "daily at */6:5");
}

#[test]
fn human_daily_and_weekly() {
    assert_eq!(cron_human_readable("0 3 * * *"), "daily at 3:0");
    assert_eq!(cron_human_readable("30 2 * * 1"), "weekly on 1 at 2:30");
}

#[test]
fn human_custom() {
    assert_eq!(cron_human_readable("0 0 1 * *"), "custom");
    assert_eq!(cron_human_readable("* 3 * * *"), "custom");
    assert_eq!(cron_human_readable("* * * *"), "custom");
    assert_eq!(cron_human_readable(""), "custom");
}

#[test]
fn search_pattern_for_artisan_commands() {
    assert_eq!(
        process_search_pattern("/usr/bin/php artisan queue:listen --tries=3 --queue=default"),
        "artisan queue:listen --tries=3"
    );
    assert_eq!(process_search_pattern("php artisan horizon"), "artisan horizon");
}

#[test]
fn search_pattern_for_other_commands() {
    assert_eq!(process_search_pattern("node server.js"), "node server.js");
    let long = "x".repeat(80);
    assert_eq!(process_search_pattern(&long), "x".repeat(50));
}

#[test]
fn ps_output_is_read_by_second_column() {
    let out = "www  1234  0.0  0.1 php artisan queue:work\nroot 77 0.0 0.0 php artisan horizon\r\nbad line\n\nuser abc 0 0 x\n";
    assert_eq!(parse_ps_pids(out), vec![1234, 77]);
    assert_eq!(parse_ps_pids(""), Vec::<u32>::new());
}

#[test]
fn stopped_row() {
    let row = process_status_row("queue", 2, &Vec::new());
    assert_eq!(row.name, "queue");
    assert_eq!(row.status, "STOPPED");
    assert_eq!(row.pid, "-");
    assert_eq!(row.restarts, "0/2");
}

#[test]
fn running_row() {
    let row = process_status_row("queue", 3, &vec![101, 202]);
    assert_eq!(row.status, "RUNNING");
    assert_eq!(row.pid, "101, 202");
    assert_eq!(row.restarts, "2/3");
}

#[test]
fn cron_rows() {
    let row = cron_status_row("scheduler", "* * * * *", true);
    assert_eq!(row.schedule, "* * * * * (every minute)");
    assert_eq!(row.last_run, "-");
    assert_eq!(row.next_run, "pending");
    assert_eq!(row.run_count, "active");
    let row = cron_status_row("cleanup", "0 3 * * *", false);
    assert_eq!(row.schedule, "0 3 * * * (daily at 3:0)");
    assert_eq!(row.next_run, "-");
    assert_eq!(row.run_count, "inactive");
}

#[test]
fn only_filter() {
    assert!(only_allows(&None, "queue"));
    let only = Some(vec!["queue".to_string()]);
    assert!(only_allows(&only, "queue"));
    assert!(!only_allows(&only, "horizon"));
}

#[test]
fn up_starts_enabled_processes() {
    let c = config();
    let all: Vec<&str> = startup_processes(&c, &None).iter().map(|(n, _)| n.as_str()).collect();
    assert_eq!(all, vec!["queue", "horizon"]);
    let only = Some(vec!["horizon".to_string(), "off".to_string()]);
    let some: Vec<&str> = startup_processes(&c, &only).iter().map(|(n, _)| n.as_str()).collect();
    assert_eq!(some, vec!["horizon"]);
}

#[test]
fn up_skips_processes_that_do_not_start_automatically() {
    let mut c = config();
    c.supervisor[2].1.autostart = false;
    let all: Vec<&str> = startup_processes(&c, &None).iter().map(|(n, _)| n.as_str()).collect();
    assert_eq!(all, vec!["queue"]);
    let only = Some(vec!["horizon".to_string()]);
    assert!(startup_processes(&c, &only).is_empty());
}

#[test]
fn up_registers_enabled_crons_unless_no_cron() {
    let c = config();
    let all: Vec<&str> = startup_crons(&c, &None, false).iter().map(|(n, _)| n.as_str()).collect();
    assert_eq!(all, vec!["scheduler", "broken"]);
    assert!(startup_crons(&c, &None, true).is_empty());
    let only = Some(vec!["queue".to_string()]);
    assert!(startup_crons(&c, &only, false).is_empty());
}

#[test]
fn validate_flags_schedules_that_are_not_five_fields() {
    let c = config();
    let flagged: Vec<&str> = invalid_schedules(&c).iter().map(|(n, _)| n.as_str()).collect();
    assert_eq!(flagged, vec!["broken", "yearly"]);
}

#[test]
fn init_template_names_the_project() {
    let t = init_template("my-app");
    assert!(t.starts_with("[project]\nname = \"my-app\"\n\n# Supervisor processes"));
    let table: toml::Table = t.parse().unwrap();
    assert_eq!(table["project"]["name"].as_str(), Some("my-app"));
    assert_eq!(table["supervisor"]["queue_default"]["numprocs"].as_integer(), Some(2));
    assert_eq!(table["cron"]["scheduler"]["schedule"].as_str(), Some("* * * * *"));
}
