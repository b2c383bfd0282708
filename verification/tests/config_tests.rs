use egg::config::{CronJob, EggConfig, ProjectConfig, SupervisorProcess};

fn process(command: &str, enabled: bool) -> SupervisorProcess {
    SupervisorProcess {
        enabled,
        command: command.to_string(),
        process_name: egg::config::default_process_name(),
        numprocs: egg::config::default_numprocs(),
        directory: None,
        autostart: egg::config::default_true(),
        autorestart: egg::config::default_autorestart(),
        startretries: egg::config::default_startretries(),
        startsecs: egg::config::default_startsecs(),
        stopwaitsecs: egg::config::default_stopwaitsecs(),
        user: None,
        redirect_stderr: egg::config::default_true(),
        stdout_logfile: None,
        stderr_logfile: None,
        environment: None,
    }
}

fn job(schedule: &str, command: &str, enabled: bool) -> CronJob {
    CronJob {
        enabled,
        schedule: schedule.to_string(),
        command: command.to_string(),
        user: None,
        description: None,
    }
}

fn sample() -> EggConfig {
    EggConfig {
        project: ProjectConfig { name: "shop".to_string(), description: None },
        supervisor: vec![
            ("queue".to_string(), process("php artisan queue:work", true)),
            ("old".to_string(), process("php artisan old", false)),
            ("horizon".to_string(), process("php artisan horizon", true)),
        ],
        cron: vec![
            ("scheduler".to_string(), job("* * * * *", "php artisan schedule:run", true)),
            ("off".to_string(), job("0 3 * * *", "php artisan off", false)),
        ],
    }
}

#[test]
fn defaults_match_the_documented_values() {
    assert!(egg::config::default_true());
    assert_eq!(egg::config::default_process_name(), "%(program_name)s_%(process_num)02d");
    assert_eq!(egg::config::default_numprocs(), 1);
    assert_eq!(egg::config::default_autorestart(), "true");
    assert_eq!(egg::config::default_startretries(), 3);
    assert_eq!(egg::config::default_startsecs(), 1);
    assert_eq!(egg::config::default_stopwaitsecs(), 10);
}

#[test]
fn enabled_supervisors_skips_disabled_in_order() {
    let config = sample();
    let enabled = config.enabled_supervisors();
    let names: Vec<&str> = enabled.iter().map(|(n, _)| n.as_str()).collect();
    assert_eq!(names, vec!["queue", "horizon"]);
    assert_eq!(enabled[1].1.command, "php artisan horizon");
}

#[test]
fn enabled_crons_skips_disabled() {
    let config = sample();
    let enabled = config.enabled_crons();
    assert_eq!(enabled.len(), 1);
    assert_eq!(enabled[0].0, "scheduler");
}

#[test]
fn expand_command_fills_placeholders() {
    let p = process("php artisan queue:work --queue={QUEUE_NAME}", true);
    let env = vec![("QUEUE_NAME".to_string(), "emails".to_string())];
    assert_eq!(p.expand_command(&env), "php artisan queue:work --queue=emails");
}

#[test]
fn expand_command_replaces_every_occurrence() {
    let p = process("echo {A} {A} {B}", true);
    let env = vec![("A".to_string(), "1".to_string()), ("B".to_string(), "two".to_string())];
    assert_eq!(p.expand_command(&env), "echo 1 1 two");
}

#[test]
fn expand_command_keeps_unknown_placeholders() {
    let p = process("run {MISSING} now", true);
    let env = vec![("OTHER".to_string(), "x".to_string())];
    assert_eq!(p.expand_command(&env), "run {MISSING} now");
    assert_eq!(p.expand_command(&Vec::new()), "run {MISSING} now");
}

#[test]
fn expand_command_applies_variables_in_order() {
    let p = process("{A}", true);
    let env = vec![("A".to_string(), "{B}".to_string()), ("B".to_string(), "done".to_string())];
    assert_eq!(p.expand_command(&env), "done");
}
