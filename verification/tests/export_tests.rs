use egg::config::{CronJob, EggConfig, ProjectConfig, SupervisorProcess};
use egg::export::{
    convert_weekday, cron_to_systemd_calendar, export_crontab, generate_supervisor_conf,
    generate_systemd_service, generate_systemd_timer, supervisor_files, systemd_files,
};

fn worker() -> SupervisorProcess {
    SupervisorProcess {
        enabled: true,
        command: "php artisan queue:work".to_string(),
        process_name: "%(program_name)s_%(process_num)02d".to_string(),
        numprocs: 3,
        directory: Some("/var/www/app".to_string()),
        autostart: true,
        autorestart: "true".to_string(),
        startretries: 3,
        startsecs: 1,
        stopwaitsecs: 60,
        user: Some("www-data".to_string()),
        redirect_stderr: false,
        stdout_logfile: Some("/var/log/app/queue.log".to_string()),
        stderr_logfile: None,
        environment: Some(vec![
            ("APP_ENV".to_string(), "local".to_string()),
            ("QUEUE".to_string(), "default".to_string()),
        ]),
    }
}

fn bare(command: &str, enabled: bool) -> SupervisorProcess {
    SupervisorProcess {
        enabled,
        command: command.to_string(),
        process_name: "p".to_string(),
        numprocs: 1,
        directory: None,
        autostart: false,
        autorestart: "unexpected".to_string(),
        startretries: 0,
        startsecs: 10,
        stopwaitsecs: 10,
        user: None,
        redirect_stderr: true,
        stdout_logfile: None,
        stderr_logfile: None,
        environment: None,
    }
}

fn job(schedule: &str, enabled: bool, description: Option<&str>, user: Option<&str>) -> CronJob {
    CronJob {
        enabled,
        schedule: schedule.to_string(),
        command: "php artisan schedule:run".to_string(),
        user: user.map(|u| u.to_string()),
        description: description.map(|d| d.to_string()),
    }
}

fn config() -> EggConfig {
    EggConfig {
        project: ProjectConfig { name: "shop".to_string(), description: None },
        supervisor: vec![
            ("queue".to_string(), worker()),
            ("off".to_string(), bare("sleep 1", false)),
            ("mail".to_string(), bare("php artisan mail", true)),
        ],
        cron: vec![
            ("scheduler".to_string(), job("* * * * *", true, Some("Laravel scheduler"), None)),
            ("cleanup".to_string(), job("0 3 * * *", false, None, None)),
            ("report".to_string(), job("30 2 * * 1", true, None, Some("www-data"))),
        ],
    }
}

#[test]
fn supervisor_conf_lists_every_setting() {
    let conf = generate_supervisor_conf("queue", &worker(), "shop");
    assert_eq!(
        conf,
        "[program:shop-queue]\ncommand=php artisan queue:work\nprocess_name=%(program_name)s_%(process_num)02d\nnumprocs=3\nautostart=true\nautorestart=true\nstartretries=3\nstartsecs=1\nstopwaitsecs=60\nredirect_stderr=false\ndirectory=/var/www/app\nuser=www-data\nstdout_logfile=/var/log/app/queue.log\nenvironment=APP_ENV=\"local\",QUEUE=\"default\"\n"
    );
}

#[test]
fn supervisor_conf_without_optional_settings() {
    let conf = generate_supervisor_conf("mail", &bare("php artisan mail", true), "shop");
    assert_eq!(
        conf,
        "[program:shop-mail]\ncommand=php artisan mail\nprocess_name=p\nnumprocs=1\nautostart=false\nautorestart=unexpected\nstartretries=0\nstartsecs=10\nstopwaitsecs=10\nredirect_stderr=true\n"
    );
}

#[test]
fn systemd_service_restarts_always_when_autorestart_is_true() {
    let service = generate_systemd_service("queue", &worker(), "shop");
    assert_eq!(
        service,
        "[Unit]\nDescription=shop-queue worker\nAfter=network.target\n\n[Service]\nType=simple\nExecStart=php artisan queue:work\nRestart=always\nRestartSec=5\nWorkingDirectory=/var/www/app\nUser=www-data\nEnvironment=\"APP_ENV=local\"\nEnvironment=\"QUEUE=default\"\n\n[Install]\nWantedBy=multi-user.target\n"
    );
}

#[test]
fn systemd_service_does_not_restart_otherwise() {
    let service = generate_systemd_service("mail", &bare("php artisan mail", true), "shop");
    assert_eq!(
        service,
        "[Unit]\nDescription=shop-mail worker\nAfter=network.target\n\n[Service]\nType=simple\nExecStart=php artisan mail\nRestart=no\nRestartSec=5\n\n[Install]\nWantedBy=multi-user.target\n"
    );
}

#[test]
fn systemd_timer_with_description_and_user() {
    let (service, timer) =
        generate_systemd_timer("report", &job("30 2 * * 1", true, Some("Weekly report"), Some("www-data")), "shop");
    assert_eq!(
        service,
        "[Unit]\nDescription=Weekly report\n\n[Service]\nType=oneshot\nExecStart=/bin/sh -c 'php artisan schedule:run'\nUser=www-data\n"
    );
    assert_eq!(
        timer,
        "[Unit]\nDescription=Timer for shop-report\n\n[Timer]\nOnCalendar=Mon 2:30\nPersistent=true\n\n[Install]\nWantedBy=timers.target\n"
    );
}

#[test]
fn systemd_timer_defaults_description_to_unit_name() {
    let (service, _) = generate_systemd_timer("tick", &job("* * * * *", true, None, None), "shop");
    assert_eq!(
        service,
        "[Unit]\nDescription=shop-tick\n\n[Service]\nType=oneshot\nExecStart=/bin/sh -c 'php artisan schedule:run'\n\n"
    );
}

#[test]
fn calendar_every_minute() {
    assert_eq!(cron_to_systemd_calendar("* * * * *"), "*:*");
}

#[test]
fn calendar_falls_back_when_not_five_fields() {
    assert_eq!(cron_to_systemd_calendar("0 3 * *"), "*:*");
    assert_eq!(cron_to_systemd_calendar("0 0 3 * * *"), "*:*");
    assert_eq!(cron_to_systemd_calendar(""), "*:*");
}

#[test]
fn calendar_daily_time() {
    assert_eq!(cron_to_systemd_calendar("0 3 * * *"), "3:0");
    assert_eq!(cron_to_systemd_calendar("*/5 * * * *"), "*:*/5");
}

#[test]
fn calendar_with_weekday_and_date() {
    assert_eq!(cron_to_systemd_calendar("30 2 * * 1"), "Mon 2:30");
    assert_eq!(cron_to_systemd_calendar("0 0 1 * *"), "*-*-1 0:0");
    assert_eq!(cron_to_systemd_calendar("15 6 * 12 0"), "Sun *-12-* 6:15");
    assert_eq!(cron_to_systemd_calendar("0 9 * * 1-5"), "1-5 9:0");
}

#[test]
fn weekday_names() {
    assert_eq!(convert_weekday("0"), "Sun");
    assert_eq!(convert_weekday("7"), "Sun");
    assert_eq!(convert_weekday("1"), "Mon");
    assert_eq!(convert_weekday("2"), "Tue");
    assert_eq!(convert_weekday("3"), "Wed");
    assert_eq!(convert_weekday("4"), "Thu");
    assert_eq!(convert_weekday("5"), "Fri");
    assert_eq!(convert_weekday("6"), "Sat");
    assert_eq!(convert_weekday("MON"), "MON");
}

#[test]
fn crontab_lists_enabled_jobs() {
    let crontab = export_crontab(&config());
    assert_eq!(
        crontab,
        "# Crontab for project: shop\n# Generated by egg\n\n# Laravel scheduler\n# scheduler\n* * * * * php artisan schedule:run\n\n# report\n30 2 * * 1 php artisan schedule:run\n\n"
    );
}

#[test]
fn crontab_of_project_without_jobs() {
    let mut c = config();
    c.cron.clear();
    assert_eq!(export_crontab(&c), "# Crontab for project: shop\n# Generated by egg\n\n");
}

#[test]
fn supervisor_export_writes_one_file_per_enabled_process() {
    let files = supervisor_files(&config());
    let names: Vec<&str> = files.iter().map(|f| f.file_name.as_str()).collect();
    assert_eq!(names, vec!["shop-queue.conf", "shop-mail.conf"]);
    assert_eq!(files[0].content, generate_supervisor_conf("queue", &worker(), "shop"));
}

#[test]
fn systemd_export_writes_services_then_timers() {
    let files = systemd_files(&config());
    let names: Vec<&str> = files.iter().map(|f| f.file_name.as_str()).collect();
    assert_eq!(
        names,
        vec![
            "shop-queue.service",
            "shop-mail.service",
            "shop-scheduler.service",
            "shop-scheduler.timer",
            "shop-report.service",
            "shop-report.timer",
        ]
    );
    assert!(files[3].content.contains("OnCalendar=*:*\n"));
    assert!(files[5].content.contains("OnCalendar=Mon 2:30\n"));
}

#[test]
fn supervisor_file_names_are_distinct() {
    let mut c = config();
    c.supervisor.push(("queue-x".to_string(), bare("a", true)));
    c.supervisor.push(("x".to_string(), bare("b", true)));
    let files = supervisor_files(&c);
    let mut names: Vec<&str> = files.iter().map(|f| f.file_name.as_str()).collect();
    let n = names.len();
    names.sort();
    names.dedup();
    assert_eq!(names.len(), n);
}
