//! Production configurations generated from the `.eggrc.toml` tables:
//! Supervisor program files, Systemd services and timers, and a crontab.
use vstd::prelude::*;
use crate::config::{
    CronJob, EggConfig, SupervisorProcess, distinct_supervisor_names, enabled_cron_entries,
    enabled_supervisor_entries, law_enabled_supervisors_are_enabled,
};
use crate::text::{
    contains, ends_line, lemma_contains_piece, lemma_line_after,
    chars_of, dec, join, push_chars, push_decimal, same_chars, split_ws, split_whitespace, views,
};

verus! {

/// A file that an export writes: its name inside the output directory and
/// its content.
#[derive(Debug, Clone)]
pub struct GeneratedFile {
    pub file_name: String,
    pub content: String,
}

/// The name and content of each file, as text.
pub open spec fn file_views(fs: Seq<GeneratedFile>) -> Seq<(Seq<char>, Seq<char>)> {
    fs.map_values(|f: GeneratedFile| (f.file_name@, f.content@))
}

/// How `Display` prints a `bool`.
pub open spec fn bool_text(b: bool) -> Seq<char> {
    if b {
        "true"@
    } else {
        "false"@
    }
}

/// `KEY` followed by the value and a line end, if there is a value.
pub open spec fn opt_line(key: Seq<char>, v: Option<String>) -> Seq<char> {
    match v {
        Some(x) => key + x@ + "\n"@,
        None => seq![],
    }
}

/// `k="v"`, one entry of Supervisor's `environment=` line.
pub open spec fn env_assignment(e: (String, String)) -> Seq<char> {
    e.0@ + "=\""@ + e.1@ + "\""@
}

pub open spec fn env_assignments(env: Seq<(String, String)>) -> Seq<Seq<char>> {
    env.map_values(|e: (String, String)| env_assignment(e))
}

/// Supervisor's `environment=` line: the variables, comma-separated.
pub open spec fn supervisor_env_line(env: Option<Vec<(String, String)>>) -> Seq<char> {
    match env {
        Some(e) => "environment="@ + join(env_assignments(e@), ","@) + "\n"@,
        None => seq![],
    }
}

/// The `[program:PROJECT-NAME]` section for one supervisor process.
pub open spec fn supervisor_conf(name: Seq<char>, p: SupervisorProcess, project: Seq<char>) -> Seq<
    char,
> {
    "[program:"@ + project + "-"@ + name + "]\ncommand="@ + p.command@ + "\nprocess_name="@
        + p.process_name@ + "\nnumprocs="@ + dec(p.numprocs as nat) + "\nautostart="@ + bool_text(
        p.autostart,
    ) + "\nautorestart="@ + p.autorestart@ + "\nstartretries="@ + dec(p.startretries as nat)
        + "\nstartsecs="@ + dec(p.startsecs as nat) + "\nstopwaitsecs="@ + dec(
        p.stopwaitsecs as nat,
    ) + "\nredirect_stderr="@ + bool_text(p.redirect_stderr) + "\n"@ + opt_line(
        "directory="@,
        p.directory,
    ) + opt_line("user="@, p.user) + opt_line("stdout_logfile="@, p.stdout_logfile) + opt_line(
        "stderr_logfile="@,
        p.stderr_logfile,
    ) + supervisor_env_line(p.environment)
}

fn push_bool(s: &mut String, b: bool)
    ensures
        final(s)@ == old(s)@ + bool_text(b),
{
    if b {
        s.append("true");
    } else {
        s.append("false");
    }
}

fn push_opt_line(s: &mut String, key: &str, v: &Option<String>)
    ensures
        final(s)@ == old(s)@ + opt_line(key@, *v),
{
    let ghost start = s@;
    match v {
        Some(x) => {
            s.append(key);
            s.append(x.as_str());
            s.append("\n");
            assert(start + key@ + x@ + "\n"@ =~= start + (key@ + x@ + "\n"@));
        },
        None => {
            assert(start + Seq::<char>::empty() =~= start);
        },
    }
}

fn push_supervisor_env_line(s: &mut String, env: &Option<Vec<(String, String)>>)
    ensures
        final(s)@ == old(s)@ + supervisor_env_line(*env),
{
    let ghost start = s@;
    match env {
        Some(e) => {
            s.append("environment=");
            let ghost head = s@;
            let mut i: usize = 0;
            while i < e.len()
                invariant
                    i <= e.len(),
                    s@ == head + join(env_assignments(e@.take(i as int)), ","@),
                decreases e.len() - i,
            {
                let ghost before = s@;
                let ghost parts = env_assignments(e@.take(i + 1));
                assert(parts.drop_last() =~= env_assignments(e@.take(i as int)));
                assert(parts.last() == env_assignment(e@[i as int]));
                if i > 0 {
                    s.append(",");
                }
                s.append(e[i].0.as_str());
                s.append("=\"");
                s.append(e[i].1.as_str());
                s.append("\"");
                if i == 0 {
                    assert(head + join(parts, ","@) =~= head + Seq::<char>::empty() + e@[0].0@
                        + "=\""@ + e@[0].1@ + "\""@);
                } else {
                    assert(head + join(parts, ","@) =~= before + ","@ + e@[i as int].0@ + "=\""@
                        + e@[i as int].1@ + "\""@);
                }
                i += 1;
            }
            assert(e@.take(e.len() as int) =~= e@);
            s.append("\n");
            assert(s@ =~= start + supervisor_env_line(*env));
        },
        None => {
            assert(start + Seq::<char>::empty() =~= start);
        },
    }
}

pub fn generate_supervisor_conf(name: &str, process: &SupervisorProcess, project_name: &str) -> (r:
    String)
    ensures
        r@ == supervisor_conf(name@, *process, project_name@),
        process.directory matches Some(d) ==> contains(r@, seq!['\n'] + ("directory="@ + d@ + "\n"@)),
        process.user matches Some(u) ==> contains(r@, seq!['\n'] + ("user="@ + u@ + "\n"@)),
        process.stdout_logfile matches Some(f) ==> contains(
            r@,
            seq!['\n'] + ("stdout_logfile="@ + f@ + "\n"@),
        ),
        process.stderr_logfile matches Some(f) ==> contains(
            r@,
            seq!['\n'] + ("stderr_logfile="@ + f@ + "\n"@),
        ),
{
    proof {
        law_supervisor_optional_settings(name@, *process, project_name@);
    }
    let mut conf = "[program:".to_string();
    conf.append(project_name);
    conf.append("-");
    conf.append(name);
    conf.append("]\ncommand=");
    conf.append(process.command.as_str());
    conf.append("\nprocess_name=");
    conf.append(process.process_name.as_str());
    conf.append("\nnumprocs=");
    push_decimal(&mut conf, process.numprocs as u64);
    conf.append("\nautostart=");
    push_bool(&mut conf, process.autostart);
    conf.append("\nautorestart=");
    conf.append(process.autorestart.as_str());
    conf.append("\nstartretries=");
    push_decimal(&mut conf, process.startretries as u64);
    conf.append("\nstartsecs=");
    push_decimal(&mut conf, process.startsecs as u64);
    conf.append("\nstopwaitsecs=");
    push_decimal(&mut conf, process.stopwaitsecs as u64);
    conf.append("\nredirect_stderr=");
    push_bool(&mut conf, process.redirect_stderr);
    conf.append("\n");
    push_opt_line(&mut conf, "directory=", &process.directory);
    push_opt_line(&mut conf, "user=", &process.user);
    push_opt_line(&mut conf, "stdout_logfile=", &process.stdout_logfile);
    push_opt_line(&mut conf, "stderr_logfile=", &process.stderr_logfile);
    push_supervisor_env_line(&mut conf, &process.environment);
    conf
}


/// Systemd's restart policy for Supervisor's `autorestart` setting.
pub open spec fn restart_policy(autorestart: Seq<char>) -> Seq<char> {
    if autorestart == "true"@ {
        "always"@
    } else {
        "no"@
    }
}

/// One `Environment="k=v"` line per variable.
pub open spec fn systemd_env_lines(env: Seq<(String, String)>) -> Seq<char>
    decreases env.len(),
{
    if env.len() == 0 {
        seq![]
    } else {
        systemd_env_lines(env.drop_last()) + "Environment=\""@ + env.last().0@ + "="@
            + env.last().1@ + "\"\n"@
    }
}

pub open spec fn systemd_env(env: Option<Vec<(String, String)>>) -> Seq<char> {
    match env {
        Some(e) => systemd_env_lines(e@),
        None => seq![],
    }
}

/// The `.service` unit for one supervisor process.
pub open spec fn systemd_service(name: Seq<char>, p: SupervisorProcess, project: Seq<char>) -> Seq<
    char,
> {
    "[Unit]\nDescription="@ + project + "-"@ + name
        + " worker\nAfter=network.target\n\n[Service]\nType=simple\nExecStart="@ + p.command@
        + "\nRestart="@ + restart_policy(p.autorestart@) + "\nRestartSec=5\n"@ + opt_line(
        "WorkingDirectory="@,
        p.directory,
    ) + opt_line("User="@, p.user) + systemd_env(p.environment)
        + "\n[Install]\nWantedBy=multi-user.target\n"@
}

fn push_systemd_env(s: &mut String, env: &Option<Vec<(String, String)>>)
    ensures
        final(s)@ == old(s)@ + systemd_env(*env),
{
    let ghost start = s@;
    match env {
        Some(e) => {
            let mut i: usize = 0;
            assert(e@.take(0) =~= Seq::<(String, String)>::empty());
            assert(start + Seq::<char>::empty() =~= start);
            while i < e.len()
                invariant
                    i <= e.len(),
                    s@ == start + systemd_env_lines(e@.take(i as int)),
                decreases e.len() - i,
            {
                let ghost before = s@;
                assert(e@.take(i + 1).drop_last() =~= e@.take(i as int));
                s.append("Environment=\"");
                s.append(e[i].0.as_str());
                s.append("=");
                s.append(e[i].1.as_str());
                s.append("\"\n");
                assert(s@ =~= start + systemd_env_lines(e@.take(i + 1)));
                i += 1;
            }
            assert(e@.take(e.len() as int) =~= e@);
        },
        None => {
            assert(start + Seq::<char>::empty() =~= start);
        },
    }
}

pub fn generate_systemd_service(name: &str, process: &SupervisorProcess, project_name: &str) -> (r:
    String)
    ensures
        r@ == systemd_service(name@, *process, project_name@),
        process.autorestart@ == "true"@ ==> contains(r@, "\nRestart="@ + "always"@ + "\n"@),
        process.autorestart@ != "true"@ ==> contains(r@, "\nRestart="@ + "no"@ + "\n"@),
{
    proof {
        law_systemd_restart_setting(name@, *process, project_name@);
    }
    let mut service = "[Unit]\nDescription=".to_string();
    service.append(project_name);
    service.append("-");
    service.append(name);
    service.append(" worker\nAfter=network.target\n\n[Service]\nType=simple\nExecStart=");
    service.append(process.command.as_str());
    service.append("\nRestart=");
    if crate::text::str_is(process.autorestart.as_str(), "true") {
        service.append("always");
    } else {
        service.append("no");
    }
    service.append("\nRestartSec=5\n");
    push_opt_line(&mut service, "WorkingDirectory=", &process.directory);
    push_opt_line(&mut service, "User=", &process.user);
    push_systemd_env(&mut service, &process.environment);
    service.append("\n[Install]\nWantedBy=multi-user.target\n");
    service
}

/// The description of a cron job's service: its own, or the unit's name.
pub open spec fn cron_description(name: Seq<char>, c: CronJob, project: Seq<char>) -> Seq<char> {
    match c.description {
        Some(d) => d@,
        None => project + "-"@ + name,
    }
}

/// The oneshot `.service` unit that runs a cron job's command.
pub open spec fn cron_service(name: Seq<char>, c: CronJob, project: Seq<char>) -> Seq<char> {
    "[Unit]\nDescription="@ + cron_description(name, c, project)
        + "\n\n[Service]\nType=oneshot\nExecStart=/bin/sh -c '"@ + c.command@ + "'\n"@ + (match c.user {
        Some(u) => "User="@ + u@,
        None => seq![],
    }) + "\n"@
}

/// The `.timer` unit that triggers a cron job's service.
pub open spec fn cron_timer(name: Seq<char>, c: CronJob, project: Seq<char>) -> Seq<char> {
    "[Unit]\nDescription=Timer for "@ + project + "-"@ + name + "\n\n[Timer]\nOnCalendar="@
        + systemd_calendar(c.schedule@) + "\nPersistent=true\n\n[Install]\nWantedBy=timers.target\n"@
}

pub fn generate_systemd_timer(name: &str, cron: &CronJob, project_name: &str) -> (r: (
    String,
    String,
))
    ensures
        r.0@ == cron_service(name@, *cron, project_name@),
        r.1@ == cron_timer(name@, *cron, project_name@),
{
    let on_calendar = cron_to_systemd_calendar(cron.schedule.as_str());
    let mut service = "[Unit]\nDescription=".to_string();
    let ghost head = service@;
    match &cron.description {
        Some(d) => {
            service.append(d.as_str());
        },
        None => {
            service.append(project_name);
            service.append("-");
            service.append(name);
            assert(service@ =~= head + (project_name@ + "-"@ + name@));
        },
    }
    service.append("\n\n[Service]\nType=oneshot\nExecStart=/bin/sh -c '");
    service.append(cron.command.as_str());
    service.append("'\n");
    let ghost before_user = service@;
    match &cron.user {
        Some(u) => {
            service.append("User=");
            service.append(u.as_str());
            assert(service@ =~= before_user + ("User="@ + u@));
        },
        None => {
            assert(before_user + Seq::<char>::empty() =~= before_user);
        },
    }
    service.append("\n");
    let mut timer = "[Unit]\nDescription=Timer for ".to_string();
    timer.append(project_name);
    timer.append("-");
    timer.append(name);
    timer.append("\n\n[Timer]\nOnCalendar=");
    timer.append(on_calendar.as_str());
    timer.append("\nPersistent=true\n\n[Install]\nWantedBy=timers.target\n");
    (service, timer)
}

/// The Systemd day name for a cron weekday; other fields are kept as written.
pub open spec fn weekday_name(w: Seq<char>) -> Seq<char> {
    if w == "0"@ || w == "7"@ {
        "Sun"@
    } else if w == "1"@ {
        "Mon"@
    } else if w == "2"@ {
        "Tue"@
    } else if w == "3"@ {
        "Wed"@
    } else if w == "4"@ {
        "Thu"@
    } else if w == "5"@ {
        "Fri"@
    } else if w == "6"@ {
        "Sat"@
    } else {
        w
    }
}

pub fn convert_weekday(cron_weekday: &str) -> (r: String)
    ensures
        r@ == weekday_name(cron_weekday@),
{
    if crate::text::str_is(cron_weekday, "0") || crate::text::str_is(cron_weekday, "7") {
        "Sun".to_string()
    } else if crate::text::str_is(cron_weekday, "1") {
        "Mon".to_string()
    } else if crate::text::str_is(cron_weekday, "2") {
        "Tue".to_string()
    } else if crate::text::str_is(cron_weekday, "3") {
        "Wed".to_string()
    } else if crate::text::str_is(cron_weekday, "4") {
        "Thu".to_string()
    } else if crate::text::str_is(cron_weekday, "5") {
        "Fri".to_string()
    } else if crate::text::str_is(cron_weekday, "6") {
        "Sat".to_string()
    } else {
        cron_weekday.to_string()
    }
}

/// The `OnCalendar=` value for a five-field cron expression: the weekday, a
/// date when day or month is restricted, and `HOUR:MINUTE`. Anything that is
/// not five fields, and `* * * * *`, runs every minute.
pub open spec fn systemd_calendar(cron: Seq<char>) -> Seq<char> {
    let parts = split_ws(cron);
    if parts.len() != 5 {
        "*:*"@
    } else if cron == "* * * * *"@ {
        "*:*"@
    } else {
        let minute = parts[0];
        let hour = parts[1];
        let day = parts[2];
        let month = parts[3];
        let weekday = parts[4];
        (if weekday != "*"@ {
            weekday_name(weekday) + " "@
        } else {
            seq![]
        }) + (if month != "*"@ || day != "*"@ {
            "*-"@ + month + "-"@ + day + " "@
        } else {
            seq![]
        }) + hour + ":"@ + minute
    }
}

/// Convert cron expression to systemd OnCalendar format
/// This is a simplified conversion - complex cron expressions may need manual adjustment
pub fn cron_to_systemd_calendar(cron: &str) -> (r: String)
    ensures
        r@ == systemd_calendar(cron@),
{
    let chars = chars_of(cron);
    let parts = split_whitespace(&chars);
    if parts.len() != 5 {
        return "*:*".to_string();
    }
    if crate::text::str_is(cron, "* * * * *") {
        return "*:*".to_string();
    }
    let ghost ps = split_ws(cron@);
    assert(views(parts@)[0] == parts@[0]@);
    assert(views(parts@)[1] == parts@[1]@);
    assert(views(parts@)[2] == parts@[2]@);
    assert(views(parts@)[3] == parts@[3]@);
    assert(views(parts@)[4] == parts@[4]@);
    let star = chars_of("*");
    let mut calendar = String::new();
    let ghost start = calendar@;
    let weekday_restricted = !same_chars(&parts[4], &star);
    if weekday_restricted {
        let w = crate::text::string_of(&parts[4]);
        let name = convert_weekday(w.as_str());
        calendar.append(name.as_str());
        calendar.append(" ");
    }
    let ghost wd_part = if ps[4] != "*"@ {
        weekday_name(ps[4]) + " "@
    } else {
        seq![]
    };
    assert(calendar@ =~= wd_part);
    let date_restricted = !same_chars(&parts[3], &star) || !same_chars(&parts[2], &star);
    if date_restricted {
        calendar.append("*-");
        push_chars(&mut calendar, &parts[3]);
        calendar.append("-");
        push_chars(&mut calendar, &parts[2]);
        calendar.append(" ");
    }
    let ghost date_part = if ps[3] != "*"@ || ps[2] != "*"@ {
        "*-"@ + ps[3] + "-"@ + ps[2] + " "@
    } else {
        seq![]
    };
    assert(calendar@ =~= wd_part + date_part);
    push_chars(&mut calendar, &parts[1]);
    calendar.append(":");
    push_chars(&mut calendar, &parts[0]);
    assert(calendar@ =~= wd_part + date_part + ps[1] + ":"@ + ps[0]);
    calendar
}


/// The crontab lines of one job: its description as a comment if it has
/// one, its name as a comment, then the schedule and the command.
pub open spec fn crontab_entry(name: Seq<char>, c: CronJob) -> Seq<char> {
    (match c.description {
        Some(d) => "# "@ + d@ + "\n"@,
        None => seq![],
    }) + "# "@ + name + "\n"@ + c.schedule@ + " "@ + c.command@ + "\n\n"@
}

/// The crontab lines of the enabled jobs, in the order of the table.
pub open spec fn crontab_entries(s: Seq<(String, CronJob)>) -> Seq<char>
    decreases s.len(),
{
    if s.len() == 0 {
        seq![]
    } else {
        crontab_entries(s.drop_last()) + (if s.last().1.enabled {
            crontab_entry(s.last().0@, s.last().1)
        } else {
            seq![]
        })
    }
}

/// The whole crontab of a project.
pub open spec fn crontab(config: EggConfig) -> Seq<char> {
    "# Crontab for project: "@ + config.project.name@ + "\n"@ + "# Generated by egg\n\n"@
        + crontab_entries(config.cron@)
}

/// Export configuration to crontab format
pub fn export_crontab(config: &EggConfig) -> (r: String)
    ensures
        r@ == crontab(*config),
{
    let mut crontab = "# Crontab for project: ".to_string();
    crontab.append(config.project.name.as_str());
    crontab.append("\n");
    crontab.append("# Generated by egg\n\n");
    let ghost head = crontab@;
    let mut i: usize = 0;
    assert(head + Seq::<char>::empty() =~= head);
    while i < config.cron.len()
        invariant
            i <= config.cron.len(),
            crontab@ == head + crontab_entries(config.cron@.take(i as int)),
        decreases config.cron.len() - i,
    {
        let ghost before = crontab@;
        assert(config.cron@.take(i + 1).drop_last() =~= config.cron@.take(i as int));
        let name = &config.cron[i].0;
        let cron = &config.cron[i].1;
        if cron.enabled {
            match &cron.description {
                Some(desc) => {
                    crontab.append("# ");
                    crontab.append(desc.as_str());
                    crontab.append("\n");
                },
                None => {},
            }
            crontab.append("# ");
            crontab.append(name.as_str());
            crontab.append("\n");
            crontab.append(cron.schedule.as_str());
            crontab.append(" ");
            crontab.append(cron.command.as_str());
            crontab.append("\n\n");
            assert(crontab@ =~= before + crontab_entry(name@, *cron));
        } else {
            assert(before + Seq::<char>::empty() =~= before);
        }
        assert(crontab@ =~= head + crontab_entries(config.cron@.take(i + 1)));
        i += 1;
    }
    assert(config.cron@.take(i as int) =~= config.cron@);
    crontab
}

/// The name of the unit files of an entry: `PROJECT-NAME`.
pub open spec fn unit_name(project: Seq<char>, name: Seq<char>) -> Seq<char> {
    project + "-"@ + name
}

/// The Supervisor files for the enabled processes, in the order of the table.
pub open spec fn supervisor_exports(project: Seq<char>, s: Seq<(String, SupervisorProcess)>) -> Seq<
    (Seq<char>, Seq<char>),
>
    decreases s.len(),
{
    if s.len() == 0 {
        seq![]
    } else if s.last().1.enabled {
        supervisor_exports(project, s.drop_last()).push(
            (
                unit_name(project, s.last().0@) + ".conf"@,
                supervisor_conf(s.last().0@, s.last().1, project),
            ),
        )
    } else {
        supervisor_exports(project, s.drop_last())
    }
}

fn unit_file_name(project: &str, name: &str, suffix: &str) -> (r: String)
    ensures
        r@ == unit_name(project@, name@) + suffix@,
{
    let mut r = project.to_string();
    r.append("-");
    r.append(name);
    r.append(suffix);
    r
}

/// The files that a Supervisor export writes: one `PROJECT-NAME.conf` for
/// each enabled process.
pub fn supervisor_files(config: &EggConfig) -> (files: Vec<GeneratedFile>)
    ensures
        file_views(files@) == supervisor_exports(config.project.name@, config.supervisor@),
{
    let project = config.project.name.as_str();
    let mut files: Vec<GeneratedFile> = Vec::new();
    let mut i: usize = 0;
    assert(file_views(files@) =~= Seq::<(Seq<char>, Seq<char>)>::empty());
    while i < config.supervisor.len()
        invariant
            i <= config.supervisor.len(),
            project@ == config.project.name@,
            file_views(files@) == supervisor_exports(project@, config.supervisor@.take(i as int)),
        decreases config.supervisor.len() - i,
    {
        let ghost before = files@;
        assert(config.supervisor@.take(i + 1).drop_last() =~= config.supervisor@.take(i as int));
        let name = &config.supervisor[i].0;
        let process = &config.supervisor[i].1;
        if process.enabled {
            let file = GeneratedFile {
                file_name: unit_file_name(project, name.as_str(), ".conf"),
                content: generate_supervisor_conf(name.as_str(), process, project),
            };
            files.push(file);
            assert(file_views(files@) =~= file_views(before).push(
                (file_views(files@).last().0, file_views(files@).last().1),
            ));
        }
        i += 1;
    }
    assert(config.supervisor@.take(i as int) =~= config.supervisor@);
    files
}

/// The Systemd services for the enabled processes.
pub open spec fn service_exports(project: Seq<char>, s: Seq<(String, SupervisorProcess)>) -> Seq<
    (Seq<char>, Seq<char>),
>
    decreases s.len(),
{
    if s.len() == 0 {
        seq![]
    } else if s.last().1.enabled {
        service_exports(project, s.drop_last()).push(
            (
                unit_name(project, s.last().0@) + ".service"@,
                systemd_service(s.last().0@, s.last().1, project),
            ),
        )
    } else {
        service_exports(project, s.drop_last())
    }
}

/// The Systemd service and timer of each enabled cron job.
pub open spec fn timer_exports(project: Seq<char>, s: Seq<(String, CronJob)>) -> Seq<
    (Seq<char>, Seq<char>),
>
    decreases s.len(),
{
    if s.len() == 0 {
        seq![]
    } else if s.last().1.enabled {
        timer_exports(project, s.drop_last()).push(
            (unit_name(project, s.last().0@) + ".service"@, cron_service(s.last().0@, s.last().1, project)),
        ).push((unit_name(project, s.last().0@) + ".timer"@, cron_timer(s.last().0@, s.last().1, project)))
    } else {
        timer_exports(project, s.drop_last())
    }
}

/// The files that a Systemd export writes, in the order it writes them: a
/// `.service` for each enabled process, then a `.service` and a `.timer`
/// for each enabled cron job.
pub fn systemd_files(config: &EggConfig) -> (files: Vec<GeneratedFile>)
    ensures
        file_views(files@) == service_exports(config.project.name@, config.supervisor@)
            + timer_exports(config.project.name@, config.cron@),
{
    let project = config.project.name.as_str();
    let mut files: Vec<GeneratedFile> = Vec::new();
    let mut i: usize = 0;
    assert(file_views(files@) =~= Seq::<(Seq<char>, Seq<char>)>::empty());
    while i < config.supervisor.len()
        invariant
            i <= config.supervisor.len(),
            project@ == config.project.name@,
            file_views(files@) == service_exports(project@, config.supervisor@.take(i as int)),
        decreases config.supervisor.len() - i,
    {
        let ghost before = files@;
        assert(config.supervisor@.take(i + 1).drop_last() =~= config.supervisor@.take(i as int));
        let name = &config.supervisor[i].0;
        let process = &config.supervisor[i].1;
        if process.enabled {
            let file = GeneratedFile {
                file_name: unit_file_name(project, name.as_str(), ".service"),
                content: generate_systemd_service(name.as_str(), process, project),
            };
            files.push(file);
            assert(file_views(files@) =~= file_views(before).push(
                (file_views(files@).last().0, file_views(files@).last().1),
            ));
        }
        i += 1;
    }
    assert(config.supervisor@.take(i as int) =~= config.supervisor@);
    let ghost services = file_views(files@);
    let mut j: usize = 0;
    assert(services + Seq::<(Seq<char>, Seq<char>)>::empty() =~= services);
    while j < config.cron.len()
        invariant
            j <= config.cron.len(),
            project@ == config.project.name@,
            file_views(files@) == services + timer_exports(project@, config.cron@.take(j as int)),
        decreases config.cron.len() - j,
    {
        let ghost before = files@;
        assert(config.cron@.take(j + 1).drop_last() =~= config.cron@.take(j as int));
        let name = &config.cron[j].0;
        let cron = &config.cron[j].1;
        if cron.enabled {
            let (service, timer) = generate_systemd_timer(name.as_str(), cron, project);
            files.push(
                GeneratedFile {
                    file_name: unit_file_name(project, name.as_str(), ".service"),
                    content: service,
                },
            );
            files.push(
                GeneratedFile {
                    file_name: unit_file_name(project, name.as_str(), ".timer"),
                    content: timer,
                },
            );
            assert(file_views(files@) =~= file_views(before).push(file_views(files@)[files@.len() - 2]).push(
                file_views(files@).last(),
            ));
        }
        j += 1;
    }
    assert(config.cron@.take(j as int) =~= config.cron@);
    files
}


/// The Supervisor file of one process.
pub open spec fn supervisor_export(project: Seq<char>, e: (String, SupervisorProcess)) -> (
    Seq<char>,
    Seq<char>,
) {
    (unit_name(project, e.0@) + ".conf"@, supervisor_conf(e.0@, e.1, project))
}

/// A Supervisor export writes exactly one file for each enabled process,
/// in the order of the table, and none for a disabled one.
pub proof fn law_supervisor_export_per_enabled_process(
    project: Seq<char>,
    s: Seq<(String, SupervisorProcess)>,
)
    ensures
        supervisor_exports(project, s) == enabled_supervisor_entries(s).map_values(
            |e: (String, SupervisorProcess)| supervisor_export(project, e),
        ),
    decreases s.len(),
{
    if s.len() > 0 {
        law_supervisor_export_per_enabled_process(project, s.drop_last());
        let f = |e: (String, SupervisorProcess)| supervisor_export(project, e);
        let d = enabled_supervisor_entries(s.drop_last());
        if s.last().1.enabled {
            assert(d.push(s.last()).map_values(f) =~= d.map_values(f).push(f(s.last())));
        }
    }
}

/// The crontab holds the lines of the enabled jobs only: dropping the
/// disabled jobs from the table does not change it.
pub proof fn law_crontab_lists_enabled_jobs(s: Seq<(String, CronJob)>)
    ensures
        crontab_entries(s) == crontab_entries(enabled_cron_entries(s)),
    decreases s.len(),
{
    if s.len() > 0 {
        law_crontab_lists_enabled_jobs(s.drop_last());
        let d = enabled_cron_entries(s.drop_last());
        if s.last().1.enabled {
            assert(d.push(s.last()).drop_last() =~= d);
            assert(crontab_entries(d.push(s.last())) == crontab_entries(d) + crontab_entry(
                s.last().0@,
                s.last().1,
            ));
        } else {
            assert(crontab_entries(s) =~= crontab_entries(s.drop_last()) + Seq::<char>::empty());
        }
    }
}

/// The Systemd service of one process.
pub open spec fn service_export(project: Seq<char>, e: (String, SupervisorProcess)) -> (
    Seq<char>,
    Seq<char>,
) {
    (unit_name(project, e.0@) + ".service"@, systemd_service(e.0@, e.1, project))
}

/// A Systemd export writes one service for each enabled process, in the
/// order of the table, and a service and a timer for each enabled cron job.
pub proof fn law_systemd_export_per_enabled_entry(
    project: Seq<char>,
    s: Seq<(String, SupervisorProcess)>,
    c: Seq<(String, CronJob)>,
)
    ensures
        service_exports(project, s) == enabled_supervisor_entries(s).map_values(
            |e: (String, SupervisorProcess)| service_export(project, e),
        ),
        timer_exports(project, c).len() == 2 * enabled_cron_entries(c).len(),
    decreases s.len() + c.len(),
{
    if s.len() > 0 {
        law_systemd_export_per_enabled_entry(project, s.drop_last(), c);
        let f = |e: (String, SupervisorProcess)| service_export(project, e);
        let d = enabled_supervisor_entries(s.drop_last());
        if s.last().1.enabled {
            assert(d.push(s.last()).map_values(f) =~= d.map_values(f).push(f(s.last())));
        }
    } else if c.len() > 0 {
        law_systemd_export_per_enabled_entry(project, s, c.drop_last());
    }
}

proof fn lemma_enabled_names_distinct(s: Seq<(String, SupervisorProcess)>)
    requires
        distinct_supervisor_names(s),
    ensures
        distinct_supervisor_names(enabled_supervisor_entries(s)),
    decreases s.len(),
{
    if s.len() > 0 {
        lemma_enabled_names_distinct(s.drop_last());
        law_enabled_supervisors_are_enabled(s.drop_last());
        let d = enabled_supervisor_entries(s.drop_last());
        let e = enabled_supervisor_entries(s);
        if s.last().1.enabled {
            assert forall|i: int, j: int| 0 <= i < j < e.len() implies e[i].0@ != e[j].0@ by {
                if j == e.len() - 1 {
                    assert(e[i] == d[i]);
                    assert(s.drop_last().contains(d[i]));
                    let k = choose|k: int| 0 <= k < s.drop_last().len() && s.drop_last()[k] == d[i];
                    assert(s[k] == d[i]);
                    assert(e[j] == s[s.len() - 1]);
                } else {
                    assert(e[i] == d[i]);
                    assert(e[j] == d[j]);
                }
            }
        }
    }
}

proof fn lemma_unit_file_injective(project: Seq<char>, a: Seq<char>, b: Seq<char>, suffix: Seq<char>)
    requires
        unit_name(project, a) + suffix == unit_name(project, b) + suffix,
    ensures
        a == b,
{
    let x = unit_name(project, a) + suffix;
    let y = unit_name(project, b) + suffix;
    let start: int = (project.len() + "-"@.len()) as int;
    assert(x.len() == y.len());
    assert(a.len() == b.len());
    assert(x.subrange(start, start + a.len()) =~= a);
    assert(y.subrange(start, start + b.len()) =~= b);
}

/// In a configuration that names no process twice, every file of a
/// Supervisor export has its own name.
pub proof fn law_supervisor_file_names_distinct(config: EggConfig)
    requires
        config.wf(),
    ensures
        forall|i: int, j: int|
            0 <= i < j < supervisor_exports(config.project.name@, config.supervisor@).len() ==> (
            #[trigger] supervisor_exports(config.project.name@, config.supervisor@)[i]).0 != (
            #[trigger] supervisor_exports(config.project.name@, config.supervisor@)[j]).0,
{
    let p = config.project.name@;
    let s = config.supervisor@;
    law_supervisor_export_per_enabled_process(p, s);
    lemma_enabled_names_distinct(s);
    let e = enabled_supervisor_entries(s);
    assert forall|i: int, j: int| 0 <= i < j < supervisor_exports(p, s).len() implies (
    #[trigger] supervisor_exports(p, s)[i]).0 != (#[trigger] supervisor_exports(p, s)[j]).0 by {
        assert(supervisor_exports(p, s)[i] == supervisor_export(p, e[i]));
        assert(supervisor_exports(p, s)[j] == supervisor_export(p, e[j]));
        if supervisor_exports(p, s)[i].0 == supervisor_exports(p, s)[j].0 {
            lemma_unit_file_injective(p, e[i].0@, e[j].0@, ".conf"@);
        }
    }
}


proof fn lemma_opt_line_keeps_line_end(prefix: Seq<char>, key: Seq<char>, v: Option<String>)
    requires
        ends_line(prefix),
    ensures
        ends_line(prefix + opt_line(key, v)),
{
    reveal_strlit("\n");
    match v {
        Some(x) => {
            assert((prefix + opt_line(key, v)).last() == "\n"@[0]);
        },
        None => {
            assert(prefix + opt_line(key, v) =~= prefix);
        },
    }
}

/// Each optional Supervisor setting that is given is written on a line of
/// its own under its own key, with its own value.
pub proof fn law_supervisor_optional_settings(name: Seq<char>, p: SupervisorProcess, project: Seq<char>)
    ensures
        p.directory matches Some(d) ==> contains(
            supervisor_conf(name, p, project),
            seq!['\n'] + ("directory="@ + d@ + "\n"@),
        ),
        p.user matches Some(u) ==> contains(
            supervisor_conf(name, p, project),
            seq!['\n'] + ("user="@ + u@ + "\n"@),
        ),
        p.stdout_logfile matches Some(f) ==> contains(
            supervisor_conf(name, p, project),
            seq!['\n'] + ("stdout_logfile="@ + f@ + "\n"@),
        ),
        p.stderr_logfile matches Some(f) ==> contains(
            supervisor_conf(name, p, project),
            seq!['\n'] + ("stderr_logfile="@ + f@ + "\n"@),
        ),
{
    reveal_strlit("\n");
    let head = "[program:"@ + project + "-"@ + name + "]\ncommand="@ + p.command@ + "\nprocess_name="@
        + p.process_name@ + "\nnumprocs="@ + dec(p.numprocs as nat) + "\nautostart="@ + bool_text(
        p.autostart,
    ) + "\nautorestart="@ + p.autorestart@ + "\nstartretries="@ + dec(p.startretries as nat)
        + "\nstartsecs="@ + dec(p.startsecs as nat) + "\nstopwaitsecs="@ + dec(
        p.stopwaitsecs as nat,
    ) + "\nredirect_stderr="@ + bool_text(p.redirect_stderr) + "\n"@;
    let o1 = opt_line("directory="@, p.directory);
    let o2 = opt_line("user="@, p.user);
    let o3 = opt_line("stdout_logfile="@, p.stdout_logfile);
    let o4 = opt_line("stderr_logfile="@, p.stderr_logfile);
    let env = supervisor_env_line(p.environment);
    let conf = supervisor_conf(name, p, project);
    assert(conf == head + o1 + o2 + o3 + o4 + env);
    assert(head.last() == "\n"@[0]);
    assert(ends_line(head));
    lemma_opt_line_keeps_line_end(head, "directory="@, p.directory);
    lemma_opt_line_keeps_line_end(head + o1, "user="@, p.user);
    lemma_opt_line_keeps_line_end(head + o1 + o2, "stdout_logfile="@, p.stdout_logfile);
    if p.directory is Some {
        lemma_line_after(head, o1, o2 + o3 + o4 + env);
        assert(head + o1 + (o2 + o3 + o4 + env) =~= conf);
    }
    if p.user is Some {
        lemma_line_after(head + o1, o2, o3 + o4 + env);
        assert(head + o1 + o2 + (o3 + o4 + env) =~= conf);
    }
    if p.stdout_logfile is Some {
        lemma_line_after(head + o1 + o2, o3, o4 + env);
        assert(head + o1 + o2 + o3 + (o4 + env) =~= conf);
    }
    if p.stderr_logfile is Some {
        lemma_line_after(head + o1 + o2 + o3, o4, env);
    }
}

/// Systemd restarts a process always exactly when its `autorestart` is
/// `true`; for any other value (`false`, `unexpected`, ...) the unit says
/// `Restart=no`.
pub proof fn law_systemd_restart_setting(name: Seq<char>, p: SupervisorProcess, project: Seq<char>)
    ensures
        p.autorestart@ == "true"@ ==> contains(
            systemd_service(name, p, project),
            "\nRestart="@ + "always"@ + "\n"@,
        ),
        p.autorestart@ != "true"@ ==> contains(
            systemd_service(name, p, project),
            "\nRestart="@ + "no"@ + "\n"@,
        ),
{
    reveal_strlit("\n");
    reveal_strlit("\nRestartSec=5\n");
    reveal_strlit("RestartSec=5\n");
    let head = "[Unit]\nDescription="@ + project + "-"@ + name
        + " worker\nAfter=network.target\n\n[Service]\nType=simple\nExecStart="@ + p.command@;
    let w = restart_policy(p.autorestart@);
    let tail = opt_line("WorkingDirectory="@, p.directory) + opt_line("User="@, p.user) + systemd_env(
        p.environment,
    ) + "\n[Install]\nWantedBy=multi-user.target\n"@;
    let service = systemd_service(name, p, project);
    assert(service == head + "\nRestart="@ + w + "\nRestartSec=5\n"@ + opt_line(
        "WorkingDirectory="@,
        p.directory,
    ) + opt_line("User="@, p.user) + systemd_env(p.environment)
        + "\n[Install]\nWantedBy=multi-user.target\n"@);
    assert("\nRestartSec=5\n"@ =~= "\n"@ + "RestartSec=5\n"@);
    assert(service =~= head + ("\nRestart="@ + w + "\n"@) + ("RestartSec=5\n"@ + tail));
    lemma_contains_piece(head, "\nRestart="@ + w + "\n"@, "RestartSec=5\n"@ + tail);
}

} // verus!
