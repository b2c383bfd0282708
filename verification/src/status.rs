//! What the command line shows and decides: readable cron schedules, the
//! rows of the status tables, the services that `up` starts, the schedules
//! that `validate` flags, and the file that `init` writes.
use vstd::prelude::*;
use crate::config::{
    CronJob, EggConfig, SupervisorProcess, deref_pairs, enabled_cron_entries,
    enabled_supervisor_entries,
};
use crate::text::{
    law_split_gives_words, law_split_keeps_words_whole,
    chars_of, contains, contains_chars, dec, join, lines, parse_u32, parse_u32_chars, push_chars,
    push_decimal, same_chars, slice_chars, split_lines, split_whitespace, split_ws, starts_with,
    string_of, trim, trim_chars, views,
};

verus! {

fn is_star(v: &Vec<char>) -> (r: bool)
    ensures
        r == (v@ == "*"@),
{
    let star = chars_of("*");
    same_chars(v, &star)
}

fn is_text(v: &Vec<char>, t: &str) -> (r: bool)
    ensures
        r == (v@ == t@),
{
    let t = chars_of(t);
    same_chars(v, &t)
}

/// A readable description of a five-field cron schedule, or `custom`.
pub open spec fn human_schedule(expr: Seq<char>) -> Seq<char> {
    let parts = split_ws(trim(expr));
    if parts.len() != 5 {
        "custom"@
    } else {
        let minute = parts[0];
        let hour = parts[1];
        let day = parts[2];
        let month = parts[3];
        let weekday = parts[4];
        let any_date = day == "*"@ && month == "*"@ && weekday == "*"@;
        if minute == "*"@ && hour == "*"@ && any_date {
            "every minute"@
        } else if starts_with(minute, "*/"@) && hour == "*"@ && any_date && parse_u32(
            minute.skip(2),
        ) is Some {
            "every "@ + dec(parse_u32(minute.skip(2))->0 as nat) + " minutes"@
        } else if hour == "*"@ && any_date && minute != "*"@ {
            "hourly at minute "@ + minute
        } else if minute == "0"@ && starts_with(hour, "*/"@) && any_date && parse_u32(hour.skip(2)) is Some {
            "every "@ + dec(parse_u32(hour.skip(2))->0 as nat) + " hours"@
        } else if any_date && minute != "*"@ && hour != "*"@ {
            "daily at "@ + hour + ":"@ + minute
        } else if day == "*"@ && month == "*"@ && weekday != "*"@ && minute != "*"@ && hour != "*"@ {
            "weekly on "@ + weekday + " at "@ + hour + ":"@ + minute
        } else {
            "custom"@
        }
    }
}

/// `*/N`: the value of `N`, if the field is a step over the whole range.
fn step_value(field: &Vec<char>) -> (r: Option<u32>)
    ensures
        r == (if starts_with(field@, "*/"@) {
            parse_u32(field@.skip(2))
        } else {
            None
        }),
{
    let prefix = chars_of("*/");
    proof {
        reveal_strlit("*/");
    }
    if crate::text::matches_at(field, 0, &prefix) {
        assert(field@.skip(0) =~= field@);
        let rest = slice_chars(field, 2, field.len());
        assert(rest@ =~= field@.skip(2));
        parse_u32_chars(&rest)
    } else {
        assert(field@.skip(0) =~= field@);
        None
    }
}

pub fn cron_human_readable(expr: &str) -> (r: String)
    ensures
        r@ == human_schedule(expr@),
{
    let chars = chars_of(expr);
    let s = trim_chars(&chars);
    let parts = split_whitespace(&s);
    if parts.len() != 5 {
        return "custom".to_string();
    }
    assert(views(parts@)[0] == parts@[0]@);
    assert(views(parts@)[1] == parts@[1]@);
    assert(views(parts@)[2] == parts@[2]@);
    assert(views(parts@)[3] == parts@[3]@);
    assert(views(parts@)[4] == parts@[4]@);
    let minute = &parts[0];
    let hour = &parts[1];
    let day = &parts[2];
    let month = &parts[3];
    let weekday = &parts[4];
    let any_date = is_star(day) && is_star(month) && is_star(weekday);
    if is_star(minute) && is_star(hour) && any_date {
        return "every minute".to_string();
    }
    if is_star(hour) && any_date {
        if let Some(n) = step_value(minute) {
            let mut r = "every ".to_string();
            push_decimal(&mut r, n as u64);
            r.append(" minutes");
            return r;
        }
    }
    if is_star(hour) && any_date && !is_star(minute) {
        let mut r = "hourly at minute ".to_string();
        push_chars(&mut r, minute);
        return r;
    }
    if is_text(minute, "0") && any_date {
        if let Some(n) = step_value(hour) {
            let mut r = "every ".to_string();
            push_decimal(&mut r, n as u64);
            r.append(" hours");
            return r;
        }
    }
    if any_date && !is_star(minute) && !is_star(hour) {
        let mut r = "daily at ".to_string();
        push_chars(&mut r, hour);
        r.append(":");
        push_chars(&mut r, minute);
        return r;
    }
    if is_star(day) && is_star(month) && !is_star(weekday) && !is_star(minute) && !is_star(hour) {
        let mut r = "weekly on ".to_string();
        push_chars(&mut r, weekday);
        r.append(" at ");
        push_chars(&mut r, hour);
        r.append(":");
        push_chars(&mut r, minute);
        return r;
    }
    "custom".to_string()
}


/// The words of a command from the first one that mentions `artisan` on.
pub open spec fn from_artisan(ws: Seq<Seq<char>>) -> Seq<Seq<char>>
    decreases ws.len(),
{
    if ws.len() > 0 && !contains(ws[0], "artisan"@) {
        from_artisan(ws.drop_first())
    } else {
        ws
    }
}

/// At most the first `n` elements.
pub open spec fn first_n<A>(s: Seq<A>, n: nat) -> Seq<A> {
    if s.len() <= n {
        s
    } else {
        s.take(n as int)
    }
}

/// What a running process is searched by: for an `artisan` command, the
/// word that mentions `artisan` and up to two words after it, joined by
/// spaces; for any other command its first fifty characters.
pub open spec fn search_pattern(command: Seq<char>) -> Seq<char> {
    if contains(command, "artisan"@) {
        join(first_n(from_artisan(split_ws(command)), 3), " "@)
    } else {
        first_n(command, 50)
    }
}

fn push_join(s: &mut String, parts: &[Vec<char>], sep: &str)
    ensures
        final(s)@ == old(s)@ + join(views(parts@), sep@),
{
    let ghost start = s@;
    let mut i: usize = 0;
    assert(views(parts@.take(0)) =~= Seq::<Seq<char>>::empty());
    assert(start + Seq::<char>::empty() =~= start);
    while i < parts.len()
        invariant
            i <= parts.len(),
            s@ == start + join(views(parts@.take(i as int)), sep@),
        decreases parts.len() - i,
    {
        let ghost before = s@;
        let ghost ps = views(parts@.take(i + 1));
        assert(ps.drop_last() =~= views(parts@.take(i as int)));
        if i > 0 {
            s.append(sep);
        }
        push_chars(s, &parts[i]);
        if i == 0 {
            assert(s@ =~= start + join(ps, sep@));
        } else {
            assert(s@ =~= start + join(ps, sep@));
        }
        i += 1;
    }
    assert(parts@.take(parts.len() as int) =~= parts@);
}

/// Find running processes that match a command pattern: the pattern that
/// is searched for.
pub fn process_search_pattern(command: &str) -> (r: String)
    ensures
        r@ == search_pattern(command@),
        contains(command@, "artisan"@) ==> r@.len() > 0 && exists|k: int|
            0 <= k < split_ws(command@).len() && contains(#[trigger] split_ws(command@)[k], "artisan"@)
                && (forall|j: int| 0 <= j < k ==> !contains(#[trigger] split_ws(command@)[j], "artisan"@))
                && starts_with(r@, split_ws(command@)[k]),
{
    proof {
        if contains(command@, "artisan"@) {
            law_artisan_pattern_nonempty(command@);
        }
    }
    let chars = chars_of(command);
    let artisan = chars_of("artisan");
    if contains_chars(&chars, &artisan) {
        let words = split_whitespace(&chars);
        let mut k: usize = 0;
        assert(views(words@).skip(0) =~= views(words@));
        while k < words.len() && !contains_chars(&words[k], &artisan)
            invariant
                k <= words.len(),
                artisan@ == "artisan"@,
                from_artisan(views(words@).skip(k as int)) == from_artisan(split_ws(command@)),
            decreases words.len() - k,
        {
            assert(views(words@).skip(k as int).drop_first() =~= views(words@).skip(k + 1));
            assert(views(words@).skip(k as int)[0] == words@[k as int]@);
            k += 1;
        }
        let end = if words.len() - k <= 3 {
            words.len()
        } else {
            k + 3
        };
        let mut r = String::new();
        push_join(&mut r, &words[k..end], " ");
        assert(words@.subrange(k as int, end as int) =~= words@.subrange(k as int, end as int));
        assert(views(words@.subrange(k as int, end as int)) =~= first_n(
            views(words@).skip(k as int),
            3,
        ));
        assert(Seq::<char>::empty() + join(first_n(views(words@).skip(k as int), 3), " "@)
            =~= join(first_n(views(words@).skip(k as int), 3), " "@));
        r
    } else {
        let end = if chars.len() <= 50 {
            chars.len()
        } else {
            50
        };
        let head = slice_chars(&chars, 0, end);
        assert(head@ =~= first_n(command@, 50));
        string_of(&head)
    }
}


/// The process id in a line of `ps aux` output: its second column, if that
/// is a number.
pub open spec fn line_pid(line: Seq<char>) -> Option<u32> {
    let parts = split_ws(line);
    if parts.len() > 1 {
        parse_u32(parts[1])
    } else {
        None
    }
}

/// The process ids found in the given lines, in order.
pub open spec fn pids_of_lines(ls: Seq<Seq<char>>) -> Seq<u32>
    decreases ls.len(),
{
    if ls.len() == 0 {
        seq![]
    } else {
        match line_pid(ls.last()) {
            Some(p) => pids_of_lines(ls.drop_last()).push(p),
            None => pids_of_lines(ls.drop_last()),
        }
    }
}

/// The process ids listed in the output of `ps aux`.
pub fn parse_ps_pids(output: &str) -> (pids: Vec<u32>)
    ensures
        pids@ == pids_of_lines(lines(output@)),
{
    let chars = chars_of(output);
    let ls = split_lines(&chars);
    let mut pids: Vec<u32> = Vec::new();
    let mut i: usize = 0;
    while i < ls.len()
        invariant
            i <= ls.len(),
            views(ls@) == lines(output@),
            pids@ == pids_of_lines(views(ls@).take(i as int)),
        decreases ls.len() - i,
    {
        assert(views(ls@).take(i + 1).drop_last() =~= views(ls@).take(i as int));
        assert(views(ls@).take(i + 1).last() == ls@[i as int]@);
        let parts = split_whitespace(&ls[i]);
        if parts.len() > 1 {
            assert(views(parts@)[1] == parts@[1]@);
            if let Some(p) = parse_u32_chars(&parts[1]) {
                pids.push(p);
            }
        }
        i += 1;
    }
    assert(views(ls@).take(i as int) =~= views(ls@));
    pids
}

/// A row of the supervisor table of `egg status`.
#[derive(Debug, Clone)]
pub struct ProcessStatusRow {
    pub name: String,
    pub status: String,
    pub pid: String,
    pub restarts: String,
}

/// The decimal forms of the process ids.
pub open spec fn pid_texts(pids: Seq<u32>) -> Seq<Seq<char>> {
    pids.map_values(|p: u32| dec(p as nat))
}

/// The row of a supervisor process: `STOPPED` when no process runs its
/// command, else `RUNNING` with the ids comma-separated; and how many run
/// out of how many are configured.
pub fn process_status_row(name: &str, numprocs: u32, running_pids: &Vec<u32>) -> (row:
    ProcessStatusRow)
    ensures
        row.name@ == name@,
        running_pids@.len() == 0 ==> row.status@ == "STOPPED"@ && row.pid@ == "-"@
            && row.restarts@ == "0/"@ + dec(numprocs as nat),
        running_pids@.len() > 0 ==> row.status@ == "RUNNING"@ && row.pid@ == join(
            pid_texts(running_pids@),
            ", "@,
        ) && row.restarts@ == dec(running_pids@.len()) + "/"@ + dec(numprocs as nat),
{
    if running_pids.len() == 0 {
        let mut restarts = "0/".to_string();
        push_decimal(&mut restarts, numprocs as u64);
        ProcessStatusRow {
            name: name.to_string(),
            status: "STOPPED".to_string(),
            pid: "-".to_string(),
            restarts,
        }
    } else {
        let mut texts: Vec<Vec<char>> = Vec::new();
        let mut i: usize = 0;
        while i < running_pids.len()
            invariant
                i <= running_pids.len(),
                views(texts@) == pid_texts(running_pids@.take(i as int)),
            decreases running_pids.len() - i,
        {
            let ghost before = texts@;
            let d = crate::text::decimal(running_pids[i] as u64);
            texts.push(d);
            assert(views(texts@) =~= views(before).push(dec(running_pids@[i as int] as nat)));
            assert(pid_texts(running_pids@.take(i + 1)) =~= pid_texts(running_pids@.take(i as int)).push(
                dec(running_pids@[i as int] as nat),
            ));
            i += 1;
        }
        assert(running_pids@.take(i as int) =~= running_pids@);
        let mut pid = String::new();
        push_join(&mut pid, &texts, ", ");
        assert(Seq::<char>::empty() + join(pid_texts(running_pids@), ", "@) =~= join(
            pid_texts(running_pids@),
            ", "@,
        ));
        let mut restarts = String::new();
        push_decimal(&mut restarts, running_pids.len() as u64);
        restarts.append("/");
        push_decimal(&mut restarts, numprocs as u64);
        assert(restarts@ =~= dec(running_pids@.len()) + "/"@ + dec(numprocs as nat));
        ProcessStatusRow { name: name.to_string(), status: "RUNNING".to_string(), pid, restarts }
    }
}

/// A row of the cron table of `egg status`.
#[derive(Debug, Clone)]
pub struct CronStatusRow {
    pub name: String,
    pub schedule: String,
    pub last_run: String,
    pub next_run: String,
    pub run_count: String,
}

/// The row of a cron job: its schedule with a readable form, and whether a
/// running `egg` is scheduling it.
pub fn cron_status_row(name: &str, schedule: &str, egg_running: bool) -> (row: CronStatusRow)
    ensures
        row.name@ == name@,
        row.schedule@ == schedule@ + " ("@ + human_schedule(schedule@) + ")"@,
        row.last_run@ == "-"@,
        row.next_run@ == (if egg_running {
            "pending"@
        } else {
            "-"@
        }),
        row.run_count@ == (if egg_running {
            "active"@
        } else {
            "inactive"@
        }),
{
    let human = cron_human_readable(schedule);
    let mut text = schedule.to_string();
    text.append(" (");
    text.append(human.as_str());
    text.append(")");
    let (next_run, run_count) = if egg_running {
        ("pending", "active")
    } else {
        ("-", "inactive")
    };
    CronStatusRow {
        name: name.to_string(),
        schedule: text,
        last_run: "-".to_string(),
        next_run: next_run.to_string(),
        run_count: run_count.to_string(),
    }
}

/// Whether an `--only` filter lets a service through.
pub open spec fn allowed(only: Option<Vec<String>>, name: Seq<char>) -> bool {
    match only {
        None => true,
        Some(names) => exists|i: int| 0 <= i < names@.len() && #[trigger] names@[i]@ == name,
    }
}

fn names_contain(names: &Vec<String>, name: &str) -> (r: bool)
    ensures
        r == exists|i: int| 0 <= i < names@.len() && #[trigger] names@[i]@ == name@,
{
    let mut i: usize = 0;
    while i < names.len()
        invariant
            i <= names.len(),
            forall|j: int| 0 <= j < i ==> names@[j]@ != name@,
        decreases names.len() - i,
    {
        if crate::text::str_is(names[i].as_str(), name) {
            assert(names@[i as int]@ == name@);
            return true;
        }
        i += 1;
    }
    false
}

pub fn only_allows(only: &Option<Vec<String>>, name: &str) -> (r: bool)
    ensures
        r == allowed(*only, name@),
        only is None ==> r,
        only matches Some(names) ==> (forall|i: int| 0 <= i < names@.len() && #[trigger] names@[i]@ == name@ ==> r),
{
    proof {
        if let Some(names) = only {
            law_only_allows_every_listed_name(*names, name@);
        }
    }
    match only {
        None => true,
        Some(names) => names_contain(names, name),
    }
}

/// The enabled processes that start automatically and that an `--only`
/// filter lets through.
pub open spec fn processes_to_start(s: Seq<(String, SupervisorProcess)>, only: Option<Vec<String>>) -> Seq<
    (String, SupervisorProcess),
>
    decreases s.len(),
{
    if s.len() == 0 {
        seq![]
    } else if s.last().1.enabled && s.last().1.autostart && allowed(only, s.last().0@) {
        processes_to_start(s.drop_last(), only).push(s.last())
    } else {
        processes_to_start(s.drop_last(), only)
    }
}

/// The enabled cron jobs that an `--only` filter lets through.
pub open spec fn crons_to_register(s: Seq<(String, CronJob)>, only: Option<Vec<String>>) -> Seq<
    (String, CronJob),
>
    decreases s.len(),
{
    if s.len() == 0 {
        seq![]
    } else if s.last().1.enabled && allowed(only, s.last().0@) {
        crons_to_register(s.drop_last(), only).push(s.last())
    } else {
        crons_to_register(s.drop_last(), only)
    }
}

/// The supervisor processes that `egg up` starts: the enabled ones that
/// start automatically, in the order of the table.
pub fn startup_processes<'a>(config: &'a EggConfig, only: &Option<Vec<String>>) -> (r: Vec<
    (&'a String, &'a SupervisorProcess),
>)
    ensures
        deref_pairs(r@) == processes_to_start(config.supervisor@, *only),
        forall|j: int|
            0 <= j < config.supervisor@.len() && (#[trigger] config.supervisor@[j]).1.enabled
                && config.supervisor@[j].1.autostart && (match *only {
                None => true,
                Some(names) => exists|i: int| 0 <= i < names@.len() && names@[i]@ == config.supervisor@[j].0@,
            }) ==> deref_pairs(r@).contains(config.supervisor@[j]),
{
    proof {
        law_up_starts_all_enabled(config.supervisor@);
        if let Some(names) = only {
            law_up_starts_every_named_process(config.supervisor@, *names);
        }
    }
    let mut r: Vec<(&String, &SupervisorProcess)> = Vec::new();
    let mut i: usize = 0;
    while i < config.supervisor.len()
        invariant
            i <= config.supervisor.len(),
            deref_pairs(r@) == processes_to_start(config.supervisor@.take(i as int), *only),
        decreases config.supervisor.len() - i,
    {
        let ghost before = r@;
        assert(config.supervisor@.take(i + 1).drop_last() =~= config.supervisor@.take(i as int));
        let entry = &config.supervisor[i];
        if entry.1.enabled && entry.1.autostart && only_allows(only, entry.0.as_str()) {
            r.push((&entry.0, &entry.1));
            assert(deref_pairs(r@) =~= deref_pairs(before).push(config.supervisor@[i as int]));
        }
        i += 1;
    }
    assert(config.supervisor@.take(i as int) =~= config.supervisor@);
    r
}

/// The cron jobs that `egg up` registers: none with `--no-cron`, else the
/// enabled ones that the filter lets through, in the order of the table.
pub fn startup_crons<'a>(config: &'a EggConfig, only: &Option<Vec<String>>, no_cron: bool) -> (r:
    Vec<(&'a String, &'a CronJob)>)
    ensures
        no_cron ==> r@.len() == 0,
        !no_cron ==> deref_pairs(r@) == crons_to_register(config.cron@, *only),
{
    let mut r: Vec<(&String, &CronJob)> = Vec::new();
    if no_cron {
        return r;
    }
    let mut i: usize = 0;
    while i < config.cron.len()
        invariant
            i <= config.cron.len(),
            deref_pairs(r@) == crons_to_register(config.cron@.take(i as int), *only),
        decreases config.cron.len() - i,
    {
        let ghost before = r@;
        assert(config.cron@.take(i + 1).drop_last() =~= config.cron@.take(i as int));
        let entry = &config.cron[i];
        if entry.1.enabled && only_allows(only, entry.0.as_str()) {
            r.push((&entry.0, &entry.1));
            assert(deref_pairs(r@) =~= deref_pairs(before).push(config.cron@[i as int]));
        }
        i += 1;
    }
    assert(config.cron@.take(i as int) =~= config.cron@);
    r
}

/// The cron jobs, enabled or not, whose schedule is not five fields.
pub open spec fn invalid_schedule_entries(s: Seq<(String, CronJob)>) -> Seq<(String, CronJob)>
    decreases s.len(),
{
    if s.len() == 0 {
        seq![]
    } else if split_ws(s.last().1.schedule@).len() != 5 {
        invalid_schedule_entries(s.drop_last()).push(s.last())
    } else {
        invalid_schedule_entries(s.drop_last())
    }
}

/// The cron jobs that `egg validate` warns about.
pub fn invalid_schedules(config: &EggConfig) -> (r: Vec<(&String, &CronJob)>)
    ensures
        deref_pairs(r@) == invalid_schedule_entries(config.cron@),
{
    let mut r: Vec<(&String, &CronJob)> = Vec::new();
    let mut i: usize = 0;
    while i < config.cron.len()
        invariant
            i <= config.cron.len(),
            deref_pairs(r@) == invalid_schedule_entries(config.cron@.take(i as int)),
        decreases config.cron.len() - i,
    {
        let ghost before = r@;
        assert(config.cron@.take(i + 1).drop_last() =~= config.cron@.take(i as int));
        let entry = &config.cron[i];
        let schedule = chars_of(entry.1.schedule.as_str());
        let parts = split_whitespace(&schedule);
        if parts.len() != 5 {
            r.push((&entry.0, &entry.1));
            assert(deref_pairs(r@) =~= deref_pairs(before).push(config.cron@[i as int]));
        }
        i += 1;
    }
    assert(config.cron@.take(i as int) =~= config.cron@);
    r
}

/// The `.eggrc.toml` that `egg init` writes for a project.
pub open spec fn init_config_text(project_name: Seq<char>) -> Seq<char> {
    "[project]\nname = \""@ + project_name
        + "\"\n\n# Supervisor processes - long-running workers\n[supervisor.queue_default]\nenabled = true\ncommand = \"php artisan queue:work --tries=3\"\nnumprocs = 2\ndirectory = \".\"\nautostart = true\nautorestart = \"true\"\nstdout_logfile = \"storage/logs/queue.log\"\n\n# Cron jobs - scheduled tasks\n[cron.scheduler]\nenabled = true\nschedule = \"* * * * *\"\ncommand = \"php artisan schedule:run >> storage/logs/scheduler.log 2>&1\"\ndescription = \"Laravel scheduler\"\n"@
}

pub fn init_template(project_name: &str) -> (r: String)
    ensures
        r@ == init_config_text(project_name@),
{
    let mut t = "[project]\nname = \"".to_string();
    t.append(project_name);
    t.append(
        "\"\n\n# Supervisor processes - long-running workers\n[supervisor.queue_default]\nenabled = true\ncommand = \"php artisan queue:work --tries=3\"\nnumprocs = 2\ndirectory = \".\"\nautostart = true\nautorestart = \"true\"\nstdout_logfile = \"storage/logs/queue.log\"\n\n# Cron jobs - scheduled tasks\n[cron.scheduler]\nenabled = true\nschedule = \"* * * * *\"\ncommand = \"php artisan schedule:run >> storage/logs/scheduler.log 2>&1\"\ndescription = \"Laravel scheduler\"\n",
    );
    t
}


/// Without `--only`, `egg up` starts every enabled process that starts
/// automatically; when every process starts automatically, that is every
/// enabled process.
pub proof fn law_up_starts_all_enabled(s: Seq<(String, SupervisorProcess)>)
    ensures
        forall|j: int|
            0 <= j < s.len() && (#[trigger] s[j]).1.enabled && s[j].1.autostart ==> processes_to_start(
                s,
                None,
            ).contains(s[j]),
        (forall|j: int| 0 <= j < s.len() ==> (#[trigger] s[j]).1.autostart) ==> processes_to_start(
            s,
            None,
        ) == enabled_supervisor_entries(s),
    decreases s.len(),
{
    if s.len() > 0 {
        law_up_starts_all_enabled(s.drop_last());
        let d = processes_to_start(s.drop_last(), None);
        let e = processes_to_start(s, None);
        assert forall|j: int|
            0 <= j < s.len() && (#[trigger] s[j]).1.enabled && s[j].1.autostart implies e.contains(s[j]) by {
            if j < s.len() - 1 {
                assert(s.drop_last()[j] == s[j]);
                assert(d.contains(s[j]));
                let k = choose|k: int| 0 <= k < d.len() && d[k] == s[j];
                if s.last().1.enabled && s.last().1.autostart {
                    assert(e[k] == d[k]);
                }
            } else {
                assert(e[e.len() - 1] == s.last());
            }
        }
        if forall|j: int| 0 <= j < s.len() ==> (#[trigger] s[j]).1.autostart {
            assert forall|j: int| 0 <= j < s.drop_last().len() implies (#[trigger] s.drop_last()[j]).1.autostart by {
                assert(s.drop_last()[j] == s[j]);
            }
            assert(s[s.len() - 1].1.autostart);
        }
    }
}

/// Without `--only`, `egg up` registers every enabled cron job.
pub proof fn law_up_registers_all_enabled(s: Seq<(String, CronJob)>)
    ensures
        crons_to_register(s, None) == enabled_cron_entries(s),
    decreases s.len(),
{
    if s.len() > 0 {
        law_up_registers_all_enabled(s.drop_last());
    }
}

/// `egg up` starts only processes that are enabled, start automatically,
/// and that the filter names.
pub proof fn law_up_starts_only_selected(s: Seq<(String, SupervisorProcess)>, only: Option<Vec<String>>)
    ensures
        forall|i: int|
            0 <= i < processes_to_start(s, only).len() ==> (#[trigger] processes_to_start(s, only)[i]).1.enabled
                && processes_to_start(s, only)[i].1.autostart && allowed(
                only,
                processes_to_start(s, only)[i].0@,
            ),
    decreases s.len(),
{
    if s.len() > 0 {
        law_up_starts_only_selected(s.drop_last(), only);
        let d = processes_to_start(s.drop_last(), only);
        let e = processes_to_start(s, only);
        assert forall|i: int| 0 <= i < e.len() implies (#[trigger] e[i]).1.enabled && e[i].1.autostart
            && allowed(only, e[i].0@) by {
            if i < d.len() {
                assert(e[i] == d[i]);
            }
        }
    }
}


/// An `--only` filter lets through every name it lists, and no filter lets
/// through every name.
pub proof fn law_only_allows_every_listed_name(names: Vec<String>, name: Seq<char>)
    ensures
        allowed(None, name),
        forall|i: int| 0 <= i < names@.len() ==> allowed(Some(names), #[trigger] names@[i]@),
{
    assert forall|i: int| 0 <= i < names@.len() implies allowed(Some(names), #[trigger] names@[i]@) by {
        let only = Some(names);
        assert(only->0@[i]@ == names@[i]@);
    }
}

/// `egg up --only N1 --only N2 ...` starts every enabled, automatically
/// starting process that is named by any of the `--only` options.
pub proof fn law_up_starts_every_named_process(s: Seq<(String, SupervisorProcess)>, names: Vec<String>)
    ensures
        forall|j: int|
            0 <= j < s.len() && (#[trigger] s[j]).1.enabled && s[j].1.autostart && (exists|i: int|
                0 <= i < names@.len() && names@[i]@ == s[j].0@) ==> processes_to_start(
                s,
                Some(names),
            ).contains(s[j]),
    decreases s.len(),
{
    if s.len() > 0 {
        law_up_starts_every_named_process(s.drop_last(), names);
        let only = Some(names);
        let d = processes_to_start(s.drop_last(), only);
        let e = processes_to_start(s, only);
        assert forall|j: int|
            0 <= j < s.len() && (#[trigger] s[j]).1.enabled && s[j].1.autostart && (exists|i: int|
                0 <= i < names@.len() && names@[i]@ == s[j].0@) implies e.contains(s[j]) by {
            let i = choose|i: int| 0 <= i < names@.len() && names@[i]@ == s[j].0@;
            assert(allowed(only, s[j].0@)) by {
                assert(names@[i]@ == s[j].0@);
            }
            if j < s.len() - 1 {
                assert(s.drop_last()[j] == s[j]);
                assert(d.contains(s[j]));
                let k = choose|k: int| 0 <= k < d.len() && d[k] == s[j];
                if e != d {
                    assert(e[k] == d[k]);
                }
            } else {
                assert(s.last() == s[j]);
                assert(e[e.len() - 1] == s[j]);
            }
        }
    }
}


proof fn lemma_from_artisan_first(ws: Seq<Seq<char>>, k: int)
    requires
        0 <= k < ws.len(),
        contains(ws[k], "artisan"@),
        forall|j: int| 0 <= j < k ==> !contains(#[trigger] ws[j], "artisan"@),
    ensures
        from_artisan(ws) == ws.skip(k),
    decreases k,
{
    if k == 0 {
        assert(ws.skip(0) =~= ws);
    } else {
        let rest = ws.drop_first();
        assert(!contains(ws[0], "artisan"@));
        assert forall|j: int| 0 <= j < k - 1 implies !contains(#[trigger] rest[j], "artisan"@) by {
            assert(rest[j] == ws[j + 1]);
        }
        assert(rest[k - 1] == ws[k]);
        lemma_from_artisan_first(rest, k - 1);
        assert(rest.skip(k - 1) =~= ws.skip(k));
    }
}

proof fn lemma_join_starts_with_first(parts: Seq<Seq<char>>, sep: Seq<char>)
    requires
        parts.len() >= 1,
    ensures
        starts_with(join(parts, sep), parts[0]),
    decreases parts.len(),
{
    if parts.len() == 1 {
        assert(join(parts, sep).take(parts[0].len() as int) =~= parts[0]);
    } else {
        lemma_join_starts_with_first(parts.drop_last(), sep);
        let a = join(parts.drop_last(), sep);
        assert(parts.drop_last()[0] == parts[0]);
        assert((a + sep + parts.last()).take(parts[0].len() as int) =~= a.take(
            parts[0].len() as int,
        ));
    }
}

/// For an `artisan` command, the pattern that running processes are
/// searched by starts with the first word of the command that mentions
/// `artisan`, so it is never empty.
pub proof fn law_artisan_pattern_starts_with_artisan_word(command: Seq<char>, k: int)
    requires
        contains(command, "artisan"@),
        0 <= k < split_ws(command).len(),
        contains(split_ws(command)[k], "artisan"@),
        forall|j: int| 0 <= j < k ==> !contains(#[trigger] split_ws(command)[j], "artisan"@),
    ensures
        starts_with(search_pattern(command), split_ws(command)[k]),
        search_pattern(command).len() > 0,
{
    let ws = split_ws(command);
    lemma_from_artisan_first(ws, k);
    law_split_gives_words(command);
    let parts = first_n(ws.skip(k), 3);
    assert(parts.len() >= 1);
    assert(parts[0] == ws[k]);
    lemma_join_starts_with_first(parts, " "@);
    assert(crate::text::is_word(ws[k]));
}


proof fn first_artisan_word(ws: Seq<Seq<char>>, k: int) -> (k0: int)
    requires
        0 <= k < ws.len(),
        contains(ws[k], "artisan"@),
    ensures
        0 <= k0 <= k,
        contains(ws[k0], "artisan"@),
        forall|j: int| 0 <= j < k0 ==> !contains(#[trigger] ws[j], "artisan"@),
    decreases k,
{
    if exists|j: int| 0 <= j < k && contains(#[trigger] ws[j], "artisan"@) {
        let j = choose|j: int| 0 <= j < k && contains(#[trigger] ws[j], "artisan"@);
        first_artisan_word(ws, j)
    } else {
        k
    }
}

/// For every command that mentions `artisan`, the pattern that running
/// processes are searched by is not empty: it starts with the first word of
/// the command that mentions `artisan`.
pub proof fn law_artisan_pattern_nonempty(command: Seq<char>)
    requires
        contains(command, "artisan"@),
    ensures
        search_pattern(command).len() > 0,
        exists|k: int|
            0 <= k < split_ws(command).len() && contains(#[trigger] split_ws(command)[k], "artisan"@)
                && (forall|j: int| 0 <= j < k ==> !contains(#[trigger] split_ws(command)[j], "artisan"@))
                && starts_with(search_pattern(command), split_ws(command)[k]),
{
    reveal_strlit("artisan");
    let a = "artisan"@;
    assert forall|j: int| 0 <= j < a.len() implies !crate::text::is_whitespace(#[trigger] a[j]) by {
    }
    law_split_keeps_words_whole(command, a);
    let ws = split_ws(command);
    let k = choose|k: int| 0 <= k < ws.len() && contains(#[trigger] ws[k], a);
    let k0 = first_artisan_word(ws, k);
    law_artisan_pattern_starts_with_artisan_word(command, k0);
}

} // verus!
