//! The cron scheduler's state and decisions: which jobs are registered, when
//! each runs next, which are due, and what a finished run leaves behind.
//! Times are Unix timestamps in whole seconds.
use vstd::prelude::*;
use std::str::FromStr;
use crate::config::CronJob;
use crate::table::{NamedTable, lemma_map_of_contains, lemma_map_of_value};
use crate::text::{chars_of, split_whitespace, split_ws};

verus! {

#[verifier::external_type_specification]
#[verifier::external_body]
pub struct ExSchedule(cron::Schedule);

#[verifier::external_type_specification]
#[verifier::external_body]
pub struct ExCronError(cron::error::Error);

/// Whether the `cron` crate's parser accepts an expression (seconds,
/// minutes, hours, days of month, months, days of week and optional years).
pub uninterp spec fn cron_crate_accepts(expr: Seq<char>) -> bool;

/// `<cron::Schedule as FromStr>::from_str`: parses a cron expression. Its
/// acceptance depends on the expression alone; what the schedule holds is
/// not stated here.
#[verifier::external_body]
fn schedule_from_str(expr: &str) -> (r: Result<cron::Schedule, cron::error::Error>)
    ensures
        r is Ok <==> cron_crate_accepts(expr@),
{
    cron::Schedule::from_str(expr)
}

/// `cron::Schedule::upcoming(Utc)`, first item: the next time the schedule
/// fires after the current time, as a Unix timestamp. It reads the clock, so
/// nothing is stated of the result.
#[verifier::external_body]
fn upcoming_timestamp(schedule: &cron::Schedule) -> (r: Option<i64>) {
    match schedule.upcoming(chrono::Utc).next() {
        Some(t) => Some(t.timestamp()),
        None => None,
    }
}

/// A cron expression that the scheduler rejects.
#[derive(Debug, Clone)]
pub enum CronError {
    InvalidExpression { expression: String },
}

impl CronError {
    /// The message that reports the error.
    pub fn message(&self) -> (r: String)
        ensures
            r@ == (match self {
                CronError::InvalidExpression { expression } => "Invalid cron expression: "@
                    + expression@,
            }),
    {
        match self {
            CronError::InvalidExpression { expression } => {
                let mut r = "Invalid cron expression: ".to_string();
                r.append(expression.as_str());
                r
            },
        }
    }
}

/// The expression handed to the `cron` crate: a standard five-field
/// expression gets a leading seconds field of `0`; anything else is passed
/// on as written.
pub open spec fn with_seconds(expr: Seq<char>) -> Seq<char> {
    if split_ws(expr).len() == 5 {
        "0 "@ + expr
    } else {
        expr
    }
}

/// The expression that is handed to the `cron` crate for a schedule.
pub fn full_expression(expr: &str) -> (r: String)
    ensures
        r@ == with_seconds(expr@),
{
    let chars = chars_of(expr);
    let parts = split_whitespace(&chars);
    if parts.len() == 5 {
        let mut s = "0 ".to_string();
        s.append(expr);
        s
    } else {
        expr.to_string()
    }
}

/// Parse a cron schedule expression
pub fn parse_schedule(expr: &str) -> (r: Result<cron::Schedule, CronError>)
    ensures
        r is Ok <==> cron_crate_accepts(with_seconds(expr@)),
        r matches Err(CronError::InvalidExpression { expression }) ==> expression@ == expr@,
{
    let full = full_expression(expr);
    match schedule_from_str(full.as_str()) {
        Ok(schedule) => Ok(schedule),
        Err(_) => Err(CronError::InvalidExpression { expression: expr.to_string() }),
    }
}

/// Status of a cron job
#[derive(Debug, Clone)]
pub struct CronJobStatus {
    pub name: String,
    pub schedule: String,
    pub last_run: Option<i64>,
    pub next_run: Option<i64>,
    pub run_count: u64,
    pub last_exit_code: Option<i32>,
    pub enabled: bool,
}

impl CronJobStatus {
    /// A copy with the same fields.
    pub fn duplicate(&self) -> (r: Self)
        ensures
            r == *self,
    {
        CronJobStatus {
            name: self.name.clone(),
            schedule: self.schedule.clone(),
            last_run: self.last_run,
            next_run: self.next_run,
            run_count: self.run_count,
            last_exit_code: self.last_exit_code,
            enabled: self.enabled,
        }
    }
}

impl CronJob {
    /// A copy with the same fields.
    pub fn duplicate(&self) -> (r: Self)
        ensures
            r == *self,
    {
        CronJob {
            enabled: self.enabled,
            schedule: self.schedule.clone(),
            command: self.command.clone(),
            user: match &self.user {
                Some(u) => Some(u.clone()),
                None => None,
            },
            description: match &self.description {
                Some(d) => Some(d.clone()),
                None => None,
            },
        }
    }
}

/// The status of a newly registered job: never run yet.
pub open spec fn fresh_status(name: Seq<char>, config: CronJob, next: Option<i64>, s: CronJobStatus) -> bool {
    &&& s.name@ == name
    &&& s.schedule@ == config.schedule@
    &&& s.last_run is None
    &&& s.next_run == next
    &&& s.run_count == 0
    &&& s.last_exit_code is None
    &&& s.enabled == config.enabled
}

/// The status after a run at `now` that exited with `exit_code`; `next` is
/// the recomputed next run, if the schedule could be parsed again.
pub open spec fn after_run(
    s: CronJobStatus,
    now: i64,
    exit_code: Option<i32>,
    next: Option<Option<i64>>,
) -> CronJobStatus {
    CronJobStatus {
        last_run: Some(now),
        run_count: (s.run_count + 1) as u64,
        last_exit_code: exit_code,
        next_run: match next {
            Some(n) => n,
            None => s.next_run,
        },
        ..s
    }
}

/// A job is due when it is enabled and its next run is not in the future.
pub open spec fn is_due(s: CronJobStatus, now: i64) -> bool {
    s.enabled && (s.next_run matches Some(t) && now >= t)
}

/// The names of the due jobs that have a configuration, in table order.
pub open spec fn due_names(jobs: Seq<(String, CronJobStatus)>, configs: Map<Seq<char>, CronJob>, now: i64) -> Seq<
    Seq<char>,
>
    decreases jobs.len(),
{
    if jobs.len() == 0 {
        seq![]
    } else if is_due(jobs.last().1, now) && configs.contains_key(jobs.last().0@) {
        due_names(jobs.drop_last(), configs, now).push(jobs.last().0@)
    } else {
        due_names(jobs.drop_last(), configs, now)
    }
}

/// No text occurs twice.
pub open spec fn distinct_texts(names: Seq<Seq<char>>) -> bool {
    forall|i: int, j: int| 0 <= i < j < names.len() ==> names[i] != names[j]
}

/// `after` is `before` updated for a run at `now` with `exit_code`, its next
/// run recomputed exactly when `schedule` still parses.
pub open spec fn run_recorded(
    before: CronJobStatus,
    after: CronJobStatus,
    now: i64,
    exit_code: Option<i32>,
    schedule: Seq<char>,
) -> bool {
    exists|next: Option<Option<i64>>|
        (next is None <==> !cron_crate_accepts(with_seconds(schedule))) && after == after_run(
            before,
            now,
            exit_code,
            next,
        )
}

proof fn lemma_due_names_distinct(
    jobs: Seq<(String, CronJobStatus)>,
    configs: Map<Seq<char>, CronJob>,
    now: i64,
)
    requires
        crate::table::distinct_names(jobs),
    ensures
        distinct_texts(due_names(jobs, configs, now)),
    decreases jobs.len(),
{
    if jobs.len() > 0 {
        let rest = jobs.drop_last();
        assert(crate::table::distinct_names(rest)) by {
            assert forall|i: int, j: int| 0 <= i < j < rest.len() implies rest[i].0@ != rest[j].0@ by {
                assert(rest[i] == jobs[i]);
                assert(rest[j] == jobs[j]);
            }
        }
        lemma_due_names_distinct(rest, configs, now);
        law_due_jobs_are_due(rest, configs, now);
        let d = due_names(rest, configs, now);
        if is_due(jobs.last().1, now) && configs.contains_key(jobs.last().0@) {
            let e = d.push(jobs.last().0@);
            assert forall|i: int, j: int| 0 <= i < j < e.len() implies e[i] != e[j] by {
                if j == e.len() - 1 {
                    assert(e[i] == d[i]);
                    let k = choose|k: int|
                        0 <= k < rest.len() && rest[k].0@ == d[i] && is_due(#[trigger] rest[k].1, now);
                    assert(rest[k] == jobs[k]);
                    assert(jobs[k].0@ != jobs[jobs.len() - 1].0@);
                } else {
                    assert(e[i] == d[i]);
                    assert(e[j] == d[j]);
                }
            }
        }
    }
}

/// Manages cron job scheduling: the status of each registered job and its
/// configuration, both keyed by the job's name.
pub struct CronScheduler {
    jobs: NamedTable<CronJobStatus>,
    configs: NamedTable<CronJob>,
}

impl CronScheduler {
    /// The status of each job, by name.
    pub closed spec fn jobs(&self) -> Map<Seq<char>, CronJobStatus> {
        self.jobs@
    }

    /// The configuration of each job, by name.
    pub closed spec fn configs(&self) -> Map<Seq<char>, CronJob> {
        self.configs@
    }

    /// The jobs with their statuses, in the order they were first registered.
    pub closed spec fn job_entries(&self) -> Seq<(String, CronJobStatus)> {
        self.jobs.entries()
    }

    /// Each table names a job once, and the status under a name carries
    /// that name.
    pub closed spec fn wf(&self) -> bool {
        &&& self.jobs.wf()
        &&& self.configs.wf()
        &&& forall|k: Seq<char>| #[trigger] self.jobs@.contains_key(k) ==> self.jobs@[k].name@ == k
    }

    /// In a well-formed scheduler every status is listed under its own name,
    /// so a registered job has exactly one status carrying its name, and a
    /// name that is not registered has none.
    pub proof fn law_one_status_per_name(&self, name: Seq<char>)
        requires
            self.wf(),
        ensures
            self.jobs().contains_key(name) ==> exists|i: int|
                0 <= i < self.job_entries().len() && #[trigger] self.job_entries()[i].1
                    == self.jobs()[name] && self.job_entries()[i].1.name@ == name && forall|j: int|
                    0 <= j < self.job_entries().len() && j != i ==> (
                    #[trigger] self.job_entries()[j]).1.name@ != name,
            !self.jobs().contains_key(name) ==> forall|j: int|
                0 <= j < self.job_entries().len() ==> (#[trigger] self.job_entries()[j]).1.name@
                    != name,
    {
        let e = self.jobs.entries();
        self.jobs.lemma_view();
        lemma_map_of_contains(e, name);
        assert forall|j: int| 0 <= j < e.len() implies (#[trigger] e[j]).1.name@ == e[j].0@ by {
            lemma_map_of_value(e, j);
            assert(self.jobs@.contains_key(e[j].0@));
        }
        if self.jobs@.contains_key(name) {
            let i = choose|i: int| 0 <= i < e.len() && #[trigger] e[i].0@ == name;
            lemma_map_of_value(e, i);
            assert(e[i].1 == self.jobs@[name]);
            assert forall|j: int| 0 <= j < e.len() && j != i implies (#[trigger] e[j]).1.name@ != name by {
                if j < i {
                    assert(e[j].0@ != e[i].0@);
                } else {
                    assert(e[i].0@ != e[j].0@);
                }
            }
        }
    }

    pub fn new() -> (s: Self)
        ensures
            s.wf(),
            s.jobs() == Map::<Seq<char>, CronJobStatus>::empty(),
            s.configs() == Map::<Seq<char>, CronJob>::empty(),
            s.job_entries().len() == 0,
    {
        CronScheduler { jobs: NamedTable::new(), configs: NamedTable::new() }
    }

    /// The command of a registered job.
    pub fn command_of(&self, name: &str) -> (r: Option<String>)
        requires
            self.wf(),
        ensures
            r matches Some(c) ==> self.configs().contains_key(name@) && c@
                == self.configs()[name@].command@,
            r is None ==> !self.configs().contains_key(name@),
    {
        match self.configs.get(name) {
            Some(config) => Some(config.command.clone()),
            None => None,
        }
    }

    /// How often a registered job has run.
    pub fn run_count_of(&self, name: &str) -> (r: Option<u64>)
        requires
            self.wf(),
        ensures
            r matches Some(n) ==> self.jobs().contains_key(name@) && n == self.jobs()[name@].run_count,
            r is None ==> !self.jobs().contains_key(name@),
    {
        match self.jobs.get(name) {
            Some(status) => Some(status.run_count),
            None => None,
        }
    }

    /// Records a job whose schedule parsed, with its next run time.
    pub fn add_job(&mut self, name: &str, config: &CronJob, next: Option<i64>)
        requires
            old(self).wf(),
        ensures
            final(self).wf(),
            final(self).jobs().dom() == old(self).jobs().dom().insert(name@),
            forall|k: Seq<char>| k != name@ && #[trigger] old(self).jobs().contains_key(k)
                ==> final(self).jobs()[k] == old(self).jobs()[k],
            fresh_status(name@, *config, next, final(self).jobs()[name@]),
            final(self).configs() == old(self).configs().insert(name@, *config),
    {
        let status = CronJobStatus {
            name: name.to_string(),
            schedule: config.schedule.clone(),
            last_run: None,
            next_run: next,
            run_count: 0,
            last_exit_code: None,
            enabled: config.enabled,
        };
        self.jobs.insert(name, status);
        self.configs.insert(name, config.duplicate());
    }

    /// Register a cron job: its schedule must parse; the job's next run is
    /// the schedule's next time after now.
    pub fn register(&mut self, name: &str, config: &CronJob) -> (r: Result<(), CronError>)
        requires
            old(self).wf(),
        ensures
            final(self).wf(),
            r is Ok <==> cron_crate_accepts(with_seconds(config.schedule@)),
            r matches Err(CronError::InvalidExpression { expression }) ==> expression@
                == config.schedule@ && *final(self) == *old(self),
            r is Ok ==> {
                &&& final(self).jobs().dom() == old(self).jobs().dom().insert(name@)
                &&& forall|k: Seq<char>| k != name@ && #[trigger] old(self).jobs().contains_key(k)
                    ==> final(self).jobs()[k] == old(self).jobs()[k]
                &&& exists|next: Option<i64>| fresh_status(name@, *config, next, final(self).jobs()[name@])
                &&& final(self).configs() == old(self).configs().insert(name@, *config)
                &&& exists|i: int|
                    0 <= i < final(self).job_entries().len() && #[trigger] final(self).job_entries()[i].1
                        == final(self).jobs()[name@] && forall|j: int|
                        0 <= j < final(self).job_entries().len() && j != i ==> (
                        #[trigger] final(self).job_entries()[j]).1.name@ != name@
            },
    {
        let schedule = parse_schedule(config.schedule.as_str())?;
        let next = upcoming_timestamp(&schedule);
        self.add_job(name, config, next);
        proof {
            self.law_one_status_per_name(name@);
        }
        Ok(())
    }

    /// The names of the jobs that are due at `now` and can be run.
    pub fn due_jobs(&self, now: i64) -> (r: Vec<String>)
        requires
            self.wf(),
        ensures
            r@.map_values(|s: String| s@) == due_names(self.job_entries(), self.configs(), now),
            forall|j: int|
                0 <= j < self.job_entries().len() && (#[trigger] self.job_entries()[j]).1.enabled
                    && self.job_entries()[j].1.next_run is Some && self.job_entries()[j].1.next_run->0
                    <= now && self.configs().contains_key(self.job_entries()[j].0@) ==> r@.map_values(
                    |s: String| s@,
                ).contains(self.job_entries()[j].0@),
    {
        proof {
            law_due_jobs_complete(self.job_entries(), self.configs(), now);
        }
        let mut r: Vec<String> = Vec::new();
        let mut i: usize = 0;
        while i < self.jobs.len()
            invariant
                i <= self.jobs.entries().len(),
                self.wf(),
                r@.map_values(|s: String| s@) == due_names(
                    self.jobs.entries().take(i as int),
                    self.configs(),
                    now,
                ),
            decreases self.jobs.entries().len() - i,
        {
            let ghost before = r@;
            assert(self.jobs.entries().take(i + 1).drop_last() =~= self.jobs.entries().take(
                i as int,
            ));
            let (name, status) = self.jobs.entry(i);
            let due = status.enabled && match status.next_run {
                Some(t) => now >= t,
                None => false,
            };
            if due && self.configs.get(name.as_str()).is_some() {
                r.push(name.clone());
                assert(r@.map_values(|s: String| s@) =~= before.map_values(|s: String| s@).push(
                    name@,
                ));
            }
            i += 1;
        }
        assert(self.jobs.entries().take(i as int) =~= self.jobs.entries());
        r
    }

    /// Records a finished run of a job.
    pub fn finish_run(
        &mut self,
        name: &str,
        now: i64,
        exit_code: Option<i32>,
        next: Option<Option<i64>>,
    )
        requires
            old(self).wf(),
            old(self).jobs().contains_key(name@),
            old(self).jobs()[name@].run_count < u64::MAX,
        ensures
            final(self).wf(),
            final(self).jobs() == old(self).jobs().insert(
                name@,
                after_run(old(self).jobs()[name@], now, exit_code, next),
            ),
            final(self).configs() == old(self).configs(),
    {
        let status = self.jobs.get(name).unwrap();
        let updated = CronJobStatus {
            name: status.name.clone(),
            schedule: status.schedule.clone(),
            last_run: Some(now),
            next_run: match next {
                Some(n) => n,
                None => status.next_run,
            },
            run_count: status.run_count + 1,
            last_exit_code: exit_code,
            enabled: status.enabled,
        };
        self.jobs.insert(name, updated);
    }

    /// Records a run of a job at `now`: the run count goes up by one, the
    /// exit code is kept, and the next run is recomputed from the schedule.
    pub fn record_run(&mut self, name: &str, now: i64, exit_code: Option<i32>)
        requires
            old(self).wf(),
            old(self).jobs().contains_key(name@),
            old(self).configs().contains_key(name@),
            old(self).jobs()[name@].run_count < u64::MAX,
        ensures
            final(self).wf(),
            final(self).configs() == old(self).configs(),
            exists|next: Option<Option<i64>>| (next is None <==> !cron_crate_accepts(with_seconds(
                old(self).configs()[name@].schedule@)))
                && final(self).jobs() == old(self).jobs().insert(
                name@,
                after_run(old(self).jobs()[name@], now, exit_code, next),
            ),
    {
        let config = self.configs.get(name).unwrap();
        let next = match parse_schedule(config.schedule.as_str()) {
            Ok(schedule) => Some(upcoming_timestamp(&schedule)),
            Err(_) => None,
        };
        self.finish_run(name, now, exit_code, next);
    }

    /// The names that `due_jobs` gives are distinct.
    pub proof fn law_due_jobs_distinct(&self, now: i64)
        requires
            self.wf(),
        ensures
            distinct_texts(due_names(self.job_entries(), self.configs(), now)),
    {
        self.jobs.lemma_view();
        lemma_due_names_distinct(self.job_entries(), self.configs(), now);
    }

    /// Records the runs of several jobs at `now`, each with its exit code:
    /// each listed job's status is updated as `record_run` does, once, and
    /// every other job is left as it was.
    pub fn record_runs(&mut self, now: i64, runs: &Vec<(String, Option<i32>)>)
        requires
            old(self).wf(),
            distinct_texts(runs@.map_values(|r: (String, Option<i32>)| r.0@)),
            forall|i: int|
                0 <= i < runs@.len() ==> old(self).jobs().contains_key(#[trigger] runs@[i].0@)
                    && old(self).configs().contains_key(runs@[i].0@) && old(self).jobs()[runs@[i].0@].run_count
                    < u64::MAX,
        ensures
            final(self).wf(),
            final(self).configs() == old(self).configs(),
            final(self).jobs().dom() == old(self).jobs().dom(),
            forall|k: Seq<char>|
                #[trigger] old(self).jobs().contains_key(k) && (forall|i: int|
                    0 <= i < runs@.len() ==> runs@[i].0@ != k) ==> final(self).jobs()[k] == old(
                    self,
                ).jobs()[k],
            forall|i: int|
                0 <= i < runs@.len() ==> run_recorded(
                    old(self).jobs()[#[trigger] runs@[i].0@],
                    final(self).jobs()[runs@[i].0@],
                    now,
                    runs@[i].1,
                    old(self).configs()[runs@[i].0@].schedule@,
                ),
    {
        let ghost jobs0 = self.jobs();
        let ghost configs0 = self.configs();
        let ghost names = runs@.map_values(|r: (String, Option<i32>)| r.0@);
        let mut i: usize = 0;
        while i < runs.len()
            invariant
                i <= runs@.len(),
                self.wf(),
                names == runs@.map_values(|r: (String, Option<i32>)| r.0@),
                distinct_texts(names),
                forall|j: int|
                    0 <= j < runs@.len() ==> jobs0.contains_key(#[trigger] runs@[j].0@)
                        && configs0.contains_key(runs@[j].0@) && jobs0[runs@[j].0@].run_count
                        < u64::MAX,
                self.configs() == configs0,
                self.jobs().dom() == jobs0.dom(),
                forall|k: Seq<char>|
                    #[trigger] jobs0.contains_key(k) && (forall|j: int| 0 <= j < i ==> runs@[j].0@ != k)
                        ==> self.jobs()[k] == jobs0[k],
                forall|j: int|
                    0 <= j < i ==> run_recorded(
                        jobs0[#[trigger] runs@[j].0@],
                        self.jobs()[runs@[j].0@],
                        now,
                        runs@[j].1,
                        configs0[runs@[j].0@].schedule@,
                    ),
            decreases runs@.len() - i,
        {
            let ghost before = self.jobs();
            let name = &runs[i].0;
            assert(names[i as int] == name@);
            assert forall|j: int| 0 <= j < i implies runs@[j].0@ != name@ by {
                assert(names[j] == runs@[j].0@);
            }
            assert(self.jobs()[name@] == jobs0[name@]);
            self.record_run(name.as_str(), now, runs[i].1);
            assert forall|j: int| 0 <= j < i + 1 implies run_recorded(
                jobs0[#[trigger] runs@[j].0@],
                self.jobs()[runs@[j].0@],
                now,
                runs@[j].1,
                configs0[runs@[j].0@].schedule@,
            ) by {
                if j < i {
                    assert(names[j] == runs@[j].0@);
                    assert(runs@[j].0@ != name@);
                    assert(self.jobs()[runs@[j].0@] == before[runs@[j].0@]);
                } else {
                    let next = choose|next: Option<Option<i64>>|
                        (next is None <==> !cron_crate_accepts(with_seconds(configs0[name@].schedule@)))
                            && self.jobs() == before.insert(name@, after_run(before[name@], now, runs@[j].1, next));
                    assert(self.jobs()[name@] == after_run(jobs0[name@], now, runs@[j].1, next));
                }
            }
            i += 1;
        }
    }

    /// Get status of all cron jobs
    pub fn get_status(&self) -> (r: Vec<CronJobStatus>)
        requires
            self.wf(),
        ensures
            r@ == self.job_entries().map_values(|e: (String, CronJobStatus)| e.1),
    {
        let mut r: Vec<CronJobStatus> = Vec::new();
        let mut i: usize = 0;
        while i < self.jobs.len()
            invariant
                i <= self.jobs.entries().len(),
                r@ == self.jobs.entries().take(i as int).map_values(|e: (String, CronJobStatus)| e.1),
            decreases self.jobs.entries().len() - i,
        {
            let (_, status) = self.jobs.entry(i);
            r.push(status.duplicate());
            assert(r@ =~= self.jobs.entries().take(i + 1).map_values(
                |e: (String, CronJobStatus)| e.1,
            ));
            i += 1;
        }
        assert(self.jobs.entries().take(i as int) =~= self.jobs.entries());
        r
    }
}

impl Default for CronScheduler {
    fn default() -> (s: Self)
        ensures
            s.wf(),
            s.jobs() == Map::<Seq<char>, CronJobStatus>::empty(),
            s.configs() == Map::<Seq<char>, CronJob>::empty(),
    {
        Self::new()
    }
}


/// Only an enabled job whose next run has come is ever due: every name that
/// `due_jobs` gives belongs to such a job, and has a configuration.
pub proof fn law_due_jobs_are_due(
    jobs: Seq<(String, CronJobStatus)>,
    configs: Map<Seq<char>, CronJob>,
    now: i64,
)
    ensures
        forall|i: int|
            0 <= i < due_names(jobs, configs, now).len() ==> configs.contains_key(
                #[trigger] due_names(jobs, configs, now)[i],
            ) && exists|j: int|
                0 <= j < jobs.len() && jobs[j].0@ == due_names(jobs, configs, now)[i] && is_due(
                    #[trigger] jobs[j].1,
                    now,
                ),
    decreases jobs.len(),
{
    if jobs.len() > 0 {
        law_due_jobs_are_due(jobs.drop_last(), configs, now);
        let d = due_names(jobs.drop_last(), configs, now);
        let e = due_names(jobs, configs, now);
        assert forall|i: int| 0 <= i < e.len() implies configs.contains_key(#[trigger] e[i]) && exists|j: int|
            0 <= j < jobs.len() && jobs[j].0@ == e[i] && is_due(#[trigger] jobs[j].1, now) by {
            if i < d.len() {
                assert(e[i] == d[i]);
                let j = choose|j: int|
                    0 <= j < jobs.drop_last().len() && jobs.drop_last()[j].0@ == d[i] && is_due(
                        #[trigger] jobs.drop_last()[j].1,
                        now,
                    );
                assert(jobs[j] == jobs.drop_last()[j]);
            } else {
                assert(jobs[jobs.len() - 1] == jobs.last());
            }
        }
    }
}


/// Every job that should run is run: an enabled job whose next run has
/// come and that has a configuration is listed as due, whatever it ran
/// before.
pub proof fn law_due_jobs_complete(
    jobs: Seq<(String, CronJobStatus)>,
    configs: Map<Seq<char>, CronJob>,
    now: i64,
)
    ensures
        forall|j: int|
            0 <= j < jobs.len() && (#[trigger] jobs[j]).1.enabled && jobs[j].1.next_run is Some
                && jobs[j].1.next_run->0 <= now && configs.contains_key(jobs[j].0@) ==> due_names(
                jobs,
                configs,
                now,
            ).contains(jobs[j].0@),
    decreases jobs.len(),
{
    if jobs.len() > 0 {
        let rest = jobs.drop_last();
        law_due_jobs_complete(rest, configs, now);
        let d = due_names(rest, configs, now);
        let e = due_names(jobs, configs, now);
        assert forall|j: int|
            0 <= j < jobs.len() && (#[trigger] jobs[j]).1.enabled && jobs[j].1.next_run is Some
                && jobs[j].1.next_run->0 <= now && configs.contains_key(jobs[j].0@) implies e.contains(
            jobs[j].0@,
        ) by {
            if j < jobs.len() - 1 {
                assert(rest[j] == jobs[j]);
                assert(d.contains(jobs[j].0@));
                let k = choose|k: int| 0 <= k < d.len() && d[k] == jobs[j].0@;
                if e != d {
                    assert(e[k] == d[k]);
                }
            } else {
                assert(jobs.last() == jobs[j]);
                assert(e[e.len() - 1] == jobs[j].0@);
            }
        }
    }
}

} // verus!
