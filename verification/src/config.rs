//! The configuration held in `.eggrc.toml`: the project, its supervisor
//! processes and its cron jobs, with the defaults of every optional field.
//!
//! Named tables are held as vectors of `(name, entry)` pairs; a well-formed
//! configuration names no entry twice.
use vstd::prelude::*;
use crate::text::{chars_of, contains, law_replace_absent, replace_all, replace_chars, string_of};

verus! {

/// The `[project]` table.
#[derive(Debug, Clone)]
pub struct ProjectConfig {
    pub name: String,
    pub description: Option<String>,
}

/// A `[supervisor.NAME]` table: a long-running worker.
#[derive(Debug, Clone)]
pub struct SupervisorProcess {
    pub enabled: bool,
    pub command: String,
    pub process_name: String,
    pub numprocs: u32,
    pub directory: Option<String>,
    pub autostart: bool,
    pub autorestart: String,
    pub startretries: u32,
    pub startsecs: u32,
    pub stopwaitsecs: u32,
    pub user: Option<String>,
    pub redirect_stderr: bool,
    pub stdout_logfile: Option<String>,
    pub stderr_logfile: Option<String>,
    pub environment: Option<Vec<(String, String)>>,
}

/// A `[cron.NAME]` table: a scheduled command.
#[derive(Debug, Clone)]
pub struct CronJob {
    pub enabled: bool,
    pub schedule: String,
    pub command: String,
    pub user: Option<String>,
    pub description: Option<String>,
}

/// The whole configuration file.
#[derive(Debug, Clone)]
pub struct EggConfig {
    pub project: ProjectConfig,
    pub supervisor: Vec<(String, SupervisorProcess)>,
    pub cron: Vec<(String, CronJob)>,
}

/// No key of a table of string pairs occurs twice.
pub open spec fn distinct_pair_keys(s: Seq<(String, String)>) -> bool {
    forall|i: int, j: int| 0 <= i < j < s.len() ==> s[i].0@ != s[j].0@
}

/// No two supervisor processes share a name.
pub open spec fn distinct_supervisor_names(s: Seq<(String, SupervisorProcess)>) -> bool {
    forall|i: int, j: int| 0 <= i < j < s.len() ==> s[i].0@ != s[j].0@
}

/// No two cron jobs share a name.
pub open spec fn distinct_cron_names(s: Seq<(String, CronJob)>) -> bool {
    forall|i: int, j: int| 0 <= i < j < s.len() ==> s[i].0@ != s[j].0@
}

impl SupervisorProcess {
    pub open spec fn wf(&self) -> bool {
        self.environment matches Some(env) ==> distinct_pair_keys(env@)
    }
}

impl EggConfig {
    /// Tables are keyed by name, as in the TOML file.
    pub open spec fn wf(&self) -> bool {
        &&& distinct_supervisor_names(self.supervisor@)
        &&& distinct_cron_names(self.cron@)
        &&& forall|i: int| 0 <= i < self.supervisor@.len() ==> (#[trigger] self.supervisor@[i]).1.wf()
    }
}

pub fn default_true() -> (b: bool)
    ensures
        b,
{
    true
}

pub fn default_process_name() -> (s: String)
    ensures
        s@ == "%(program_name)s_%(process_num)02d"@,
{
    "%(program_name)s_%(process_num)02d".to_string()
}

pub fn default_numprocs() -> (n: u32)
    ensures
        n == 1,
{
    1
}

pub fn default_autorestart() -> (s: String)
    ensures
        s@ == "true"@,
{
    "true".to_string()
}

pub fn default_startretries() -> (n: u32)
    ensures
        n == 3,
{
    3
}

pub fn default_startsecs() -> (n: u32)
    ensures
        n == 1,
{
    1
}

pub fn default_stopwaitsecs() -> (n: u32)
    ensures
        n == 10,
{
    10
}

/// The enabled supervisor processes, in the order of the table.
pub open spec fn enabled_supervisor_entries(s: Seq<(String, SupervisorProcess)>) -> Seq<
    (String, SupervisorProcess),
>
    decreases s.len(),
{
    if s.len() == 0 {
        seq![]
    } else if s.last().1.enabled {
        enabled_supervisor_entries(s.drop_last()).push(s.last())
    } else {
        enabled_supervisor_entries(s.drop_last())
    }
}

/// The enabled cron jobs, in the order of the table.
pub open spec fn enabled_cron_entries(s: Seq<(String, CronJob)>) -> Seq<(String, CronJob)>
    decreases s.len(),
{
    if s.len() == 0 {
        seq![]
    } else if s.last().1.enabled {
        enabled_cron_entries(s.drop_last()).push(s.last())
    } else {
        enabled_cron_entries(s.drop_last())
    }
}

/// The entries that a sequence of borrowed pairs points to.
pub open spec fn deref_pairs<T>(s: Seq<(&String, &T)>) -> Seq<(String, T)> {
    s.map_values(|p: (&String, &T)| (*p.0, *p.1))
}

/// `{KEY}`: the placeholder that a variable named `KEY` fills.
pub open spec fn placeholder(key: Seq<char>) -> Seq<char> {
    seq!['{'] + key + seq!['}']
}

/// The command with the placeholder of each variable replaced by its value,
/// one variable after the other in the order given.
pub open spec fn expand(cmd: Seq<char>, env: Seq<(String, String)>) -> Seq<char>
    decreases env.len(),
{
    if env.len() == 0 {
        cmd
    } else {
        replace_all(expand(cmd, env.drop_last()), placeholder(env.last().0@), env.last().1@)
    }
}

impl EggConfig {
    /// Get all enabled supervisor processes
    pub fn enabled_supervisors(&self) -> (r: Vec<(&String, &SupervisorProcess)>)
        ensures
            deref_pairs(r@) == enabled_supervisor_entries(self.supervisor@),
    {
        let mut r: Vec<(&String, &SupervisorProcess)> = Vec::new();
        let mut i: usize = 0;
        while i < self.supervisor.len()
            invariant
                i <= self.supervisor.len(),
                deref_pairs(r@) == enabled_supervisor_entries(self.supervisor@.take(i as int)),
            decreases self.supervisor.len() - i,
        {
            let ghost before = r@;
            assert(self.supervisor@.take(i + 1).drop_last() =~= self.supervisor@.take(i as int));
            let entry = &self.supervisor[i];
            if entry.1.enabled {
                r.push((&entry.0, &entry.1));
                assert(deref_pairs(r@) =~= deref_pairs(before).push(self.supervisor@[i as int]));
            }
            i += 1;
        }
        assert(self.supervisor@.take(i as int) =~= self.supervisor@);
        r
    }

    /// Get all enabled cron jobs
    pub fn enabled_crons(&self) -> (r: Vec<(&String, &CronJob)>)
        ensures
            deref_pairs(r@) == enabled_cron_entries(self.cron@),
    {
        let mut r: Vec<(&String, &CronJob)> = Vec::new();
        let mut i: usize = 0;
        while i < self.cron.len()
            invariant
                i <= self.cron.len(),
                deref_pairs(r@) == enabled_cron_entries(self.cron@.take(i as int)),
            decreases self.cron.len() - i,
        {
            let ghost before = r@;
            assert(self.cron@.take(i + 1).drop_last() =~= self.cron@.take(i as int));
            let entry = &self.cron[i];
            if entry.1.enabled {
                r.push((&entry.0, &entry.1));
                assert(deref_pairs(r@) =~= deref_pairs(before).push(self.cron@[i as int]));
            }
            i += 1;
        }
        assert(self.cron@.take(i as int) =~= self.cron@);
        r
    }
}

impl SupervisorProcess {
    /// Expand the command with any environment variable placeholders
    pub fn expand_command(&self, env_vars: &Vec<(String, String)>) -> (r: String)
        ensures
            r@ == expand(self.command@, env_vars@),
    {
        let mut cmd = chars_of(self.command.as_str());
        let mut i: usize = 0;
        while i < env_vars.len()
            invariant
                i <= env_vars.len(),
                cmd@ == expand(self.command@, env_vars@.take(i as int)),
            decreases env_vars.len() - i,
        {
            assert(env_vars@.take(i + 1).drop_last() =~= env_vars@.take(i as int));
            let key = chars_of(env_vars[i].0.as_str());
            let value = chars_of(env_vars[i].1.as_str());
            let mut pat: Vec<char> = Vec::new();
            pat.push('{');
            let mut k: usize = 0;
            while k < key.len()
                invariant
                    k <= key.len(),
                    pat@ == seq!['{'] + key@.take(k as int),
                decreases key.len() - k,
            {
                pat.push(key[k]);
                assert(seq!['{'] + key@.take(k + 1) =~= (seq!['{'] + key@.take(k as int)).push(
                    key@[k as int],
                ));
                k += 1;
            }
            pat.push('}');
            assert(key@.take(key.len() as int) =~= key@);
            assert(pat@ =~= placeholder(key@));
            cmd = replace_chars(&cmd, &pat, &value);
            i += 1;
        }
        assert(env_vars@.take(i as int) =~= env_vars@);
        string_of(&cmd)
    }
}


/// A command in which no variable's placeholder occurs is left as it is.
pub proof fn law_expand_without_placeholders(cmd: Seq<char>, env: Seq<(String, String)>)
    requires
        forall|i: int| 0 <= i < env.len() ==> !contains(cmd, placeholder(#[trigger] env[i].0@)),
    ensures
        expand(cmd, env) == cmd,
    decreases env.len(),
{
    if env.len() > 0 {
        assert forall|i: int| 0 <= i < env.drop_last().len() implies !contains(
            cmd,
            placeholder(#[trigger] env.drop_last()[i].0@),
        ) by {
            assert(env.drop_last()[i] == env[i]);
        }
        law_expand_without_placeholders(cmd, env.drop_last());
        assert(!contains(cmd, placeholder(env[env.len() - 1].0@)));
        law_replace_absent(cmd, placeholder(env.last().0@), env.last().1@);
    }
}

/// Every entry that `enabled_supervisors` lists is an enabled process of
/// the table, and no more are listed than the table holds.
pub proof fn law_enabled_supervisors_are_enabled(s: Seq<(String, SupervisorProcess)>)
    ensures
        enabled_supervisor_entries(s).len() <= s.len(),
        forall|i: int|
            0 <= i < enabled_supervisor_entries(s).len() ==> (#[trigger] enabled_supervisor_entries(
                s,
            )[i]).1.enabled && s.contains(enabled_supervisor_entries(s)[i]),
    decreases s.len(),
{
    if s.len() > 0 {
        law_enabled_supervisors_are_enabled(s.drop_last());
        let e = enabled_supervisor_entries(s);
        let d = enabled_supervisor_entries(s.drop_last());
        assert forall|i: int| 0 <= i < e.len() implies (#[trigger] e[i]).1.enabled && s.contains(e[i]) by {
            if i < d.len() {
                assert(e[i] == d[i]);
                let j = choose|j: int| 0 <= j < s.drop_last().len() && s.drop_last()[j] == d[i];
                assert(s[j] == d[i]);
            } else {
                assert(e[i] == s.last());
                assert(s[s.len() - 1] == s.last());
            }
        }
    }
}

} // verus!
