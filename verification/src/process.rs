//! Supervisor process bookkeeping: the names of process instances, how a
//! command is split into a program and its arguments, what a spawn attempt
//! leaves as an instance record, when an exited instance is started again,
//! and the table of running instances.
use vstd::prelude::*;
use crate::table::NamedTable;
use crate::text::{
    chars_of, dec2, law_dec2_injective, push_decimal2, split_whitespace, split_ws, string_of, views,
};

verus! {

/// Status of a managed process
#[derive(Debug, Clone)]
pub enum ProcessStatus {
    Starting,
    Running,
    Stopping,
    Stopped,
    Failed(String),
    Restarting,
}

/// The word that names a status.
pub open spec fn status_word(s: ProcessStatus) -> Seq<char> {
    match s {
        ProcessStatus::Starting => "STARTING"@,
        ProcessStatus::Running => "RUNNING"@,
        ProcessStatus::Stopping => "STOPPING"@,
        ProcessStatus::Stopped => "STOPPED"@,
        ProcessStatus::Failed(_) => "FAILED"@,
        ProcessStatus::Restarting => "RESTARTING"@,
    }
}

impl ProcessStatus {
    /// The word that names the status.
    pub fn word(&self) -> (r: String)
        ensures
            r@ == status_word(*self),
    {
        match self {
            ProcessStatus::Starting => "STARTING".to_string(),
            ProcessStatus::Running => "RUNNING".to_string(),
            ProcessStatus::Stopping => "STOPPING".to_string(),
            ProcessStatus::Stopped => "STOPPED".to_string(),
            ProcessStatus::Failed(_) => "FAILED".to_string(),
            ProcessStatus::Restarting => "RESTARTING".to_string(),
        }
    }

    /// The status as it is shown: its word, and for a failure the reason in
    /// parentheses.
    pub fn label(&self) -> (r: String)
        ensures
            r@ == (match *self {
                ProcessStatus::Failed(e) => "FAILED ("@ + e@ + ")"@,
                other => status_word(other),
            }),
    {
        match self {
            ProcessStatus::Failed(e) => {
                let mut r = "FAILED (".to_string();
                r.append(e.as_str());
                r.append(")");
                r
            },
            _ => self.word(),
        }
    }

    /// A copy of the status.
    pub fn duplicate(&self) -> (r: Self)
        ensures
            r == *self,
    {
        match self {
            ProcessStatus::Starting => ProcessStatus::Starting,
            ProcessStatus::Running => ProcessStatus::Running,
            ProcessStatus::Stopping => ProcessStatus::Stopping,
            ProcessStatus::Stopped => ProcessStatus::Stopped,
            ProcessStatus::Failed(e) => ProcessStatus::Failed(e.clone()),
            ProcessStatus::Restarting => ProcessStatus::Restarting,
        }
    }
}

/// Information about a running process instance
#[derive(Debug, Clone)]
pub struct ProcessInstance {
    pub name: String,
    pub instance_num: u32,
    pub pid: Option<u32>,
    pub status: ProcessStatus,
    pub restarts: u32,
}

impl ProcessInstance {
    /// A copy of the record.
    pub fn duplicate(&self) -> (r: Self)
        ensures
            r == *self,
    {
        ProcessInstance {
            name: self.name.clone(),
            instance_num: self.instance_num,
            pid: self.pid,
            status: self.status.duplicate(),
            restarts: self.restarts,
        }
    }
}

/// `NAME_NN`: the name of instance `i` of a process, numbered from zero
/// with at least two digits.
pub fn instance_name(name: &str, i: u32) -> (r: String)
    ensures
        r@ == name@ + "_"@ + dec2(i as nat),
{
    let mut r = name.to_string();
    r.append("_");
    push_decimal2(&mut r, i as u64);
    r
}

/// A command that has no program to run.
#[derive(Debug, Clone)]
pub enum SpawnError {
    EmptyCommand,
}

impl SpawnError {
    pub fn message(&self) -> (r: String)
        ensures
            r@ == "Empty command"@,
    {
        "Empty command".to_string()
    }
}

/// The program and arguments of a command: its whitespace-separated words,
/// the first of which is the program.
pub fn split_command(command: &str) -> (r: Result<(String, Vec<String>), SpawnError>)
    ensures
        r is Err <==> split_ws(command@).len() == 0,
        r matches Ok((program, args)) ==> {
            &&& program@ == split_ws(command@)[0]
            &&& args@.map_values(|a: String| a@) == split_ws(command@).drop_first()
        },
{
    let chars = chars_of(command);
    let words = split_whitespace(&chars);
    if words.len() == 0 {
        return Err(SpawnError::EmptyCommand);
    }
    let program = string_of(&words[0]);
    assert(views(words@)[0] == words@[0]@);
    let mut args: Vec<String> = Vec::new();
    let mut i: usize = 1;
    assert(args@.map_values(|a: String| a@) =~= views(words@).subrange(1, 1));
    while i < words.len()
        invariant
            1 <= i <= words.len(),
            views(words@) == split_ws(command@),
            args@.map_values(|a: String| a@) == views(words@).subrange(1, i as int),
        decreases words.len() - i,
    {
        let ghost before = args@;
        args.push(string_of(&words[i]));
        assert(views(words@)[i as int] == words@[i as int]@);
        assert(args@.map_values(|a: String| a@) =~= before.map_values(|a: String| a@).push(
            words@[i as int]@,
        ));
        assert(args@.map_values(|a: String| a@) =~= views(words@).subrange(1, i + 1));
        i += 1;
    }
    assert(views(words@).subrange(1, i as int) =~= views(words@).drop_first());
    Ok((program, args))
}

/// The record of instance `instance_num` after an attempt to spawn it: a
/// running process with the id it got, or a failure with the reason.
pub fn spawned_instance(name: &str, instance_num: u32, outcome: Result<Option<u32>, String>) -> (r:
    ProcessInstance)
    ensures
        r.name@ == name@,
        r.instance_num == instance_num,
        r.restarts == 0,
        outcome matches Ok(pid) ==> r.pid == pid && r.status == ProcessStatus::Running,
        outcome matches Err(e) ==> r.pid is None && r.status == ProcessStatus::Failed(e),
{
    match outcome {
        Ok(pid) => ProcessInstance {
            name: name.to_string(),
            instance_num,
            pid,
            status: ProcessStatus::Running,
            restarts: 0,
        },
        Err(e) => ProcessInstance {
            name: name.to_string(),
            instance_num,
            pid: None,
            status: ProcessStatus::Failed(e),
            restarts: 0,
        },
    }
}

/// The record that `spawned_instance` makes of instance `i` of a process.
pub open spec fn spawned_record(
    name: Seq<char>,
    i: nat,
    outcome: Result<Option<u32>, String>,
    r: ProcessInstance,
) -> bool {
    &&& r.name@ == name + "_"@ + dec2(i)
    &&& r.instance_num == i
    &&& r.restarts == 0
    &&& match outcome {
        Ok(pid) => r.pid == pid && r.status == ProcessStatus::Running,
        Err(e) => r.pid is None && r.status == ProcessStatus::Failed(e),
    }
}

/// The records of a started process: one per spawn attempt, in order,
/// instance `i` named `NAME_ii`.
pub fn instance_records(name: &str, outcomes: &Vec<Result<Option<u32>, String>>) -> (r: Vec<
    ProcessInstance,
>)
    requires
        outcomes@.len() <= u32::MAX,
    ensures
        r@.len() == outcomes@.len(),
        forall|i: int| 0 <= i < r@.len() ==> spawned_record(name@, i as nat, outcomes@[i], #[trigger] r@[i]),
{
    let mut r: Vec<ProcessInstance> = Vec::new();
    let mut i: usize = 0;
    while i < outcomes.len()
        invariant
            i <= outcomes@.len() <= u32::MAX,
            r@.len() == i,
            forall|j: int| 0 <= j < i ==> spawned_record(name@, j as nat, outcomes@[j], #[trigger] r@[j]),
        decreases outcomes.len() - i,
    {
        let outcome = match &outcomes[i] {
            Ok(pid) => Ok(*pid),
            Err(e) => Err(e.clone()),
        };
        let label = instance_name(name, i as u32);
        r.push(spawned_instance(label.as_str(), i as u32, outcome));
        i += 1;
    }
    r
}

/// What becomes of an instance whose process exited.
#[derive(Debug, Clone, Copy, PartialEq, Eq)]
pub enum ExitAction {
    /// Start it again.
    Restart,
    /// It should run, but has used up its restarts.
    GiveUp,
    /// It is not to be restarted.
    Stop,
}

/// Whether `autorestart` asks for a restart after an exit with `exit_code`:
/// always for `true`, for any exit but a clean one (code 0) for
/// `unexpected`, and never otherwise.
pub open spec fn wants_restart(autorestart: Seq<char>, exit_code: Option<i32>) -> bool {
    autorestart == "true"@ || (autorestart == "unexpected"@ && exit_code != Some(0i32))
}

/// An exited instance is restarted when `autorestart` asks for it, at most
/// `startretries` times.
pub open spec fn exit_action(
    autorestart: Seq<char>,
    startretries: u32,
    restarts: u32,
    exit_code: Option<i32>,
) -> ExitAction {
    if !wants_restart(autorestart, exit_code) {
        ExitAction::Stop
    } else if restarts < startretries {
        ExitAction::Restart
    } else {
        ExitAction::GiveUp
    }
}

/// A restart is only decided while fewer than `startretries` restarts were
/// made, so an instance is restarted at most `startretries` times.
pub proof fn law_restarts_bounded(
    autorestart: Seq<char>,
    startretries: u32,
    restarts: u32,
    exit_code: Option<i32>,
)
    ensures
        exit_action(autorestart, startretries, restarts, exit_code) == ExitAction::Restart
            ==> restarts + 1 <= startretries,
        !wants_restart(autorestart, exit_code) ==> exit_action(
            autorestart,
            startretries,
            restarts,
            exit_code,
        ) == ExitAction::Stop,
{
}

/// The decision for an exited instance, and its record until it is
/// started again: restarting (with one more restart counted), failed for
/// good, or stopped.
pub fn after_exit(instance: &ProcessInstance, autorestart: &str, startretries: u32, exit_code: Option<i32>) -> (r: (
    ExitAction,
    ProcessInstance,
))
    ensures
        r.0 == exit_action(autorestart@, startretries, instance.restarts, exit_code),
        r.1.name == instance.name,
        r.1.instance_num == instance.instance_num,
        r.1.pid is None,
        r.0 == ExitAction::Restart ==> r.1.status == ProcessStatus::Restarting && r.1.restarts
            == instance.restarts + 1,
        r.0 == ExitAction::GiveUp ==> r.1.status == ProcessStatus::Failed(r.1.status->0)
            && r.1.status->0@ == "too many restarts"@ && r.1.restarts == instance.restarts,
        r.0 == ExitAction::Stop ==> r.1.status == ProcessStatus::Stopped && r.1.restarts
            == instance.restarts,
{
    let wants = crate::text::str_is(autorestart, "true") || (crate::text::str_is(
        autorestart,
        "unexpected",
    ) && match exit_code {
        Some(c) => c != 0,
        None => true,
    });
    let (action, status, restarts) = if !wants {
        (ExitAction::Stop, ProcessStatus::Stopped, instance.restarts)
    } else if instance.restarts < startretries {
        (ExitAction::Restart, ProcessStatus::Restarting, instance.restarts + 1)
    } else {
        (ExitAction::GiveUp, ProcessStatus::Failed("too many restarts".to_string()), instance.restarts)
    };
    (action, ProcessInstance {
        name: instance.name.clone(),
        instance_num: instance.instance_num,
        pid: None,
        status,
        restarts,
    })
}

/// The record of a restarted instance after the new spawn attempt: running
/// with its new id, or failed with the reason; its restarts are kept.
pub fn respawned_instance(instance: &ProcessInstance, outcome: Result<Option<u32>, String>) -> (r:
    ProcessInstance)
    ensures
        r.name == instance.name,
        r.instance_num == instance.instance_num,
        r.restarts == instance.restarts,
        outcome matches Ok(pid) ==> r.pid == pid && r.status == ProcessStatus::Running,
        outcome matches Err(e) ==> r.pid is None && r.status == ProcessStatus::Failed(e),
{
    let (pid, status) = match outcome {
        Ok(pid) => (pid, ProcessStatus::Running),
        Err(e) => (None, ProcessStatus::Failed(e)),
    };
    ProcessInstance {
        name: instance.name.clone(),
        instance_num: instance.instance_num,
        pid,
        status,
        restarts: instance.restarts,
    }
}

/// The instances of each started process, by process name.
pub struct ProcessTable {
    pub processes: NamedTable<Vec<ProcessInstance>>,
}

impl ProcessTable {
    pub open spec fn wf(&self) -> bool {
        self.processes.wf()
    }

    pub fn new() -> (t: Self)
        ensures
            t.wf(),
            t.processes@ == Map::<Seq<char>, Vec<ProcessInstance>>::empty(),
    {
        ProcessTable { processes: NamedTable::new() }
    }

    /// Records the instances of a process, replacing earlier ones.
    pub fn insert(&mut self, name: &str, instances: Vec<ProcessInstance>)
        requires
            old(self).wf(),
        ensures
            final(self).wf(),
            final(self).processes@ == old(self).processes@.insert(name@, instances),
    {
        self.processes.insert(name, instances);
    }

    /// Forgets every process.
    pub fn clear(&mut self)
        ensures
            final(self).wf(),
            final(self).processes@ == Map::<Seq<char>, Vec<ProcessInstance>>::empty(),
    {
        self.processes.clear();
    }

    /// Get the status of all processes: a copy of every record.
    pub fn get_status(&self) -> (r: Vec<(String, Vec<ProcessInstance>)>)
        requires
            self.wf(),
        ensures
            r@.len() == self.processes.entries().len(),
            forall|i: int|
                0 <= i < r@.len() ==> #[trigger] r@[i].0 == self.processes.entries()[i].0
                    && r@[i].1@ == self.processes.entries()[i].1@,
    {
        let mut r: Vec<(String, Vec<ProcessInstance>)> = Vec::new();
        let mut i: usize = 0;
        while i < self.processes.len()
            invariant
                i <= self.processes.entries().len(),
                r@.len() == i,
                forall|j: int|
                    0 <= j < i ==> #[trigger] r@[j].0 == self.processes.entries()[j].0
                        && r@[j].1@ == self.processes.entries()[j].1@,
            decreases self.processes.entries().len() - i,
        {
            let (name, instances) = self.processes.entry(i);
            let mut copies: Vec<ProcessInstance> = Vec::new();
            let mut k: usize = 0;
            while k < instances.len()
                invariant
                    k <= instances.len(),
                    copies@ == instances@.take(k as int),
                decreases instances.len() - k,
            {
                copies.push(instances[k].duplicate());
                assert(copies@ =~= instances@.take(k + 1));
                k += 1;
            }
            assert(instances@.take(k as int) =~= instances@);
            r.push((name.clone(), copies));
            i += 1;
        }
        r
    }
}


/// Different instances of a process get different names.
pub proof fn law_instance_names_distinct(name: Seq<char>, i: u32, j: u32)
    requires
        i != j,
    ensures
        name + "_"@ + dec2(i as nat) != name + "_"@ + dec2(j as nat),
{
    law_dec2_injective(i as nat, j as nat);
    let a = name + "_"@ + dec2(i as nat);
    let b = name + "_"@ + dec2(j as nat);
    if a == b {
        let start: int = (name.len() + "_"@.len()) as int;
        assert(a.skip(start) =~= dec2(i as nat));
        assert(b.skip(start) =~= dec2(j as nat));
    }
}

} // verus!
