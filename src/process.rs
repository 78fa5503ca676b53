use vstd::prelude::*;
use crate::config::{Config, ConfigManager, EnvVars, ProcessConfig, invalid_error, valid_processes};
use crate::env::{env_map, keys_unique, merge_env, merged_env};
use crate::error::{classify_error, classify_exit, ErrorType, JanusError};

verus! {

/// Where a managed process is in its lifecycle.
#[derive(Debug, Clone, Copy, PartialEq, Eq, Structural)]
pub enum ProcessStatus {
    Running,
    Stopped,
    Failed,
}

pub open spec fn status_label(s: ProcessStatus) -> Seq<char> {
    match s {
        ProcessStatus::Running => "RUNNING"@,
        ProcessStatus::Stopped => "STOPPED"@,
        ProcessStatus::Failed => "FAILED"@,
    }
}

impl ProcessStatus {
    /// The word under which the status is shown.
    pub fn as_text(&self) -> (r: &'static str)
        ensures
            r@ == status_label(*self),
    {
        match self {
            ProcessStatus::Running => "RUNNING",
            ProcessStatus::Stopped => "STOPPED",
            ProcessStatus::Failed => "FAILED",
        }
    }
}

/// The runtime record of one configured process. `H` is the handle through
/// which the running OS process is controlled; a record holds it exactly while
/// it is running.
pub struct ManagedProcess<H> {
    pub name: String,
    pub command: String,
    pub args: Vec<String>,
    pub working_dir: Option<String>,
    pub env: EnvVars,
    pub auto_restart: bool,
    pub restart_count: u32,
    pub restart_limit: Option<u32>,
    /// Seconds to wait before an automatic restart.
    pub restart_delay: u64,
    pub status: ProcessStatus,
    pub process: Option<H>,
    /// Milliseconds on the supervisor's clock at the latest launch.
    pub start_time: Option<u64>,
    /// Set before the supervisor terminates the process itself, so that the exit
    /// is not taken for a crash.
    pub stop_requested: bool,
    /// The restart policy asked for an automatic relaunch that has not yet
    /// happened.
    pub restart_pending: bool,
}

impl<H> ManagedProcess<H> {
    /// The record's invariants: a handle and a start time exactly while running,
    /// variables without repeated keys, the restart count within its limit, and
    /// a stop request only on a running record, a pending relaunch only on a
    /// stopped one.
    pub open spec fn wf(&self) -> bool {
        &&& (self.status == ProcessStatus::Running) == (self.process is Some)
        &&& (self.status == ProcessStatus::Running) == (self.start_time is Some)
        &&& keys_unique(self.env@)
        &&& (self.restart_limit matches Some(k) ==> self.restart_count <= k)
        &&& (self.stop_requested ==> self.status == ProcessStatus::Running)
        &&& (self.restart_pending ==> self.status == ProcessStatus::Stopped)
    }
}

/// What the restart policy decides after an exit.
#[derive(Debug, Clone, Copy, PartialEq, Eq, Structural)]
pub enum Decision {
    /// Leave the process stopped.
    StopFinal,
    /// Stop supervising it: the reason is given.
    GiveUp(ErrorType),
    /// Launch it again after this many seconds.
    RestartAfter(u64),
}

/// The restart policy: a stop that the supervisor asked for is final, as is any
/// exit of a process without automatic restart; a process that has used up its
/// restart limit is given up; any other is restarted after its delay.
pub open spec fn policy(
    auto_restart: bool,
    restart_limit: Option<u32>,
    restart_count: u32,
    restart_delay: u64,
    supervisor_initiated: bool,
) -> Decision {
    if supervisor_initiated || !auto_restart {
        Decision::StopFinal
    } else if restart_limit matches Some(k) && restart_count >= k {
        Decision::GiveUp(ErrorType::RestartLimited)
    } else {
        Decision::RestartAfter(restart_delay)
    }
}

pub open spec fn record_policy<H>(r: ManagedProcess<H>, supervisor_initiated: bool) -> Decision {
    policy(r.auto_restart, r.restart_limit, r.restart_count, r.restart_delay, supervisor_initiated)
}

/// Applies the restart policy to a record whose process has just exited.
pub fn decide<H>(record: &ManagedProcess<H>, supervisor_initiated: bool) -> (d: Decision)
    ensures
        d == record_policy(*record, supervisor_initiated),
{
    if supervisor_initiated || !record.auto_restart {
        Decision::StopFinal
    } else {
        match record.restart_limit {
            Some(k) if record.restart_count >= k => Decision::GiveUp(ErrorType::RestartLimited),
            _ => Decision::RestartAfter(record.restart_delay),
        }
    }
}

/// A record after a successful launch.
pub open spec fn launched<H>(r: ManagedProcess<H>, h: H, now: u64) -> ManagedProcess<H> {
    ManagedProcess {
        status: ProcessStatus::Running,
        process: Some(h),
        start_time: Some(now),
        stop_requested: false,
        restart_pending: false,
        ..r
    }
}

/// A record whose launch the OS refused.
pub open spec fn launch_refused<H>(r: ManagedProcess<H>) -> ManagedProcess<H> {
    ManagedProcess { status: ProcessStatus::Failed, restart_pending: false, ..r }
}

/// A record that the supervisor is about to terminate.
pub open spec fn stop_marked<H>(r: ManagedProcess<H>) -> ManagedProcess<H> {
    ManagedProcess { stop_requested: true, ..r }
}

/// A record whose process has exited: no handle, no start time, no stop
/// request; failed if the policy gives it up, stopped otherwise, with a relaunch
/// pending if the policy asks for one.
pub open spec fn exited<H>(r: ManagedProcess<H>) -> ManagedProcess<H> {
    ManagedProcess {
        status: if record_policy(r, r.stop_requested) is GiveUp {
            ProcessStatus::Failed
        } else {
            ProcessStatus::Stopped
        },
        process: None,
        start_time: None,
        stop_requested: false,
        restart_pending: record_policy(r, r.stop_requested) is RestartAfter,
        ..r
    }
}

/// An automatic relaunch may go ahead: the policy asked for it at the latest
/// exit and nothing has launched the record since, restarts are on, and the
/// limit, if any, is not reached.
pub open spec fn relaunch_allowed<H>(r: ManagedProcess<H>) -> bool {
    &&& r.restart_pending
    &&& r.status == ProcessStatus::Stopped
    &&& r.auto_restart
    &&& (r.restart_limit matches Some(k) ==> r.restart_count < k)
}

/// A record whose automatic relaunch has been counted (the count stays at its
/// maximum once there).
pub open spec fn relaunch_counted<H>(r: ManagedProcess<H>) -> ManagedProcess<H> {
    ManagedProcess {
        restart_count: if r.restart_count < u32::MAX {
            (r.restart_count + 1) as u32
        } else {
            r.restart_count
        },
        restart_pending: false,
        ..r
    }
}

/// What `start` has to do.
pub enum StartStep {
    /// The process runs already: nothing to do.
    AlreadyRunning,
    /// Launch the record at this position, then report through `finish_start`.
    Launch(usize),
}

/// What `stop` has to do.
pub enum StopStep {
    /// The process does not run: nothing to do.
    NotRunning,
    /// Terminate the process of the record at this position.
    Kill(usize),
}

/// Why the supervisor terminates a process.
#[derive(Debug, Clone, Copy, PartialEq, Eq, Structural)]
pub enum StopPurpose {
    /// A stop of that one process.
    Stop,
    /// The stop half of a restart.
    Restart,
    /// A stop of every process.
    StopAll,
}

/// How a refused termination is reported: a single stop speaks of the kill,
/// a restart or a stop of everything of the stop.
pub open spec fn refusal_prefix(p: StopPurpose) -> Seq<char> {
    match p {
        StopPurpose::Stop => "Failed to kill process: "@,
        _ => "Failed to stop process: "@,
    }
}

/// What became of a record whose process exited.
pub struct ExitReport<H> {
    /// The exit code; -1 when the OS gave none.
    pub exit_code: i32,
    pub error_type: ErrorType,
    /// The supervisor had asked for the exit.
    pub supervisor_initiated: bool,
    pub decision: Decision,
    /// The handle the record held.
    pub handle: Option<H>,
}

fn not_found(name: &str) -> (e: JanusError)
    ensures
        e matches JanusError::Process(m) && m@ == "Process not found: "@ + name@,
{
    JanusError::Process(String::from_str("Process not found: ").concat(name))
}

/// Names are pairwise distinct.
pub open spec fn names_unique<H>(rs: Seq<ManagedProcess<H>>) -> bool {
    forall|i: int, j: int|
        0 <= i < j < rs.len() ==> (#[trigger] rs[i]).name@ != (#[trigger] rs[j]).name@
}

/// The record that a configured process starts from.
pub open spec fn initial_record<H>(
    c: ProcessConfig,
    global_env: Seq<(String, String)>,
    global_dir: Option<String>,
    r: ManagedProcess<H>,
) -> bool {
    &&& r.name@ == c.name@
    &&& r.command@ == c.command@
    &&& r.args@ == (match c.args {
        Some(a) => a@,
        None => Seq::empty(),
    })
    &&& env_map(r.env@) == merged_env(
        global_env,
        match c.env {
            Some(e) => e@,
            None => Seq::empty(),
        },
    )
    &&& r.working_dir == (match c.working_dir {
        Some(d) => Some(d),
        None => global_dir,
    })
    &&& r.auto_restart == (match c.auto_restart {
        Some(b) => b,
        None => false,
    })
    &&& r.restart_limit == c.restart_limit
    &&& r.restart_delay == (match c.restart_delay {
        Some(d) => d,
        None => 1u64,
    })
    &&& r.restart_count == 0
    &&& r.status == ProcessStatus::Stopped
    &&& r.process is None
    &&& r.start_time is None
    &&& !r.stop_requested
    &&& !r.restart_pending
}

fn clone_strings(v: &Vec<String>) -> (r: Vec<String>)
    ensures
        r@ == v@,
{
    let mut r: Vec<String> = Vec::new();
    let mut i: usize = 0;
    while i < v.len()
        invariant
            i <= v@.len(),
            r@ == v@.subrange(0, i as int),
        decreases v@.len() - i,
    {
        r.push(v[i].clone());
        proof {
            assert(r@ =~= v@.subrange(0, i + 1));
        }
        i = i + 1;
    }
    assert(v@.subrange(0, v@.len() as int) =~= v@);
    r
}

fn clone_env(v: &EnvVars) -> (r: EnvVars)
    ensures
        r@ == v@,
{
    let mut r: EnvVars = Vec::new();
    let mut i: usize = 0;
    while i < v.len()
        invariant
            i <= v@.len(),
            r@ == v@.subrange(0, i as int),
        decreases v@.len() - i,
    {
        r.push((v[i].0.clone(), v[i].1.clone()));
        proof {
            assert(r@ =~= v@.subrange(0, i + 1));
        }
        i = i + 1;
    }
    assert(v@.subrange(0, v@.len() as int) =~= v@);
    r
}

fn clone_opt_string(o: &Option<String>) -> (r: Option<String>)
    ensures
        r == *o,
{
    match o {
        Some(s) => Some(s.clone()),
        None => None,
    }
}

/// The record for a configured process, before it is first started.
fn record_from_config<H>(
    c: &ProcessConfig,
    global_env: &EnvVars,
    global_dir: &Option<String>,
) -> (r: ManagedProcess<H>)
    ensures
        initial_record(*c, global_env@, *global_dir, r),
        r.wf(),
{
    let args = match &c.args {
        Some(a) => clone_strings(a),
        None => Vec::new(),
    };
    let no_env: EnvVars = Vec::new();
    let env = match &c.env {
        Some(e) => merge_env(global_env, e),
        None => merge_env(global_env, &no_env),
    };
    let working_dir = match &c.working_dir {
        Some(d) => Some(d.clone()),
        None => clone_opt_string(global_dir),
    };
    let auto_restart = match c.auto_restart {
        Some(b) => b,
        None => false,
    };
    let restart_delay = match c.restart_delay {
        Some(d) => d,
        None => 1,
    };
    ManagedProcess {
        name: c.name.clone(),
        command: c.command.clone(),
        args,
        working_dir,
        env,
        auto_restart,
        restart_count: 0,
        restart_limit: c.restart_limit,
        restart_delay,
        status: ProcessStatus::Stopped,
        process: None,
        start_time: None,
        stop_requested: false,
        restart_pending: false,
    }
}

/// No start time is later than the latest one handed out.
pub open spec fn stamps_within<H>(rs: Seq<ManagedProcess<H>>, last: Option<u64>) -> bool {
    forall|i: int| 0 <= i < rs.len() ==> ((#[trigger] rs[i]).start_time matches Some(t) ==> (last matches Some(l) && t <= l))
}

/// The start time of a launch at clock reading `now`, after `last` was handed
/// out: the reading itself if it is later, else the next value, so that start
/// times only grow (they stay at the clock's end once there).
pub open spec fn next_stamp(last: Option<u64>, now: u64) -> u64 {
    match last {
        None => now,
        Some(l) => if now > l {
            now
        } else if l < u64::MAX {
            (l + 1) as u64
        } else {
            l
        },
    }
}

/// Replacing a record by a well-formed one under the same name keeps the table
/// well formed.
proof fn lemma_update_wf<H>(rs: Seq<ManagedProcess<H>>, i: int, rec: ManagedProcess<H>, last: Option<u64>)
    requires
        names_unique(rs),
        forall|a: int| 0 <= a < rs.len() ==> (#[trigger] rs[a]).wf(),
        stamps_within(rs, last),
        0 <= i < rs.len(),
        rec.wf(),
        rec.name@ == rs[i].name@,
        rec.start_time matches Some(t) ==> (last matches Some(l) && t <= l),
    ensures
        names_unique(rs.update(i, rec)),
        forall|a: int| 0 <= a < rs.len() ==> (#[trigger] rs.update(i, rec)[a]).wf(),
        stamps_within(rs.update(i, rec), last),
{
    let us = rs.update(i, rec);
    assert forall|a: int| 0 <= a < us.len() implies ((#[trigger] us[a]).start_time matches Some(t) ==> (last matches Some(l) && t <= l)) by {
        if a != i {
            assert(us[a] == rs[a]);
        }
    }
    assert forall|a: int, b: int| 0 <= a < b < us.len() implies (#[trigger] us[a]).name@ != (#[trigger] us[b]).name@ by {
        assert(rs[a].name@ == us[a].name@);
        assert(rs[b].name@ == us[b].name@);
    }
    assert forall|a: int| 0 <= a < rs.len() implies (#[trigger] us[a]).wf() by {
        if a != i {
            assert(rs[a].wf());
        }
    }
}

/// The process table: one record per configured process, in configuration
/// order, under distinct names.
pub struct ProcessManager<H> {
    processes: Vec<ManagedProcess<H>>,
    /// The latest start time handed out, if any.
    last_stamp: Option<u64>,
}

impl<H> ProcessManager<H> {
    pub closed spec fn records(&self) -> Seq<ManagedProcess<H>> {
        self.processes@
    }

    pub closed spec fn last_stamp(&self) -> Option<u64> {
        self.last_stamp
    }

    /// Every record is well formed, names are distinct, and no start time is
    /// later than the latest one handed out.
    pub open spec fn wf(&self) -> bool {
        &&& names_unique(self.records())
        &&& forall|i: int| 0 <= i < self.records().len() ==> (#[trigger] self.records()[i]).wf()
        &&& stamps_within(self.records(), self.last_stamp())
    }

    /// The table for a checked configuration: each process resolved against the
    /// global settings (variables merged, working directory inherited) and
    /// stopped.
    pub fn new(config_manager: ConfigManager) -> (r: ProcessManager<H>)
        requires
            valid_processes(config_manager.spec_config().process@),
        ensures
            r.wf(),
            r.last_stamp() is None,
            r.records().len() == config_manager.spec_config().process@.len(),
            forall|i: int|
                0 <= i < r.records().len() ==> initial_record(
                    config_manager.spec_config().process@[i],
                    match config_manager.spec_config().global.env {
                        Some(e) => e@,
                        None => Seq::empty(),
                    },
                    config_manager.spec_config().global.working_dir,
                    #[trigger] r.records()[i],
                ),
    {
        let configs = config_manager.get_process_configs();
        let global = config_manager.get_global_config();
        let no_env: EnvVars = Vec::new();
        let global_env = match &global.env {
            Some(e) => e,
            None => &no_env,
        };
        let ghost genv: Seq<(String, String)> = match config_manager.spec_config().global.env {
            Some(e) => e@,
            None => Seq::empty(),
        };
        let mut processes: Vec<ManagedProcess<H>> = Vec::new();
        let mut i: usize = 0;
        while i < configs.len()
            invariant
                configs@ == config_manager.spec_config().process@,
                valid_processes(configs@),
                global_env@ == genv,
                *global == config_manager.spec_config().global,
                i <= configs@.len(),
                processes@.len() == i,
                forall|j: int|
                    0 <= j < i ==> initial_record(configs@[j], genv, global.working_dir, #[trigger] processes@[j]),
                forall|j: int| 0 <= j < i ==> (#[trigger] processes@[j]).wf(),
                names_unique(processes@),
            decreases configs@.len() - i,
        {
            let rec = record_from_config(&configs[i], global_env, &global.working_dir);
            proof {
                assert forall|j: int| 0 <= j < i implies processes@[j].name@ != rec.name@ by {
                    assert(!crate::config::invalid_at(configs@, i as int));
                    assert(!crate::config::duplicate_at(configs@, i as int));
                    assert(configs@[j].name@ == processes@[j].name@);
                }
            }
            processes.push(rec);
            i = i + 1;
        }
        ProcessManager { processes, last_stamp: None }
    }

    /// The table for `config`, read from `config_path`, once the configuration
    /// has been checked: refused exactly when `ConfigManager::new` refuses it,
    /// with the same error.
    pub fn from_config(config_path: &str, config: Config) -> (r: Result<ProcessManager<H>, JanusError>)
        ensures
            r is Ok <==> valid_processes(config.process@),
            r matches Err(e) ==> invalid_error(config.process@, e),
            r matches Ok(m) ==> m.wf() && m.records().len() == config.process@.len() && forall|i: int|
                0 <= i < m.records().len() ==> initial_record(
                    config.process@[i],
                    match config.global.env {
                        Some(e) => e@,
                        None => Seq::empty(),
                    },
                    config.global.working_dir,
                    #[trigger] m.records()[i],
                ),
    {
        match ConfigManager::new(config_path, config) {
            Ok(manager) => Ok(ProcessManager::new(manager)),
            Err(e) => Err(e),
        }
    }

    /// The names of the records, in table order: the order in which starting
    /// everything goes through them.
    pub fn names_in_order(&self) -> (r: Vec<String>)
        ensures
            r@.len() == self.records().len(),
            forall|i: int| 0 <= i < r@.len() ==> (#[trigger] r@[i])@ == self.records()[i].name@,
    {
        let mut r: Vec<String> = Vec::new();
        let mut i: usize = 0;
        while i < self.processes.len()
            invariant
                i <= self.processes@.len(),
                r@.len() == i,
                forall|j: int| 0 <= j < i ==> (#[trigger] r@[j])@ == self.processes@[j].name@,
            decreases self.processes@.len() - i,
        {
            r.push(self.processes[i].name.clone());
            i = i + 1;
        }
        r
    }

    pub fn get_all_processes(&self) -> (r: &Vec<ManagedProcess<H>>)
        ensures
            r@ == self.records(),
    {
        &self.processes
    }

    /// The position of the record called `name`.
    pub fn find(&self, name: &str) -> (r: Option<usize>)
        ensures
            r matches Some(i) ==> i < self.records().len() && self.records()[i as int].name@ == name@,
            r is None ==> forall|i: int| 0 <= i < self.records().len() ==> (#[trigger] self.records()[i]).name@ != name@,
    {
        let key = name.to_owned();
        let mut i: usize = 0;
        while i < self.processes.len()
            invariant
                key@ == name@,
                i <= self.processes@.len(),
                forall|j: int| 0 <= j < i ==> (#[trigger] self.processes@[j]).name@ != name@,
            decreases self.processes@.len() - i,
        {
            if self.processes[i].name == key {
                return Some(i);
            }
            i = i + 1;
        }
        None
    }

    pub fn get_process(&self, name: &str) -> (r: Option<&ManagedProcess<H>>)
        ensures
            r matches Some(p) ==> exists|i: int| 0 <= i < self.records().len() && self.records()[i] == *p && p.name@ == name@,
            r is None ==> forall|i: int| 0 <= i < self.records().len() ==> (#[trigger] self.records()[i]).name@ != name@,
    {
        match self.find(name) {
            Some(i) => Some(&self.processes[i]),
            None => None,
        }
    }

    /// What `start` has to do with the process called `name`: nothing when it
    /// runs already, else launch the record at the given position.
    pub fn start_plan(&self, name: &str) -> (r: Result<StartStep, JanusError>)
        ensures
            r matches Ok(StartStep::Launch(i)) ==> i < self.records().len()
                && self.records()[i as int].name@ == name@
                && self.records()[i as int].status != ProcessStatus::Running,
            r matches Ok(StartStep::AlreadyRunning) ==> exists|i: int|
                0 <= i < self.records().len() && self.records()[i].name@ == name@
                    && self.records()[i].status == ProcessStatus::Running,
            r is Err <==> forall|i: int| 0 <= i < self.records().len() ==> (#[trigger] self.records()[i]).name@ != name@,
            r matches Err(e) ==> e matches JanusError::Process(m) && m@ == "Process not found: "@ + name@,
    {
        match self.find(name) {
            Some(i) => {
                if self.processes[i].status == ProcessStatus::Running {
                    Ok(StartStep::AlreadyRunning)
                } else {
                    Ok(StartStep::Launch(i))
                }
            },
            None => Err(not_found(name)),
        }
    }

    /// Records the outcome of launching record `i`: the handle of the new
    /// process and the time, or the reason the OS gave for refusing.
    pub fn finish_start(&mut self, i: usize, spawned: Result<H, String>, now: u64) -> (r: Result<(), JanusError>)
        requires
            old(self).wf(),
            i < old(self).records().len(),
            old(self).records()[i as int].status != ProcessStatus::Running,
        ensures
            final(self).wf(),
            r is Ok <==> spawned is Ok,
            spawned matches Ok(h) ==> final(self).records() == old(self).records().update(i as int, launched(old(self).records()[i as int], h, next_stamp(old(self).last_stamp(), now))),
            spawned is Ok ==> final(self).last_stamp() == Some(next_stamp(old(self).last_stamp(), now)),
            spawned matches Err(m) ==> final(self).records() == old(self).records().update(i as int, launch_refused(old(self).records()[i as int])),
            spawned is Err ==> final(self).last_stamp() == old(self).last_stamp(),
            spawned matches Err(m) ==> (r matches Err(e) && e matches JanusError::Process(t) && t@ == "Failed to start process: "@ + m@),
    {
        let stamp: u64 = match self.last_stamp {
            None => now,
            Some(l) => if now > l {
                now
            } else if l < u64::MAX {
                l + 1
            } else {
                l
            },
        };
        let ghost last = self.last_stamp;
        let mut rec = self.processes.remove(i);
        let r = match spawned {
            Ok(h) => {
                self.last_stamp = Some(stamp);
                rec.status = ProcessStatus::Running;
                rec.process = Some(h);
                rec.start_time = Some(stamp);
                rec.stop_requested = false;
                rec.restart_pending = false;
                Ok(())
            },
            Err(m) => {
                rec.status = ProcessStatus::Failed;
                rec.restart_pending = false;
                Err(JanusError::Process(String::from_str("Failed to start process: ").concat(m.as_str())))
            },
        };
        self.processes.insert(i, rec);
        proof {
            assert(self.processes@ =~= old(self).records().update(i as int, rec));
            assert(stamps_within(old(self).records(), self.last_stamp));
            lemma_update_wf(old(self).records(), i as int, rec, self.last_stamp);
        }
        r
    }

    /// The first half of `stop`: when the process called `name` runs, marks it
    /// so that its exit is not taken for a crash and returns its position, whose
    /// handle is then told to terminate; otherwise changes nothing.
    pub fn request_stop(&mut self, name: &str) -> (r: Result<StopStep, JanusError>)
        requires
            old(self).wf(),
        ensures
            final(self).wf(),
            r is Err <==> forall|i: int| 0 <= i < old(self).records().len() ==> (#[trigger] old(self).records()[i]).name@ != name@,
            r matches Err(e) ==> e matches JanusError::Process(m) && m@ == "Process not found: "@ + name@,
            r matches Ok(StopStep::Kill(i)) ==> i < old(self).records().len()
                && old(self).records()[i as int].name@ == name@
                && old(self).records()[i as int].status == ProcessStatus::Running
                && final(self).records() == old(self).records().update(i as int, stop_marked(old(self).records()[i as int])),
            r matches Ok(StopStep::NotRunning) ==> final(self).records() == old(self).records()
                && exists|i: int| 0 <= i < old(self).records().len() && old(self).records()[i].name@ == name@
                    && old(self).records()[i].status != ProcessStatus::Running,
            r is Err ==> final(self).records() == old(self).records(),
            final(self).last_stamp() == old(self).last_stamp(),
    {
        match self.find(name) {
            Some(i) => {
                if self.processes[i].status != ProcessStatus::Running {
                    return Ok(StopStep::NotRunning);
                }
                let mut rec = self.processes.remove(i);
                rec.stop_requested = true;
                self.processes.insert(i, rec);
                proof {
                    assert(self.processes@ =~= old(self).records().update(i as int, rec));
                    assert(old(self).records()[i as int].wf());
                    lemma_update_wf(old(self).records(), i as int, rec, old(self).last_stamp());
                }
                Ok(StopStep::Kill(i))
            },
            None => Err(not_found(name)),
        }
    }

    /// The OS refused to terminate record `i`: it keeps running, the stop
    /// request is withdrawn, and the refusal is returned in the words of the
    /// operation that asked for the stop.
    pub fn kill_failed(&mut self, i: usize, purpose: StopPurpose, reason: &str) -> (e: JanusError)
        requires
            old(self).wf(),
            i < old(self).records().len(),
        ensures
            final(self).wf(),
            final(self).records() == old(self).records().update(i as int, ManagedProcess { stop_requested: false, ..old(self).records()[i as int] }),
            final(self).last_stamp() == old(self).last_stamp(),
            e matches JanusError::Process(m) && m@ == refusal_prefix(purpose) + reason@,
    {
        let mut rec = self.processes.remove(i);
        rec.stop_requested = false;
        self.processes.insert(i, rec);
        proof {
            assert(self.processes@ =~= old(self).records().update(i as int, rec));
            assert(old(self).records()[i as int].wf());
            lemma_update_wf(old(self).records(), i as int, rec, old(self).last_stamp());
        }
        let prefix = match purpose {
            StopPurpose::Stop => "Failed to kill process: ",
            _ => "Failed to stop process: ",
        };
        JanusError::Process(String::from_str(prefix).concat(reason))
    }

    /// Records the exit of the running record `i` (exit code unknown: `None`)
    /// in one step: the record loses its handle and start time, the restart
    /// policy is applied, and the record is failed if the policy gives it up.
    pub fn record_exit(&mut self, i: usize, exit_code: Option<i32>) -> (r: ExitReport<H>)
        requires
            old(self).wf(),
            i < old(self).records().len(),
            old(self).records()[i as int].status == ProcessStatus::Running,
        ensures
            final(self).wf(),
            final(self).records() == old(self).records().update(i as int, exited(old(self).records()[i as int])),
            r.exit_code == (match exit_code {
                Some(c) => c,
                None => -1i32,
            }),
            r.error_type == classify_exit(r.exit_code),
            r.supervisor_initiated == old(self).records()[i as int].stop_requested,
            r.decision == record_policy(old(self).records()[i as int], r.supervisor_initiated),
            r.handle == old(self).records()[i as int].process,
            final(self).last_stamp() == old(self).last_stamp(),
    {
        let mut rec = self.processes.remove(i);
        let code: i32 = match exit_code {
            Some(c) => c,
            None => -1,
        };
        let error_type = classify_error(code);
        let requested = rec.stop_requested;
        let decision = decide(&rec, requested);
        let handle = rec.process.take();
        rec.status = match decision {
            Decision::GiveUp(_) => ProcessStatus::Failed,
            _ => ProcessStatus::Stopped,
        };
        rec.start_time = None;
        rec.stop_requested = false;
        rec.restart_pending = match decision {
            Decision::RestartAfter(_) => true,
            _ => false,
        };
        self.processes.insert(i, rec);
        proof {
            assert(self.processes@ =~= old(self).records().update(i as int, rec));
            assert(old(self).records()[i as int].wf());
            lemma_update_wf(old(self).records(), i as int, rec, old(self).last_stamp());
        }
        ExitReport { exit_code: code, error_type, supervisor_initiated: requested, decision, handle }
    }

    /// After the restart delay: when an automatic relaunch of record `i` may go
    /// ahead, counts it, clears the pending flag and returns true; the caller then launches the record
    /// and reports through `finish_start`. Otherwise changes nothing.
    pub fn begin_relaunch(&mut self, i: usize) -> (r: bool)
        requires
            old(self).wf(),
            i < old(self).records().len(),
        ensures
            final(self).wf(),
            r == relaunch_allowed(old(self).records()[i as int]),
            r ==> final(self).records() == old(self).records().update(i as int, relaunch_counted(old(self).records()[i as int])),
            !r ==> final(self).records() == old(self).records(),
            final(self).last_stamp() == old(self).last_stamp(),
    {
        let allowed = self.processes[i].restart_pending && self.processes[i].status == ProcessStatus::Stopped
            && self.processes[i].auto_restart
            && match self.processes[i].restart_limit {
            Some(k) => self.processes[i].restart_count < k,
            None => true,
        };
        if !allowed {
            return false;
        }
        let mut rec = self.processes.remove(i);
        if rec.restart_count < u32::MAX {
            rec.restart_count = rec.restart_count + 1;
        }
        rec.restart_pending = false;
        self.processes.insert(i, rec);
        proof {
            assert(self.processes@ =~= old(self).records().update(i as int, rec));
            assert(old(self).records()[i as int].wf());
            lemma_update_wf(old(self).records(), i as int, rec, old(self).last_stamp());
        }
        true
    }

    /// The first half of `stop_all`: marks every running record as stopped on
    /// purpose and returns their positions, in table order; each handle is then
    /// told to terminate.
    pub fn stop_all(&mut self) -> (r: Vec<usize>)
        requires
            old(self).wf(),
        ensures
            final(self).wf(),
            final(self).records().len() == old(self).records().len(),
            forall|j: int| 0 <= j < old(self).records().len() ==> (#[trigger] final(self).records()[j]) == (if old(self).records()[j].status == ProcessStatus::Running {
                stop_marked(old(self).records()[j])
            } else {
                old(self).records()[j]
            }),
            forall|k: int| 0 <= k < r@.len() ==> r@[k] < old(self).records().len() && old(self).records()[r@[k] as int].status == ProcessStatus::Running,
            forall|j: int| 0 <= j < old(self).records().len() && old(self).records()[j].status == ProcessStatus::Running ==> r@.contains(j as usize),
            forall|a: int, b: int| 0 <= a < b < r@.len() ==> r@[a] < r@[b],
            final(self).last_stamp() == old(self).last_stamp(),
    {
        let mut marked: Vec<usize> = Vec::new();
        let mut i: usize = 0;
        while i < self.processes.len()
            invariant
                self.wf(),
                self.last_stamp == old(self).last_stamp(),
                i <= self.processes@.len(),
                self.processes@.len() == old(self).records().len(),
                forall|j: int| 0 <= j < i ==> (#[trigger] self.processes@[j]) == (if old(self).records()[j].status == ProcessStatus::Running {
                    stop_marked(old(self).records()[j])
                } else {
                    old(self).records()[j]
                }),
                forall|j: int| i <= j < self.processes@.len() ==> (#[trigger] self.processes@[j]) == old(self).records()[j],
                forall|k: int| 0 <= k < marked@.len() ==> marked@[k] < i && old(self).records()[marked@[k] as int].status == ProcessStatus::Running,
                forall|j: int| 0 <= j < i && old(self).records()[j].status == ProcessStatus::Running ==> marked@.contains(j as usize),
                forall|a: int, b: int| 0 <= a < b < marked@.len() ==> marked@[a] < marked@[b],
            decreases self.processes@.len() - i,
        {
            if self.processes[i].status == ProcessStatus::Running {
                let ghost before = self.processes@;
                let mut rec = self.processes.remove(i);
                rec.stop_requested = true;
                self.processes.insert(i, rec);
                proof {
                    assert(self.processes@ =~= before.update(i as int, rec));
                    assert(before[i as int].wf());
                    lemma_update_wf(before, i as int, rec, self.last_stamp);
                }
                let ghost prev = marked@;
                marked.push(i);
                proof {
                    assert forall|j: int| 0 <= j < i + 1 && old(self).records()[j].status == ProcessStatus::Running implies marked@.contains(j as usize) by {
                        if j < i {
                            assert(prev.contains(j as usize));
                            let k = choose|k: int| 0 <= k < prev.len() && prev[k] == j as usize;
                            assert(marked@[k] == j as usize);
                        } else {
                            assert(marked@[prev.len() as int] == j as usize);
                        }
                    }
                }
            }
            i = i + 1;
        }
        marked
    }
}

} // verus!
