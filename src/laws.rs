use vstd::prelude::*;
use crate::env::{env_map, merged_env};
use crate::process::{
    Decision, ManagedProcess, ProcessManager, ProcessStatus, next_stamp, exited, launch_refused, launched, record_policy,
    relaunch_allowed, relaunch_counted, stop_marked,
};

verus! {

/// One change that the supervisor can make to a record.
pub enum Step<H> {
    /// A launch succeeded, with this handle, at this time.
    Launch(H, u64),
    /// A launch was refused by the OS.
    Refuse,
    /// The supervisor is about to terminate the process.
    MarkStop,
    /// The OS refused to terminate it.
    KillFailed,
    /// The process exited.
    Exit,
    /// An automatic relaunch was counted.
    Relaunch,
}

/// The record after `s`, when `s` can happen to `r`.
pub open spec fn apply<H>(r: ManagedProcess<H>, s: Step<H>) -> Option<ManagedProcess<H>> {
    match s {
        Step::Launch(h, now) => if r.status != ProcessStatus::Running {
            Some(launched(r, h, now))
        } else {
            None
        },
        Step::Refuse => if r.status != ProcessStatus::Running {
            Some(launch_refused(r))
        } else {
            None
        },
        Step::MarkStop => if r.status == ProcessStatus::Running {
            Some(stop_marked(r))
        } else {
            None
        },
        Step::KillFailed => Some(ManagedProcess { stop_requested: false, ..r }),
        Step::Exit => if r.status == ProcessStatus::Running {
            Some(exited(r))
        } else {
            None
        },
        Step::Relaunch => if relaunch_allowed(r) {
            Some(relaunch_counted(r))
        } else {
            None
        },
    }
}

/// The record after the steps, in order, when each can happen.
pub open spec fn run<H>(r: ManagedProcess<H>, steps: Seq<Step<H>>) -> Option<ManagedProcess<H>>
    decreases steps.len(),
{
    if steps.len() == 0 {
        Some(r)
    } else {
        match run(r, steps.drop_last()) {
            Some(m) => apply(m, steps.last()),
            None => None,
        }
    }
}

/// How many automatic relaunches the steps hold.
pub open spec fn relaunches<H>(steps: Seq<Step<H>>) -> nat
    decreases steps.len(),
{
    if steps.len() == 0 {
        0
    } else {
        relaunches(steps.drop_last()) + if steps.last() is Relaunch {
            1nat
        } else {
            0nat
        }
    }
}

/// Every change keeps a record's invariants: a handle and a start time exactly
/// while running, variables without repeated keys, the restart count within its
/// limit.
pub proof fn lemma_steps_keep_invariants<H>(r: ManagedProcess<H>, steps: Seq<Step<H>>)
    requires
        r.wf(),
        run(r, steps) is Some,
    ensures
        run(r, steps)->0.wf(),
        run(r, steps)->0.name == r.name,
        run(r, steps)->0.env == r.env,
        run(r, steps)->0.restart_limit == r.restart_limit,
        run(r, steps)->0.auto_restart == r.auto_restart,
    decreases steps.len(),
{
    if steps.len() > 0 {
        lemma_steps_keep_invariants(r, steps.drop_last());
    }
}

/// The restart count grows by one with each automatic relaunch and by nothing
/// else; under a limit `k` a record is therefore relaunched automatically at most
/// `k` times, however its runs go.
pub proof fn lemma_relaunches_within_limit<H>(r: ManagedProcess<H>, steps: Seq<Step<H>>, k: u32)
    requires
        r.wf(),
        r.restart_limit == Some(k),
        run(r, steps) is Some,
    ensures
        run(r, steps)->0.restart_count == r.restart_count + relaunches(steps),
        r.restart_count + relaunches(steps) <= k,
        relaunches(steps) <= k,
    decreases steps.len(),
{
    if steps.len() > 0 {
        lemma_relaunches_within_limit(r, steps.drop_last(), k);
        lemma_steps_keep_invariants(r, steps.drop_last());
        let m = run(r, steps.drop_last())->0;
        assert(run(r, steps) == apply(m, steps.last()));
        lemma_steps_keep_invariants(r, steps);
        if steps.last() is Relaunch {
            assert(m.restart_count < k);
        }
    }
}

/// A process without automatic restart is never relaunched by the supervisor:
/// whatever the exit, the policy leaves it stopped, and no sequence of changes
/// holds an automatic relaunch.
pub proof fn lemma_no_restart_without_auto<H>(r: ManagedProcess<H>, steps: Seq<Step<H>>, supervisor_initiated: bool)
    requires
        !r.auto_restart,
        run(r, steps) is Some,
    ensures
        record_policy(r, supervisor_initiated) == Decision::StopFinal,
        r.status == ProcessStatus::Running ==> exited(r).status == ProcessStatus::Stopped,
        relaunches(steps) == 0,
        !run(r, steps)->0.auto_restart,
    decreases steps.len(),
{
    if steps.len() > 0 {
        lemma_no_restart_without_auto(r, steps.drop_last(), supervisor_initiated);
    }
}

/// A manual restart of a running record (mark, exit, launch) leaves the restart
/// count as it was, leaves the record running, and, on a clock that has moved
/// on, gives it a later start time.
pub proof fn lemma_manual_restart<H>(r: ManagedProcess<H>, h: H, now: u64)
    requires
        r.wf(),
        r.status == ProcessStatus::Running,
    ensures
        run(r, seq![Step::MarkStop, Step::Exit, Step::Launch(h, now)]) is Some,
        record_policy(stop_marked(r), true) == Decision::StopFinal,
        run(r, seq![Step::MarkStop, Step::Exit, Step::Launch(h, now)])->0.restart_count == r.restart_count,
        run(r, seq![Step::MarkStop, Step::Exit, Step::Launch(h, now)])->0.status == ProcessStatus::Running,
        run(r, seq![Step::MarkStop, Step::Exit, Step::Launch(h, now)])->0.start_time == Some(now),
        r.start_time is Some && r.start_time->0 < now ==> run(r, seq![Step::MarkStop, Step::Exit, Step::Launch(h, now)])->0.start_time->0 > r.start_time->0,
{
    let steps = seq![Step::MarkStop, Step::Exit, Step::Launch(h, now)];
    let s1 = seq![Step::<H>::MarkStop];
    let s2 = seq![Step::<H>::MarkStop, Step::<H>::Exit];
    assert(s1.drop_last() =~= Seq::<Step<H>>::empty());
    assert(s2.drop_last() =~= s1);
    assert(steps.drop_last() =~= s2);
    let r1 = stop_marked(r);
    assert(run(r, s1.drop_last()) == Some(r));
    assert(s1.last() == Step::<H>::MarkStop);
    assert(run(r, s1) == Some(r1));
    let r2 = exited(r1);
    assert(s2.last() == Step::<H>::Exit);
    assert(run(r, s2) == Some(r2));
    assert(record_policy(r1, true) == Decision::StopFinal);
    assert(r2.status == ProcessStatus::Stopped);
    assert(steps.last() == Step::<H>::Launch(h, now));
    assert(run(r, steps) == Some(launched(r2, h, now)));
}

/// A restart gives a running record a later start time: stopping it and
/// recording its exit leave the table's latest stamp as it was, and the launch
/// that follows is stamped after every start time in the table, as long as the
/// clock has not reached its end.
pub proof fn lemma_restart_later_start<H>(m: ProcessManager<H>, i: int, now: u64)
    requires
        m.wf(),
        0 <= i < m.records().len(),
        m.records()[i].status == ProcessStatus::Running,
        m.last_stamp() matches Some(l) ==> l < u64::MAX,
    ensures
        m.records()[i].start_time is Some,
        next_stamp(m.last_stamp(), now) > m.records()[i].start_time->0,
{
    assert(m.records()[i].wf());
}

/// A process that the supervisor stops on purpose is not restarted: its exit
/// leaves it stopped, with no relaunch pending, so no automatic relaunch can
/// follow.
pub proof fn lemma_requested_stop_is_final<H>(r: ManagedProcess<H>)
    requires
        r.wf(),
        r.status == ProcessStatus::Running,
    ensures
        record_policy(stop_marked(r), true) == Decision::StopFinal,
        exited(stop_marked(r)).status == ProcessStatus::Stopped,
        !exited(stop_marked(r)).restart_pending,
        !relaunch_allowed(exited(stop_marked(r))),
        exited(stop_marked(r)).restart_count == r.restart_count,
{
}

/// The merged environment holds every variable of the process with the
/// process's value, and every global variable that the process does not set,
/// with the global value; and nothing else.
pub proof fn lemma_merged_env_keys(global: Seq<(String, String)>, own: Seq<(String, String)>, k: Seq<char>)
    ensures
        env_map(own).contains_key(k) ==> merged_env(global, own).contains_key(k) && merged_env(global, own)[k] == env_map(own)[k],
        (!env_map(own).contains_key(k) && env_map(global).contains_key(k)) ==> merged_env(global, own).contains_key(k) && merged_env(global, own)[k] == env_map(global)[k],
        merged_env(global, own).contains_key(k) ==> env_map(own).contains_key(k) || env_map(global).contains_key(k),
        env_map(global + own) == merged_env(global, own),
{
    crate::env::lemma_env_map_concat(global, own);
}

} // verus!
