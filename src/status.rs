use vstd::prelude::*;
use crate::error::JanusError;
use crate::process::{ManagedProcess, ProcessManager, ProcessStatus, status_label};
use crate::text::{decimal, decimal_text, pad_right, padded};

verus! {

/// An uptime of `t` seconds: `Dd Hh Mm Ss` from one day on, `Hh Mm Ss` from one
/// hour on, `Mm Ss` from one minute on, `Ss` below.
pub open spec fn duration_text(t: nat) -> Seq<char> {
    let d = t / 86400;
    let h = (t % 86400) / 3600;
    let m = (t % 3600) / 60;
    let s = t % 60;
    if t >= 86400 {
        decimal(d) + "d "@ + decimal(h) + "h "@ + decimal(m) + "m "@ + decimal(s) + "s"@
    } else if t >= 3600 {
        decimal(h) + "h "@ + decimal(m) + "m "@ + decimal(s) + "s"@
    } else if t >= 60 {
        decimal(m) + "m "@ + decimal(s) + "s"@
    } else {
        decimal(s) + "s"@
    }
}

pub fn format_duration(seconds: u64) -> (r: String)
    ensures
        r@ == duration_text(seconds as nat),
{
    let d = seconds / 86400;
    let h = (seconds % 86400) / 3600;
    let m = (seconds % 3600) / 60;
    let s = seconds % 60;
    let secs = decimal_text(s).concat("s");
    if seconds >= 86400 {
        decimal_text(d).concat("d ").concat(decimal_text(h).as_str()).concat("h ").concat(
            decimal_text(m).as_str(),
        ).concat("m ").concat(secs.as_str())
    } else if seconds >= 3600 {
        decimal_text(h).concat("h ").concat(decimal_text(m).as_str()).concat("m ").concat(secs.as_str())
    } else if seconds >= 60 {
        decimal_text(m).concat("m ").concat(secs.as_str())
    } else {
        secs
    }
}

/// Whole seconds from `start` to `now`, both in milliseconds; none if the clock
/// reads earlier than the start.
pub open spec fn elapsed_seconds(start: u64, now: u64) -> nat {
    if now >= start {
        ((now - start) / 1000) as nat
    } else {
        0
    }
}

/// The uptime column: the running time of a running record, `-` otherwise.
pub open spec fn uptime_text<H>(p: ManagedProcess<H>, now: u64) -> Seq<char> {
    if p.status == ProcessStatus::Running && p.start_time is Some {
        duration_text(elapsed_seconds(p.start_time->0, now))
    } else {
        "-"@
    }
}

fn uptime<H>(p: &ManagedProcess<H>, now: u64) -> (r: String)
    ensures
        r@ == uptime_text(*p, now),
{
    match p.start_time {
        Some(start) if p.status == ProcessStatus::Running => {
            let secs = if now >= start { (now - start) / 1000 } else { 0 };
            format_duration(secs)
        },
        _ => String::from_str("-"),
    }
}

/// One row of the table of all processes: name, status, uptime and restart count.
pub open spec fn status_row<H>(p: ManagedProcess<H>, now: u64) -> Seq<char> {
    pad_right(p.name@, 20) + " "@ + pad_right(status_label(p.status), 10) + " "@ + pad_right(
        uptime_text(p, now),
        15,
    ) + " "@ + pad_right(decimal(p.restart_count as nat), 10)
}

pub open spec fn table_header() -> Seq<char> {
    pad_right("NAME"@, 20) + " "@ + pad_right("STATUS"@, 10) + " "@ + pad_right("UPTIME"@, 15) + " "@
        + pad_right("RESTARTS"@, 10)
}

pub open spec fn dashes(k: nat) -> Seq<char> {
    Seq::new(k, |i: int| '-')
}

pub open spec fn lines_of(v: Seq<String>) -> Seq<Seq<char>> {
    v.map_values(|s: String| s@)
}

/// The words of `args`, separated by single spaces.
pub open spec fn joined(args: Seq<String>) -> Seq<char>
    decreases args.len(),
{
    if args.len() == 0 {
        Seq::empty()
    } else if args.len() == 1 {
        args[0]@
    } else {
        joined(args.drop_last()) + " "@ + args.last()@
    }
}

fn join_args(args: &Vec<String>) -> (r: String)
    ensures
        r@ == joined(args@),
{
    let mut r = String::new();
    let mut i: usize = 0;
    while i < args.len()
        invariant
            i <= args@.len(),
            r@ == joined(args@.subrange(0, i as int)),
        decreases args@.len() - i,
    {
        proof {
            assert(args@.subrange(0, i + 1).drop_last() =~= args@.subrange(0, i as int));
            if i == 0 {
                assert(args@.subrange(0, 1)[0] == args@[0]);
            }
        }
        if i == 0 {
            r = args[0].clone();
        } else {
            r = r.concat(" ").concat(args[i].as_str());
        }
        i = i + 1;
    }
    assert(args@.subrange(0, args@.len() as int) =~= args@);
    r
}

fn bool_text(b: bool) -> (r: &'static str)
    ensures
        r@ == (if b { "true"@ } else { "false"@ }),
{
    if b { "true" } else { "false" }
}

pub open spec fn head_lines<H>(p: ManagedProcess<H>) -> Seq<Seq<char>> {
    seq![
        "Process: "@ + p.name@,
        "Command: "@ + p.command@ + " "@ + joined(p.args@),
        "Status: "@ + status_label(p.status),
    ]
}

pub open spec fn uptime_lines<H>(p: ManagedProcess<H>, now: u64) -> Seq<Seq<char>> {
    if p.status == ProcessStatus::Running && p.start_time is Some {
        seq!["Uptime: "@ + uptime_text(p, now)]
    } else {
        Seq::empty()
    }
}

pub open spec fn restart_lines<H>(p: ManagedProcess<H>) -> Seq<Seq<char>> {
    seq![
        "Auto restart: "@ + (if p.auto_restart { "true"@ } else { "false"@ }),
        "Restart count: "@ + decimal(p.restart_count as nat),
        "Restart limit: "@ + (match p.restart_limit {
            Some(k) => decimal(k as nat),
            None => "unlimited"@,
        }),
        "Restart delay: "@ + decimal(p.restart_delay as nat) + " seconds"@,
    ]
}

pub open spec fn env_line(kv: (String, String)) -> Seq<char> {
    "  "@ + kv.0@ + "="@ + kv.1@
}

pub open spec fn env_lines<H>(p: ManagedProcess<H>) -> Seq<Seq<char>> {
    if p.env@.len() == 0 {
        Seq::empty()
    } else {
        seq![Seq::empty(), "Environment variables:"@] + p.env@.map_values(|kv: (String, String)| env_line(kv))
    }
}

/// The detail lines of one record: name, command, status, uptime when running,
/// the restart settings, and its variables if it has any.
pub open spec fn detail_lines<H>(p: ManagedProcess<H>, now: u64) -> Seq<Seq<char>> {
    head_lines(p) + uptime_lines(p, now) + restart_lines(p) + env_lines(p)
}

/// Renders the process table for operators. Times are milliseconds on the
/// supervisor's clock.
pub struct StatusReporter<'a, H> {
    manager: &'a ProcessManager<H>,
}

impl<'a, H> StatusReporter<'a, H> {
    pub closed spec fn table(&self) -> Seq<ManagedProcess<H>> {
        self.manager.records()
    }

    pub fn new(manager: &'a ProcessManager<H>) -> (r: StatusReporter<'a, H>)
        ensures
            r.table() == manager.records(),
    {
        StatusReporter { manager }
    }

    /// A title, a header, a rule, and one row per record in table order.
    pub fn report_all(&self, now: u64) -> (r: Vec<String>)
        ensures
            lines_of(r@) == seq!["Process Status"@, table_header(), dashes(55)] + self.table().map_values(
                |p: ManagedProcess<H>| status_row(p, now),
            ),
    {
        let mut r: Vec<String> = Vec::new();
        r.push(String::from_str("Process Status"));
        let header = padded("NAME", 20).concat(" ").concat(padded("STATUS", 10).as_str()).concat(" ").concat(
            padded("UPTIME", 15).as_str(),
        ).concat(" ").concat(padded("RESTARTS", 10).as_str());
        r.push(header);
        let mut rule = String::new();
        let mut k: usize = 0;
        while k < 55
            invariant
                k <= 55,
                rule@ == dashes(k as nat),
            decreases 55 - k,
        {
            proof {
                reveal_strlit("-");
            }
            rule.append("-");
            assert(rule@ =~= dashes((k + 1) as nat));
            k = k + 1;
        }
        r.push(rule);
        let ghost start = r@;
        let all = self.manager.get_all_processes();
        let mut i: usize = 0;
        while i < all.len()
            invariant
                all@ == self.table(),
                i <= all@.len(),
                lines_of(start) == seq!["Process Status"@, table_header(), dashes(55)],
                r@.len() == 3 + i,
                r@.subrange(0, 3) == start,
                forall|j: int| 0 <= j < i ==> (#[trigger] r@[3 + j])@ == status_row(all@[j], now),
            decreases all@.len() - i,
        {
            let p = &all[i];
            let row = padded(p.name.as_str(), 20).concat(" ").concat(padded(p.status.as_text(), 10).as_str()).concat(
                " ",
            ).concat(padded(uptime(p, now).as_str(), 15).as_str()).concat(" ").concat(
                padded(decimal_text(p.restart_count as u64).as_str(), 10).as_str(),
            );
            let ghost before = r@;
            r.push(row);
            proof {
                assert(r@.subrange(0, 3) =~= before.subrange(0, 3));
            }
            i = i + 1;
        }
        proof {
            let expect = seq!["Process Status"@, table_header(), dashes(55)] + self.table().map_values(
                |p: ManagedProcess<H>| status_row(p, now),
            );
            assert forall|j: int| 0 <= j < 3 implies lines_of(r@)[j] == expect[j] by {
                assert(r@[j] == r@.subrange(0, 3)[j]);
                assert(lines_of(start)[j] == start[j]@);
            }
            assert forall|j: int| 3 <= j < r@.len() implies lines_of(r@)[j] == expect[j] by {
                assert(r@[3 + (j - 3)]@ == status_row(all@[j - 3], now));
            }
            assert(lines_of(r@) =~= expect);
        }
        r
    }

    /// The full description of the record called `name`.
    pub fn report_process(&self, name: &str, now: u64) -> (r: Result<Vec<String>, JanusError>)
        ensures
            r is Err <==> forall|i: int| 0 <= i < self.table().len() ==> (#[trigger] self.table()[i]).name@ != name@,
            r matches Err(e) ==> e matches JanusError::Process(m) && m@ == "Process not found: "@ + name@,
            r matches Ok(lines) ==> exists|i: int|
                0 <= i < self.table().len() && self.table()[i].name@ == name@ && lines_of(lines@) == detail_lines(self.table()[i], now),
    {
        let i = match self.manager.find(name) {
            Some(i) => i,
            None => {
                return Err(JanusError::Process(String::from_str("Process not found: ").concat(name)));
            },
        };
        let all = self.manager.get_all_processes();
        let p = &all[i];
        let mut r: Vec<String> = Vec::new();
        r.push(String::from_str("Process: ").concat(p.name.as_str()));
        r.push(String::from_str("Command: ").concat(p.command.as_str()).concat(" ").concat(join_args(&p.args).as_str()));
        r.push(String::from_str("Status: ").concat(p.status.as_text()));
        assert(lines_of(r@) =~= head_lines(*p));
        if p.status == ProcessStatus::Running && p.start_time.is_some() {
            r.push(String::from_str("Uptime: ").concat(uptime(p, now).as_str()));
        }
        assert(lines_of(r@) =~= head_lines(*p) + uptime_lines(*p, now));
        let ghost before_restart = r@;
        r.push(String::from_str("Auto restart: ").concat(bool_text(p.auto_restart)));
        r.push(String::from_str("Restart count: ").concat(decimal_text(p.restart_count as u64).as_str()));
        let limit = match p.restart_limit {
            Some(k) => decimal_text(k as u64),
            None => String::from_str("unlimited"),
        };
        r.push(String::from_str("Restart limit: ").concat(limit.as_str()));
        r.push(String::from_str("Restart delay: ").concat(decimal_text(p.restart_delay).as_str()).concat(" seconds"));
        assert(lines_of(r@) =~= lines_of(before_restart) + restart_lines(*p));
        let ghost fixed = r@;
        assert(lines_of(fixed) =~= head_lines(*p) + uptime_lines(*p, now) + restart_lines(*p));
        if p.env.len() > 0 {
            r.push(String::new());
            r.push(String::from_str("Environment variables:"));
            let ghost pre = seq![Seq::<char>::empty(), "Environment variables:"@];
            assert(lines_of(r@) =~= lines_of(fixed) + pre);
            let mut k: usize = 0;
            while k < p.env.len()
                invariant
                    k <= p.env@.len(),
                    lines_of(r@) == lines_of(fixed) + pre + p.env@.subrange(0, k as int).map_values(|kv: (String, String)| env_line(kv)),
                decreases p.env@.len() - k,
            {
                let line = String::from_str("  ").concat(p.env[k].0.as_str()).concat("=").concat(p.env[k].1.as_str());
                let ghost before = r@;
                r.push(line);
                proof {
                    assert(lines_of(r@) =~= lines_of(before).push(env_line(p.env@[k as int])));
                    assert(p.env@.subrange(0, k + 1).map_values(|kv: (String, String)| env_line(kv)) =~= p.env@.subrange(0, k as int).map_values(|kv: (String, String)| env_line(kv)).push(env_line(p.env@[k as int])));
                }
                k = k + 1;
            }
            assert(p.env@.subrange(0, p.env@.len() as int) =~= p.env@);
            assert(lines_of(r@) =~= lines_of(fixed) + env_lines(*p));
        } else {
            assert(lines_of(r@) =~= lines_of(fixed) + env_lines(*p));
        }
        Ok(r)
    }
}

} // verus!
