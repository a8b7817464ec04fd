//! Build bookkeeping: the build requests and processes, their logs, and the decisions
//! taken while the configured commands run.

use vstd::prelude::*;
use crate::model::{CommandConfig, PayloadConfig, PayloadType, Status};
use crate::output::{EventView, OutputEvent};
use crate::strmap::StrMap;

verus! {

/// One line of a build's log. Times are milliseconds since the Unix epoch.
#[derive(Clone, Debug)]
pub struct BuildLog {
    pub timestamp: i64,
    pub status: Status,
    pub step: usize,
    pub total_steps: usize,
    pub message: String,
}

/// Progress of the running build, as reported to the project channel.
#[derive(Clone, Debug)]
pub struct ProjectLog {
    pub id: String,
    pub timestamp: i64,
    pub unique_id: String,
    pub socket_token: String,
    pub step: usize,
    pub total_steps: usize,
    pub state: Status,
    pub message: String,
}

/// A queued request for a build.
#[derive(Debug)]
pub struct BuildRequest {
    pub id: String,
    pub unique_id: String,
    pub payload: StrMap,
    pub socket_token: String,
}

/// A build that runs or has run.
#[derive(Debug)]
pub struct BuildProcess {
    pub id: String,
    pub unique_id: String,
    pub status: Status,
    pub current_step: usize,
    pub total_steps: usize,
    pub started_at: i64,
    pub end_at: i64,
    pub duration: i64,
    pub socket_token: String,
    pub payload: StrMap,
    pub out_payload: StrMap,
    pub logs: Vec<BuildLog>,
}

/// The answer to a build request.
#[derive(Clone, Debug)]
pub struct BuildResponse {
    pub message: String,
    pub status: Status,
    pub token: Option<String>,
    pub build_id: Option<String>,
}

/// A message on a broadcast channel: a line of data, or the order to close.
#[derive(Clone, Debug)]
pub enum ChannelMessage {
    Data(String),
    Shutdown,
}

/// The builds: the queue, the running one, and those whose report could not be delivered.
#[derive(Debug)]
pub struct BuildState {
    pub build_queue: Vec<BuildRequest>,
    pub current_build: Option<BuildProcess>,
    pub failed_history: Vec<BuildProcess>,
}

impl BuildState {
    /// No queued, running or failed builds.
    pub fn new() -> (s: Self)
        ensures
            s.build_queue@.len() == 0,
            s.current_build is None,
            s.failed_history@.len() == 0,
    {
        BuildState { build_queue: Vec::new(), current_build: None, failed_history: Vec::new() }
    }
}

/// One payload entry applied to the environment and parameter maps: a parameter takes
/// the payload value of `key1` under `key1`; an environment entry takes it under its
/// target name; a file entry changes nothing.
pub open spec fn extract_step(
    cfg: PayloadConfig,
    payload: Map<Seq<char>, Seq<char>>,
    maps: (Map<Seq<char>, Seq<char>>, Map<Seq<char>, Seq<char>>),
) -> (Map<Seq<char>, Seq<char>>, Map<Seq<char>, Seq<char>>) {
    match cfg.kind {
        PayloadType::Param => (maps.0, maps.1.insert(cfg.key1@, payload[cfg.key1@])),
        PayloadType::Env => (maps.0.insert(cfg.target_name(), payload[cfg.key1@]), maps.1),
        PayloadType::File => maps,
    }
}

/// The payload entries applied in order.
pub open spec fn extract_all(
    cfgs: Seq<PayloadConfig>,
    payload: Map<Seq<char>, Seq<char>>,
    maps: (Map<Seq<char>, Seq<char>>, Map<Seq<char>, Seq<char>>),
) -> (Map<Seq<char>, Seq<char>>, Map<Seq<char>, Seq<char>>)
    decreases cfgs.len(),
{
    if cfgs.len() == 0 {
        maps
    } else {
        extract_step(cfgs.last(), payload, extract_all(cfgs.drop_last(), payload, maps))
    }
}

/// Every parameter and environment entry names a value of the payload.
pub open spec fn payload_covers(cfgs: Seq<PayloadConfig>, payload: Map<Seq<char>, Seq<char>>) -> bool {
    forall|i: int| 0 <= i < cfgs.len() && cfgs[i].kind != PayloadType::File ==> payload.contains_key(#[trigger] cfgs[i].key1@)
}

/// Tells whether every parameter and environment entry names a value of the payload.
pub fn payload_covered(payloads: &Vec<PayloadConfig>, build_payload: &StrMap) -> (r: bool)
    ensures
        r == payload_covers(payloads@, build_payload@),
{
    let mut i: usize = 0;
    while i < payloads.len()
        invariant
            i <= payloads@.len(),
            forall|j: int| 0 <= j < i && payloads@[j].kind != PayloadType::File ==> build_payload@.contains_key(#[trigger] payloads@[j].key1@),
        decreases payloads@.len() - i,
    {
        if payloads[i].kind != PayloadType::File && !build_payload.contains_key(payloads[i].key1.as_str()) {
            return false;
        }
        i = i + 1;
    }
    true
}

/// Fills the environment and parameter maps of the build commands from the build's
/// payload; see [`extract_all`].
pub fn extract_payload(
    payloads: &Vec<PayloadConfig>,
    build_payload: &StrMap,
    env_map: &mut StrMap,
    param_map: &mut StrMap,
)
    requires
        payload_covers(payloads@, build_payload@),
    ensures
        (final(env_map)@, final(param_map)@) == extract_all(payloads@, build_payload@, (old(env_map)@, old(param_map)@)),
{
    let ghost start = (env_map@, param_map@);
    let mut i: usize = 0;
    assert(payloads@.take(0) =~= Seq::<PayloadConfig>::empty());
    while i < payloads.len()
        invariant
            i <= payloads@.len(),
            payload_covers(payloads@, build_payload@),
            (env_map@, param_map@) == extract_all(payloads@.take(i as int), build_payload@, start),
        decreases payloads@.len() - i,
    {
        let cfg = &payloads[i];
        assert(payloads@.take(i + 1).drop_last() =~= payloads@.take(i as int));
        assert(payloads@.take(i + 1).last() == payloads@[i as int]);
        match cfg.kind {
            PayloadType::Param => {
                assert(build_payload@.contains_key(payloads@[i as int].key1@));
                let v = build_payload.get(cfg.key1.as_str());
                match v {
                    Some(v) => param_map.insert(cfg.key1.clone(), v.clone()),
                    None => {},
                }
            },
            PayloadType::Env => {
                assert(build_payload@.contains_key(payloads@[i as int].key1@));
                let v = build_payload.get(cfg.key1.as_str());
                match v {
                    Some(v) => env_map.insert(cfg.target().clone(), v.clone()),
                    None => {},
                }
            },
            PayloadType::File => {},
        }
        i = i + 1;
    }
    assert(payloads@.take(payloads@.len() as int) =~= payloads@);
}

/// One report entry applied to the report payload: a file entry takes the file's
/// content under `key1` when it could be read; any other entry takes the build payload's
/// value of its target name under `key1`, when there is one.
pub open spec fn out_step(
    cfg: PayloadConfig,
    payload: Map<Seq<char>, Seq<char>>,
    file: Option<Seq<char>>,
    out: Map<Seq<char>, Seq<char>>,
) -> Map<Seq<char>, Seq<char>> {
    if cfg.kind == PayloadType::File {
        match file {
            Some(c) => out.insert(cfg.key1@, c),
            None => out,
        }
    } else if payload.contains_key(cfg.target_name()) {
        out.insert(cfg.key1@, payload[cfg.target_name()])
    } else {
        out
    }
}

/// The report entries applied in order, entry `i` with file content `files[i]`.
pub open spec fn out_all(
    cfgs: Seq<PayloadConfig>,
    payload: Map<Seq<char>, Seq<char>>,
    files: Seq<Option<Seq<char>>>,
    out: Map<Seq<char>, Seq<char>>,
) -> Map<Seq<char>, Seq<char>>
    decreases cfgs.len(),
{
    if cfgs.len() == 0 || files.len() < cfgs.len() {
        out
    } else {
        out_step(cfgs.last(), payload, files[cfgs.len() - 1], out_all(cfgs.drop_last(), payload, files, out))
    }
}

/// The values of a list of optional strings.
pub open spec fn opt_texts(v: Seq<Option<String>>) -> Seq<Option<Seq<char>>> {
    v.map_values(|o: Option<String>| match o {
        Some(s) => Some(s@),
        None => None,
    })
}

/// Every report entry that is not a file entry (an environment or a parameter entry
/// alike) puts the build payload's value of its lookup name under `key1`, when the
/// payload holds that name, unless a later entry writes the same `key1`.
pub proof fn law_report_takes_payload_values(
    cfgs: Seq<PayloadConfig>,
    payload: Map<Seq<char>, Seq<char>>,
    files: Seq<Option<Seq<char>>>,
    out: Map<Seq<char>, Seq<char>>,
    i: int,
)
    requires
        0 <= i < cfgs.len(),
        files.len() >= cfgs.len(),
        cfgs[i].kind != PayloadType::File,
        payload.contains_key((match cfgs[i].key2 { Some(k) => k@, None => cfgs[i].key1@ })),
        forall|j: int| i < j < cfgs.len() ==> (#[trigger] cfgs[j]).key1@ != cfgs[i].key1@,
    ensures
        out_all(cfgs, payload, files, out).contains_key(cfgs[i].key1@),
        out_all(cfgs, payload, files, out)[cfgs[i].key1@] == payload[(match cfgs[i].key2 { Some(k) => k@, None => cfgs[i].key1@ })],
    decreases cfgs.len(),
{
    let n = cfgs.len();
    if i < n - 1 {
        let d = cfgs.drop_last();
        assert(d[i] == cfgs[i]);
        assert forall|j: int| i < j < d.len() implies (#[trigger] d[j]).key1@ != d[i].key1@ by {
            assert(d[j] == cfgs[j]);
        }
        law_report_takes_payload_values(d, payload, files, out, i);
        assert(cfgs.last() == cfgs[n - 1]);
    }
}

/// Every file entry whose file could be read puts the file's content under `key1`,
/// unless a later entry writes the same `key1`.
pub proof fn law_report_takes_file_contents(
    cfgs: Seq<PayloadConfig>,
    payload: Map<Seq<char>, Seq<char>>,
    files: Seq<Option<Seq<char>>>,
    out: Map<Seq<char>, Seq<char>>,
    i: int,
)
    requires
        0 <= i < cfgs.len(),
        files.len() >= cfgs.len(),
        cfgs[i].kind == PayloadType::File,
        files[i] is Some,
        forall|j: int| i < j < cfgs.len() ==> (#[trigger] cfgs[j]).key1@ != cfgs[i].key1@,
    ensures
        out_all(cfgs, payload, files, out).contains_key(cfgs[i].key1@),
        out_all(cfgs, payload, files, out)[cfgs[i].key1@] == files[i]->0,
    decreases cfgs.len(),
{
    let n = cfgs.len();
    if i < n - 1 {
        let d = cfgs.drop_last();
        assert(d[i] == cfgs[i]);
        assert forall|j: int| i < j < d.len() implies (#[trigger] d[j]).key1@ != d[i].key1@ by {
            assert(d[j] == cfgs[j]);
        }
        law_report_takes_file_contents(d, payload, files, out, i);
        assert(cfgs.last() == cfgs[n - 1]);
    }
}

/// A success or failure command that exited successfully never stops the ones after it,
/// whether it aborts on error or not.
pub proof fn law_success_never_stops(abort_on_error: bool)
    ensures
        continues_after(true, abort_on_error),
{
}

/// A success or failure command that failed stops the ones after it exactly when it
/// aborts on error.
pub proof fn law_failure_stops_when_aborting(abort_on_error: bool)
    ensures
        continues_after(false, abort_on_error) == !abort_on_error,
{
}

/// The status that a build has after one of its commands ended.
pub open spec fn status_after(terminated: bool, exit_success: bool) -> Status {
    if terminated {
        Status::Aborted
    } else if exit_success {
        Status::Success
    } else {
        Status::Error
    }
}

/// Whether the success or failure commands go on after one of them ended: they stop after
/// a failure of a command that aborts on error.
#[verifier::when_used_as_spec(continues_after_spec)]
pub fn continues_after(exit_success: bool, abort_on_error: bool) -> (r: bool)
    ensures
        r == continues_after_spec(exit_success, abort_on_error),
{
    exit_success || !abort_on_error
}

/// Whether the success or failure commands go on after one of them ended.
pub open spec fn continues_after_spec(exit_success: bool, abort_on_error: bool) -> bool {
    exit_success || !abort_on_error
}

/// The build log line that a "command starts" step writes.
pub open spec fn starting_log(step: usize, total: usize, title: Seq<char>, now: i64, log: BuildLog) -> bool {
    &&& log.timestamp == now
    &&& log.status == Status::StartingCommand
    &&& log.step == step
    &&& log.total_steps == total
    &&& log.message@ == title
}

impl BuildProcess {
    /// Fills the report payload; `file_contents[i]` is the content of the file that entry
    /// `i` names (when it is a file entry that could be read safely); see [`out_all`].
    pub fn fill_out_payload(&mut self, cfgs: &Vec<PayloadConfig>, file_contents: &Vec<Option<String>>)
        requires
            file_contents@.len() == cfgs@.len(),
        ensures
            final(self).out_payload@ == out_all(cfgs@, old(self).payload@, opt_texts(file_contents@), old(self).out_payload@),
            final(self).payload@ == old(self).payload@,
            final(self).logs@ == old(self).logs@,
            final(self).status == old(self).status,
    {
        let ghost start = self.out_payload@;
        let ghost files = opt_texts(file_contents@);
        let mut i: usize = 0;
        assert(cfgs@.take(0) =~= Seq::<PayloadConfig>::empty());
        while i < cfgs.len()
            invariant
                i <= cfgs@.len(),
                file_contents@.len() == cfgs@.len(),
                files == opt_texts(file_contents@),
                self.out_payload@ == out_all(cfgs@.take(i as int), old(self).payload@, files, start),
                self.payload@ == old(self).payload@,
                self.logs@ == old(self).logs@,
                self.status == old(self).status,
            decreases cfgs@.len() - i,
        {
            let cfg = &cfgs[i];
            let ghost pre = cfgs@.take(i + 1);
            assert(pre.drop_last() =~= cfgs@.take(i as int));
            assert(pre.last() == cfgs@[i as int]);
            assert(files[i as int] == match file_contents@[i as int] {
                Some(s) => Some(s@),
                None => None,
            });
            if cfg.kind == PayloadType::File {
                match &file_contents[i] {
                    Some(content) => self.out_payload.insert(cfg.key1.clone(), content.clone()),
                    None => {},
                }
            } else {
                let found = self.payload.get(cfg.target().as_str());
                match found {
                    Some(v) => {
                        let v = v.clone();
                        self.out_payload.insert(cfg.key1.clone(), v);
                    },
                    None => {},
                }
            }
            i = i + 1;
        }
        assert(cfgs@.take(cfgs@.len() as int) =~= cfgs@);
    }

    /// Starts step `step` of `total` (the command titled `title`, at `now`): the step
    /// becomes current and a "starting" line joins the log; returns that line and the
    /// progress report for the project channel.
    pub fn begin_step(&mut self, step: usize, total: usize, title: &String, now: i64) -> (r: (BuildLog, ProjectLog))
        ensures
            final(self).current_step == step,
            starting_log(step, total, title@, now, r.0),
            final(self).logs@ == old(self).logs@.push(r.0),
            r.1.id@ == old(self).id@,
            r.1.unique_id@ == old(self).unique_id@,
            r.1.socket_token@ == old(self).socket_token@,
            r.1.step == step,
            r.1.total_steps == total,
            r.1.state == Status::StartingCommand,
            r.1.timestamp == now,
            r.1.message@ == title@,
            final(self).status == old(self).status,
            final(self).payload@ == old(self).payload@,
            final(self).id@ == old(self).id@,
    {
        let log = BuildLog {
            timestamp: now,
            status: Status::StartingCommand,
            step,
            total_steps: total,
            message: title.clone(),
        };
        self.current_step = step;
        let kept = BuildLog {
            timestamp: now,
            status: Status::StartingCommand,
            step,
            total_steps: total,
            message: title.clone(),
        };
        self.logs.push(kept);
        let project = ProjectLog {
            id: self.id.clone(),
            timestamp: now,
            unique_id: self.unique_id.clone(),
            socket_token: self.socket_token.clone(),
            step,
            total_steps: total,
            state: Status::StartingCommand,
            message: title.clone(),
        };
        (log, project)
    }

    /// Records how a command ended: an abort request wins, then the exit status; tells
    /// whether the remaining commands are skipped (after an abort, or after a failure of a
    /// command that aborts on error).
    pub fn record_command_result(&mut self, terminated: bool, exit_success: bool, abort_on_error: bool) -> (stop: bool)
        ensures
            final(self).status == status_after(terminated, exit_success),
            stop == (terminated || (!exit_success && abort_on_error)),
            final(self).logs@ == old(self).logs@,
            final(self).payload@ == old(self).payload@,
            final(self).current_step == old(self).current_step,
    {
        if terminated {
            self.status = Status::Aborted;
            return true;
        }
        if exit_success {
            self.status = Status::Success;
            false
        } else {
            self.status = Status::Error;
            abort_on_error
        }
    }

    /// The commands to run when the build's commands are done: the success commands after
    /// a success, the failure commands otherwise.
    pub fn finishing_commands<'a>(&self, on_success: &'a Vec<CommandConfig>, on_failure: &'a Vec<CommandConfig>) -> (r: &'a Vec<CommandConfig>)
        ensures
            r == (if self.status == Status::Success {
                on_success
            } else {
                on_failure
            }),
    {
        if self.status == Status::Success {
            on_success
        } else {
            on_failure
        }
    }

    /// The progress report that closes the build.
    pub fn final_log(&self, step: usize, total: usize, now: i64) -> (r: ProjectLog)
        ensures
            r.id@ == self.id@,
            r.unique_id@ == self.unique_id@,
            r.socket_token@ == self.socket_token@,
            r.step == step,
            r.total_steps == total,
            r.state == self.status,
            r.timestamp == now,
            r.message@ == "Finalizing build"@,
    {
        ProjectLog {
            id: self.id.clone(),
            timestamp: now,
            unique_id: self.unique_id.clone(),
            socket_token: self.socket_token.clone(),
            step,
            total_steps: total,
            state: self.status,
            message: "Finalizing build".to_string(),
        }
    }

    /// Appends buffered log lines to the build's log.
    pub fn append_logs(&mut self, buffer: &Vec<BuildLog>)
        ensures
            final(self).logs@.len() == old(self).logs@.len() + buffer@.len(),
            final(self).logs@.take(old(self).logs@.len() as int) == old(self).logs@,
            forall|i: int| 0 <= i < buffer@.len() ==> #[trigger] final(self).logs@[old(self).logs@.len() + i] == buffer@[i],
            final(self).status == old(self).status,
            final(self).payload@ == old(self).payload@,
    {
        let ghost start = self.logs@;
        let mut i: usize = 0;
        while i < buffer.len()
            invariant
                i <= buffer@.len(),
                self.logs@.len() == start.len() + i,
                self.logs@.take(start.len() as int) == start,
                forall|j: int| 0 <= j < i ==> #[trigger] self.logs@[start.len() + j] == buffer@[j],
                self.status == old(self).status,
                self.payload@ == old(self).payload@,
            decreases buffer@.len() - i,
        {
            let b = &buffer[i];
            let line = BuildLog {
                timestamp: b.timestamp,
                status: b.status,
                step: b.step,
                total_steps: b.total_steps,
                message: b.message.clone(),
            };
            assert(line == buffer@[i as int]);
            let ghost before = self.logs@;
            self.logs.push(line);
            assert(self.logs@.take(start.len() as int) =~= before.take(start.len() as int));
            i = i + 1;
        }
    }
}

/// Progress through a list of commands: the step number shown for the next command,
/// the index of the next command, how many there are, and whether the list was cut short.
#[derive(Clone, Copy, Debug)]
pub struct CommandRun {
    pub first_step: usize,
    pub step: usize,
    pub index: usize,
    pub count: usize,
    pub stopped: bool,
}

impl CommandRun {
    /// Well-formed progress: steps count up from the first one with the index.
    pub open spec fn wf(&self) -> bool {
        &&& self.index <= self.count
        &&& self.step == self.first_step + self.index
        &&& self.first_step + self.count < usize::MAX
    }

    /// Before the first of `count` commands, numbered from `first_step`.
    pub fn new(first_step: usize, count: usize) -> (r: Self)
        requires
            first_step + count < usize::MAX,
        ensures
            r.wf(),
            r.first_step == first_step,
            r.step == first_step,
            r.index == 0,
            r.count == count,
            !r.stopped,
    {
        CommandRun { first_step, step: first_step, index: 0, count, stopped: false }
    }

    /// The index of the command to run next, if any.
    pub fn next_index(&self) -> (r: Option<usize>)
        ensures
            r == (if !self.stopped && self.index < self.count {
                Some(self.index)
            } else {
                None::<usize>
            }),
    {
        if !self.stopped && self.index < self.count {
            Some(self.index)
        } else {
            None
        }
    }

    /// One of the build's commands ended: the build records the result, and the run moves
    /// to the next command unless the build stops there.
    pub fn finish_build_command(&mut self, build: &mut BuildProcess, terminated: bool, exit_success: bool, abort_on_error: bool)
        requires
            old(self).wf(),
            old(self).index < old(self).count,
            !old(self).stopped,
        ensures
            final(build).status == status_after(terminated, exit_success),
            final(build).logs@ == old(build).logs@,
            final(build).payload@ == old(build).payload@,
            final(self).count == old(self).count,
            (terminated || (!exit_success && abort_on_error)) ==> final(self).stopped && final(self).step == old(self).step
                && final(self).index == old(self).index,
            !(terminated || (!exit_success && abort_on_error)) ==> !final(self).stopped && final(self).step == old(self).step + 1
                && final(self).index == old(self).index + 1,
            final(self).wf(),
            final(self).first_step == old(self).first_step,
    {
        let stop = build.record_command_result(terminated, exit_success, abort_on_error);
        if stop {
            self.stopped = true;
        } else {
            self.step = self.step + 1;
            self.index = self.index + 1;
        }
    }

    /// One of the success or failure commands ended: the run moves to the next one unless
    /// it failed and aborts on error.
    pub fn finish_extra_command(&mut self, exit_success: bool, abort_on_error: bool)
        requires
            old(self).wf(),
            old(self).index < old(self).count,
            !old(self).stopped,
        ensures
            final(self).count == old(self).count,
            continues_after(exit_success, abort_on_error) ==> !final(self).stopped && final(self).step == old(self).step + 1
                && final(self).index == old(self).index + 1,
            !continues_after(exit_success, abort_on_error) ==> final(self).stopped && final(self).step == old(self).step
                && final(self).index == old(self).index,
            final(self).wf(),
            final(self).first_step == old(self).first_step,
    {
        if continues_after(exit_success, abort_on_error) {
            self.step = self.step + 1;
            self.index = self.index + 1;
        } else {
            self.stopped = true;
        }
    }
}

/// What a command's output means for the build: its log lines, stamped with the step
/// and time, and its extracted environment values, each in order.
pub open spec fn log_lines(evs: Seq<EventView>) -> Seq<(Status, Seq<char>)>
    decreases evs.len(),
{
    if evs.len() == 0 {
        Seq::empty()
    } else {
        let rest = log_lines(evs.drop_last());
        match evs.last() {
            EventView::Log { status, message } => rest.push((status, message)),
            EventView::Env { .. } => rest,
        }
    }
}

/// The extracted environment values among the events, in order.
pub open spec fn env_pairs(evs: Seq<EventView>) -> Seq<(Seq<char>, Seq<char>)>
    decreases evs.len(),
{
    if evs.len() == 0 {
        Seq::empty()
    } else {
        let rest = env_pairs(evs.drop_last());
        match evs.last() {
            EventView::Log { .. } => rest,
            EventView::Env { key, value } => rest.push((key, value)),
        }
    }
}

/// Splits output events into build log lines for step `step` of `total` at `now`, and
/// `(key, value)` pairs to put in the build payload and the command environment.
pub fn route_events(events: &Vec<OutputEvent>, step: usize, total: usize, now: i64) -> (r: (Vec<BuildLog>, Vec<(String, String)>))
    ensures
        r.0@.len() == log_lines(crate::output::events_view(events@)).len(),
        forall|i: int| 0 <= i < r.0@.len() ==> {
            &&& (#[trigger] r.0@[i]).timestamp == now
            &&& r.0@[i].step == step
            &&& r.0@[i].total_steps == total
            &&& (r.0@[i].status, r.0@[i].message@) == log_lines(crate::output::events_view(events@))[i]
        },
        r.1@.map_values(|p: (String, String)| (p.0@, p.1@)) == env_pairs(crate::output::events_view(events@)),
{
    let ghost ev = crate::output::events_view(events@);
    let mut logs: Vec<BuildLog> = Vec::new();
    let mut envs: Vec<(String, String)> = Vec::new();
    let mut i: usize = 0;
    assert(ev.take(0) =~= Seq::<EventView>::empty());
    while i < events.len()
        invariant
            i <= events@.len(),
            ev == crate::output::events_view(events@),
            logs@.len() == log_lines(ev.take(i as int)).len(),
            forall|j: int| 0 <= j < logs@.len() ==> {
                &&& (#[trigger] logs@[j]).timestamp == now
                &&& logs@[j].step == step
                &&& logs@[j].total_steps == total
                &&& (logs@[j].status, logs@[j].message@) == log_lines(ev.take(i as int))[j]
            },
            envs@.map_values(|p: (String, String)| (p.0@, p.1@)) == env_pairs(ev.take(i as int)),
        decreases events@.len() - i,
    {
        let ghost pre = ev.take(i + 1);
        assert(pre.drop_last() =~= ev.take(i as int));
        assert(pre.last() == events@[i as int]@);
        match &events[i] {
            OutputEvent::Log { status, message } => {
                logs.push(BuildLog { timestamp: now, status: *status, step, total_steps: total, message: message.clone() });
                assert(envs@.map_values(|p: (String, String)| (p.0@, p.1@)) == env_pairs(pre));
            },
            OutputEvent::Env { key, value } => {
                let ghost before = envs@.map_values(|p: (String, String)| (p.0@, p.1@));
                envs.push((key.clone(), value.clone()));
                assert(envs@.map_values(|p: (String, String)| (p.0@, p.1@)) =~= before.push((key@, value@)));
            },
        }
        i = i + 1;
    }
    assert(ev.take(events@.len() as int) =~= ev);
    (logs, envs)
}

} // verus!
