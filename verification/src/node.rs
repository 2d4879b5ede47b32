//! The node dispatcher: transport-agnostic request handling.
//!
//! A connection's first control frame carries one request; the dispatcher
//! routes it to the session manager and answers with one response — or
//! enters a long-lived exchange: the attach bridge, the log stream, or
//! the watch stream. The decisions of those loops live here as one-step
//! transition functions; the surrounding runtime performs the waiting,
//! reading and writing, and feeds each event in as a plain value.

use vstd::prelude::*;

use crate::protocol::{Request, Response};
use crate::session::{SessionError, SessionManager, SessionStatus};
use crate::text::{spec_tail_lines, tail_lines};

verus! {

/// What a lossy UTF-8 decoding of these bytes reads as.
pub uninterp spec fn lossy_utf8(bytes: Seq<u8>) -> Seq<char>;

/// Relies on String::from_utf8_lossy: the decoding is a function of the
/// bytes alone (invalid sequences become replacement characters).
#[verifier::external_body]
pub(crate) fn utf8_lossy(bytes: &Vec<u8>) -> (r: String)
    ensures
        r@ == lossy_utf8(bytes@),
{
    String::from_utf8_lossy(bytes).into_owned()
}

/// Where the dispatcher sends a request, and what the connection does
/// next.
pub enum RouteOutcome {
    /// Send one response and close.
    Respond(Response),
    /// Send the response, then deliver SIGTERM to each of these pids;
    /// `killed` names the sessions whose status latched to `Killed`, for
    /// the caller to propagate into their live status watches.
    RespondAndSignal { response: Response, pids: Vec<u32>, killed: Vec<u32> },
    /// Run the launch protocol — validate, allocate, spawn, register —
    /// and respond with its outcome.
    RunLaunch { command: Vec<String>, working_dir: String },
    /// Send the greeting, then run the attach bridge; always detach on
    /// exit, however the bridge ended.
    Bridge { id: u32, greeting: Response },
    /// Serve the session's log file: one tailed snapshot, then (when
    /// following) each appended chunk.
    ServeLogs { path: String, follow: bool, tail: Option<usize> },
    /// Stream the session's output and status changes, history first
    /// when asked.
    ServeWatch { id: u32, include_history: bool, history_lines: Option<usize> },
    /// Offer the bytes to the session's input queue without blocking and
    /// report what happened.
    OfferInput { id: u32, data: Vec<u8> },
    /// Read the log's size and last lines, then report detailed status.
    QueryStatus { id: u32, path: String },
    /// Close the connection without a response (a watch on an unknown
    /// session: the handler treats it as a connection error).
    Close,
}

impl SessionManager {
    /// Route one request. Exactly one outcome arises per request kind:
    /// simple verbs answer immediately; launch, attach, logs, watch,
    /// send-input and status hand the connection to their own protocol.
    /// Only attach, kill and kill-all change the registry, exactly as
    /// those verbs do.
    pub fn route(&mut self, req: Request) -> (r: RouteOutcome)
        requires
            old(self).wf(),
        ensures
            final(self).wf(),
            final(self).next_id == old(self).next_id,
            final(self).data_dir == old(self).data_dir,
            match req {
                Request::ListSessions => final(self).sessions@ == old(self).sessions@ && (r matches
                    RouteOutcome::Respond(resp) && (resp matches Response::SessionList { sessions }
                    && sessions@.len() == old(self).sessions@.len() && (forall|i: int|
                    0 <= i < sessions@.len() ==> crate::session::spec_info_matches(
                        #[trigger] sessions@[i],
                        old(self).sessions@[i],
                    )))),
                Request::Launch { command, working_dir } => final(self).sessions@ == old(
                    self,
                ).sessions@ && (r matches RouteOutcome::RunLaunch { command: c, working_dir: w }
                    && c@ == command@ && w@ == working_dir@),
                Request::Attach { id, .. } => {
                    &&& (!old(self).spec_has(id) || old(self).sessions@[old(self).spec_index_of(
                        id,
                    )].meta.status.spec_is_terminal()) ==> final(self).sessions@ == old(
                        self,
                    ).sessions@ && (r matches RouteOutcome::Respond(resp) && (resp matches
                        Response::Error { message } && (message@ == SessionError::NotFound(
                        id,
                    ).spec_message() || message@ == SessionError::NotRunning(id).spec_message())))
                    &&& (old(self).spec_has(id) && !old(self).sessions@[old(self).spec_index_of(
                        id,
                    )].meta.status.spec_is_terminal()) ==> {
                        let i = old(self).spec_index_of(id);
                        let s = old(self).sessions@[i];
                        &&& final(self).sessions@ == old(self).sessions@.update(
                            i,
                            (crate::session::Session {
                                attached_count: crate::session::spec_sat_inc(s.attached_count),
                                ..s
                            }),
                        )
                        &&& (r matches RouteOutcome::Bridge { id: bid, greeting } && bid == id && (
                        greeting matches Response::Attached { id: gid } && gid == id))
                    }
                },
                Request::Detach => final(self).sessions@ == old(self).sessions@ && (r matches
                    RouteOutcome::Respond(resp) && resp is Detached),
                Request::Kill { id } => {
                    &&& !old(self).spec_has(id) ==> final(self).sessions@ == old(self).sessions@
                        && (r matches RouteOutcome::Respond(resp) && (resp matches Response::Error {
                        message,
                    } && message@ == SessionError::NotFound(id).spec_message()))
                    &&& old(self).spec_has(id) ==> {
                        let i = old(self).spec_index_of(id);
                        let s = old(self).sessions@[i];
                        &&& final(self).sessions@ == old(self).sessions@.update(
                            i,
                            (crate::session::Session {
                                meta: (crate::session::SessionMeta {
                                    status: crate::session::spec_apply_status(
                                        s.meta.status,
                                        SessionStatus::Killed,
                                    ),
                                    ..s.meta
                                }),
                                ..s
                            }),
                        )
                        &&& (r matches RouteOutcome::RespondAndSignal { response, pids, killed }
                            && (response matches Response::Killed { id: kid } && kid == id) && pids@
                            == (match s.meta.pid {
                            Some(p) => seq![p],
                            None => Seq::<u32>::empty(),
                        }) && killed@ == seq![id])
                    }
                },
                Request::KillAll => final(self).sessions@.len() == old(self).sessions@.len() && (
                r matches RouteOutcome::RespondAndSignal { response, pids, killed } && (
                response matches Response::KilledAll { count } && count
                    == crate::session::spec_count_running(old(self).sessions@)) && pids@
                    == crate::session::spec_kill_pids(old(self).sessions@) && killed@
                    == crate::session::spec_killed_ids(old(self).sessions@)),
                Request::Resize { .. } => final(self).sessions@ == old(self).sessions@ && (
                r matches RouteOutcome::Respond(resp) && resp is Resized),
                Request::Logs { id, follow, tail } => final(self).sessions@ == old(self).sessions@
                    && {
                    &&& !old(self).spec_has(id) ==> (r matches RouteOutcome::Respond(resp) && (
                    resp matches Response::Error { message } && message@ == SessionError::NotFound(
                        id,
                    ).spec_message()))
                    &&& old(self).spec_has(id) ==> (r matches RouteOutcome::ServeLogs {
                        path,
                        follow: f,
                        tail: ta,
                    } && path@ == crate::session::spec_log_path(old(self).data_dir@, id) && f
                        == follow && ta == tail)
                },
                Request::SendInput { id, data } => final(self).sessions@ == old(self).sessions@
                    && {
                    &&& !old(self).spec_has(id) ==> (r matches RouteOutcome::Respond(resp) && (
                    resp matches Response::Error { message } && message@ == SessionError::NotFound(
                        id,
                    ).spec_message()))
                    &&& old(self).spec_has(id) ==> (r matches RouteOutcome::OfferInput {
                        id: oid,
                        data: d,
                    } && oid == id && d@ == data@)
                },
                Request::GetStatus { id } => final(self).sessions@ == old(self).sessions@ && {
                    &&& !old(self).spec_has(id) ==> (r matches RouteOutcome::Respond(resp) && (
                    resp matches Response::Error { message } && message@ == SessionError::NotFound(
                        id,
                    ).spec_message()))
                    &&& old(self).spec_has(id) ==> (r matches RouteOutcome::QueryStatus {
                        id: qid,
                        path,
                    } && qid == id && path@ == crate::session::spec_log_path(
                        old(self).data_dir@,
                        id,
                    ))
                },
                Request::WatchSession { id, include_history, history_lines } => final(self).sessions@ == old(self).sessions@ && {
                    &&& !old(self).spec_has(id) ==> r is Close
                    &&& old(self).spec_has(id) ==> (r matches RouteOutcome::ServeWatch {
                        id: wid,
                        include_history: ih,
                        history_lines: hl,
                    } && wid == id && ih == include_history && hl == history_lines)
                },
            },
    {
        match req {
            Request::ListSessions => {
                let sessions = self.list();
                RouteOutcome::Respond(Response::SessionList { sessions })
            },
            Request::Launch { command, working_dir } => {
                RouteOutcome::RunLaunch { command, working_dir }
            },
            Request::Attach { id, .. } => {
                match self.attach(id) {
                    Ok(()) => RouteOutcome::Bridge { id, greeting: Response::Attached { id } },
                    Err(e) => RouteOutcome::Respond(Response::Error { message: e.message() }),
                }
            },
            Request::Detach => RouteOutcome::Respond(Response::Detached),
            Request::Kill { id } => {
                match self.kill(id) {
                    Ok(pid) => {
                        let mut pids: Vec<u32> = Vec::new();
                        match pid {
                            Some(p) => {
                                pids.push(p);
                                proof {
                                    assert(pids@ =~= seq![p]);
                                }
                            },
                            None => {},
                        }
                        let mut killed: Vec<u32> = Vec::new();
                        killed.push(id);
                        proof {
                            assert(killed@ =~= seq![id]);
                        }
                        RouteOutcome::RespondAndSignal {
                            response: Response::Killed { id },
                            pids,
                            killed,
                        }
                    },
                    Err(e) => RouteOutcome::Respond(Response::Error { message: e.message() }),
                }
            },
            Request::KillAll => {
                let (count, pids, killed) = self.kill_all();
                RouteOutcome::RespondAndSignal {
                    response: Response::KilledAll { count },
                    pids,
                    killed,
                }
            },
            Request::Resize { .. } => RouteOutcome::Respond(Response::Resized),
            Request::Logs { id, follow, tail } => {
                match self.log_path(id) {
                    Ok(path) => RouteOutcome::ServeLogs { path, follow, tail },
                    Err(e) => RouteOutcome::Respond(Response::Error { message: e.message() }),
                }
            },
            Request::SendInput { id, data } => {
                match self.send_input(id, &data) {
                    Ok(_) => RouteOutcome::OfferInput { id, data },
                    Err(e) => RouteOutcome::Respond(Response::Error { message: e.message() }),
                }
            },
            Request::GetStatus { id } => {
                match self.log_path(id) {
                    Ok(path) => RouteOutcome::QueryStatus { id, path },
                    Err(e) => RouteOutcome::Respond(Response::Error { message: e.message() }),
                }
            },
            Request::WatchSession { id, include_history, history_lines } => {
                if self.has_session(id) {
                    RouteOutcome::ServeWatch { id, include_history, history_lines }
                } else {
                    RouteOutcome::Close
                }
            },
        }
    }
}

/// The response a launch attempt yields: the new id, or the validation
/// error's message.
pub fn launch_response(r: &Result<u32, crate::session::LaunchError>) -> (resp: Response)
    ensures
        (r matches Ok(id)) ==> (resp matches Response::Launched { id: rid } && Some(rid) == (match r {
            Ok(i) => Some(*i),
            Err(_) => None,
        })),
        (r matches Err(e)) ==> (resp matches Response::Error { message } && (match r {
            Ok(_) => false,
            Err(e) => message@ == e.spec_message(),
        })),
{
    match r {
        Ok(id) => Response::Launched { id: *id },
        Err(e) => Response::Error { message: e.message() },
    }
}

/// The response a send-input attempt yields, once the queue has spoken:
/// the byte count on acceptance, or the busy error when the queue was
/// full.
pub fn input_sent_response(id: u32, bytes: usize, accepted: bool) -> (resp: Response)
    ensures
        accepted ==> (resp matches Response::InputSent { id: rid, bytes: rb } && rid == id && rb
            == bytes),
        !accepted ==> (resp matches Response::Error { message } && message@
            == "sending input to session"@),
{
    if accepted {
        Response::InputSent { id, bytes }
    } else {
        Response::Error { message: "sending input to session".to_owned() }
    }
}

/// The response a status query yields, once the log has been read.
pub fn status_response(r: Result<(crate::protocol::SessionInfo, u64), SessionError>) -> (resp:
    Response)
    ensures
        (r matches Ok(p)) ==> (resp matches Response::SessionStatus { info, output_size } && (
        match r {
            Ok(p) => info == p.0 && output_size == p.1,
            Err(_) => false,
        })),
        (r matches Err(e)) ==> (resp matches Response::Error { message } && (match r {
            Ok(_) => false,
            Err(e) => message@ == e.spec_message(),
        })),
{
    match r {
        Ok((info, output_size)) => Response::SessionStatus { info, output_size },
        Err(e) => Response::Error { message: e.message() },
    }
}

/// One event the attach bridge multiplexes.
pub enum BridgeEvent {
    /// A byte buffer arrived on the output fan-out.
    Output(Vec<u8>),
    /// The subscriber lagged and skipped this many buffers.
    OutputLagged(u64),
    /// The fan-out closed: the session's reader is gone.
    OutputClosed,
    /// The client sent a data frame: PTY input.
    ClientData(Vec<u8>),
    /// The client sent a control frame.
    ClientControl(Request),
    /// The client closed its connection.
    ClientClosed,
    /// The session's status changed.
    StatusChanged(SessionStatus),
}

/// What the bridge does in reaction to one event.
pub enum BridgeAction {
    /// Forward PTY output to the client as a data frame.
    SendData(Vec<u8>),
    /// Offer client bytes to the session's input queue (best-effort:
    /// a full queue drops them without ending the attach).
    OfferInput(Vec<u8>),
    /// Send one control response to the client.
    SendResponse(Response),
    /// Resize the session's PTY.
    Resize { id: u32, cols: u16, rows: u16 },
    /// Do nothing (lag is tolerated; unknown control frames are
    /// ignored).
    Ignore,
}

/// One bridge transition: the action to perform and whether the bridge
/// is done. Exiting the bridge — on any path — is followed by a detach.
pub struct BridgeStep {
    pub action: BridgeAction,
    pub done: bool,
}

/// One step of the attach bridge: PTY output goes to the client, client
/// data goes to the input queue, a detach request or the end of the
/// session or connection ends the bridge. Lag is logged and tolerated.
pub fn bridge_step(session_id: u32, event: BridgeEvent) -> (r: BridgeStep)
    ensures
        match event {
            BridgeEvent::Output(d) => !r.done && (r.action matches BridgeAction::SendData(b) && b@
                == d@),
            BridgeEvent::OutputLagged(_) => !r.done && r.action is Ignore,
            BridgeEvent::OutputClosed => r.done && r.action is Ignore,
            BridgeEvent::ClientData(d) => !r.done && (r.action matches BridgeAction::OfferInput(b)
                && b@ == d@),
            BridgeEvent::ClientControl(req) => match req {
                Request::Detach => r.done && (r.action matches BridgeAction::SendResponse(resp)
                    && resp is Detached),
                Request::Resize { cols, rows } => !r.done && (r.action matches
                    BridgeAction::Resize { id, cols: c, rows: w } && id == session_id && c == cols
                    && w == rows),
                _ => !r.done && r.action is Ignore,
            },
            BridgeEvent::ClientClosed => r.done && r.action is Ignore,
            BridgeEvent::StatusChanged(st) => {
                &&& st.spec_is_terminal() ==> r.done && (r.action matches
                    BridgeAction::SendResponse(resp) && (resp matches Response::Error { message }
                    && message@ == "session "@ + st.spec_display()))
                &&& !st.spec_is_terminal() ==> !r.done && r.action is Ignore
            },
        },
{
    match event {
        BridgeEvent::Output(d) => BridgeStep { action: BridgeAction::SendData(d), done: false },
        BridgeEvent::OutputLagged(_) => BridgeStep { action: BridgeAction::Ignore, done: false },
        BridgeEvent::OutputClosed => BridgeStep { action: BridgeAction::Ignore, done: true },
        BridgeEvent::ClientData(d) => BridgeStep {
            action: BridgeAction::OfferInput(d),
            done: false,
        },
        BridgeEvent::ClientControl(req) => match req {
            Request::Detach => BridgeStep {
                action: BridgeAction::SendResponse(Response::Detached),
                done: true,
            },
            Request::Resize { cols, rows } => BridgeStep {
                action: BridgeAction::Resize { id: session_id, cols, rows },
                done: false,
            },
            _ => BridgeStep { action: BridgeAction::Ignore, done: false },
        },
        BridgeEvent::ClientClosed => BridgeStep { action: BridgeAction::Ignore, done: true },
        BridgeEvent::StatusChanged(st) => {
            if st.is_terminal() {
                let mut message: String = "session ".to_owned();
                message.append(st.display().as_str());
                BridgeStep {
                    action: BridgeAction::SendResponse(Response::Error { message }),
                    done: true,
                }
            } else {
                BridgeStep { action: BridgeAction::Ignore, done: false }
            }
        },
    }
}

/// One event the watch stream multiplexes.
pub enum WatchEvent {
    /// A byte buffer arrived on the output fan-out.
    Output(Vec<u8>),
    /// The subscriber lagged; skipped buffers are simply not shown.
    Lagged(u64),
    /// The fan-out closed: the session's reader is gone.
    Closed,
    /// The session's status changed.
    StatusChanged(SessionStatus),
}

/// The history update a watch sends first, when asked: the log content
/// (tailed when a line count is given), as one update — or nothing when
/// there is no history to show.
pub fn watch_history_update(id: u32, content: &str, history_lines: Option<usize>) -> (r: Option<
    Response,
>)
    ensures
        ({
            let shown = match history_lines {
                Some(n) => spec_tail_lines(content@, n as nat),
                None => content@,
            };
            match r {
                None => shown.len() == 0,
                Some(resp) => shown.len() > 0 && (resp matches Response::WatchUpdate {
                    id: rid,
                    status,
                    output,
                    done,
                } && rid == id && status@ == "running"@ && !done && (output matches Some(text)
                    && text@ == shown)),
            }
        }),
{
    let output: String = match history_lines {
        Some(n) => tail_lines(content, n),
        None => content.to_owned(),
    };
    if output.as_str().unicode_len() == 0 {
        proof {
            assert(output@ =~= Seq::<char>::empty());
        }
        None
    } else {
        Some(
            Response::WatchUpdate {
                id,
                status: "running".to_owned(),
                output: Some(output),
                done: false,
            },
        )
    }
}

/// One step of the watch stream: output chunks and status changes each
/// become one update; a terminal status ends the stream; lag skips
/// silently.
pub fn watch_step(id: u32, event: WatchEvent) -> (r: (Option<Response>, bool))
    ensures
        match event {
            WatchEvent::Output(d) => !r.1 && (r.0 matches Some(resp) && (resp matches
                Response::WatchUpdate { id: rid, status, output, done } && rid == id && status@
                == "running"@ && !done && (output matches Some(text) && text@ == lossy_utf8(d@)))),
            WatchEvent::Lagged(_) => r.0 is None && !r.1,
            WatchEvent::Closed => r.0 is None && r.1,
            WatchEvent::StatusChanged(st) => r.1 == st.spec_is_terminal() && (r.0 matches Some(
                resp,
            ) && (resp matches Response::WatchUpdate { id: rid, status, output, done } && rid == id
                && status@ == st.spec_display() && output is None && done
                == st.spec_is_terminal())),
        },
{
    match event {
        WatchEvent::Output(d) => {
            let text = utf8_lossy(&d);
            (
                Some(
                    Response::WatchUpdate {
                        id,
                        status: "running".to_owned(),
                        output: Some(text),
                        done: false,
                    },
                ),
                false,
            )
        },
        WatchEvent::Lagged(_) => (None, false),
        WatchEvent::Closed => (None, true),
        WatchEvent::StatusChanged(st) => {
            let done = st.is_terminal();
            (
                Some(
                    Response::WatchUpdate { id, status: st.display(), output: None, done },
                ),
                done,
            )
        },
    }
}

/// The one snapshot response the log verb sends: the log content, tailed
/// when asked, done unless the client follows.
pub fn logs_response(content: &str, follow: bool, tail: Option<usize>) -> (resp: Response)
    ensures
        resp matches Response::LogData { data, done } && data@ == (match tail {
            Some(n) => spec_tail_lines(content@, n as nat),
            None => content@,
        }) && done == !follow,
{
    let data: String = match tail {
        Some(n) => tail_lines(content, n),
        None => content.to_owned(),
    };
    Response::LogData { data, done: !follow }
}

/// One follow-mode chunk: bytes newly appended to the log, decoded
/// lossily, never the last.
pub fn follow_chunk_response(chunk: &Vec<u8>) -> (resp: Response)
    ensures
        resp matches Response::LogData { data, done } && data@ == lossy_utf8(chunk@) && !done,
{
    Response::LogData { data: utf8_lossy(chunk), done: false }
}

/// The persistence coordinator's debounce: signals set a pending flag;
/// the debounce timer, armed while pending, writes one snapshot and
/// clears it. A burst of signals within one timer window coalesces into
/// a single write.
pub struct Debounce {
    pub pending: bool,
}

/// One event the persistence coordinator sees.
#[derive(Debug, Clone, Copy, PartialEq, Eq, Structural)]
pub enum DebounceEvent {
    /// A state change was signalled.
    Signal,
    /// The debounce timer expired.
    Timer,
}

/// How many snapshot writes a sequence of events causes, starting from a
/// given pending flag.
pub open spec fn spec_debounce_writes(pending: bool, events: Seq<DebounceEvent>) -> int
    decreases events.len(),
{
    if events.len() == 0 {
        0
    } else {
        match events[0] {
            DebounceEvent::Signal => spec_debounce_writes(true, events.skip(1)),
            DebounceEvent::Timer => (if pending {
                1int
            } else {
                0int
            }) + spec_debounce_writes(false, events.skip(1)),
        }
    }
}

impl Debounce {
    /// A coordinator with nothing pending.
    pub fn new() -> (d: Debounce)
        ensures
            !d.pending,
    {
        Debounce { pending: false }
    }

    /// A state change was signalled: remember that a snapshot is owed.
    pub fn on_signal(&mut self)
        ensures
            final(self).pending,
    {
        self.pending = true;
    }

    /// The debounce timer expired: write a snapshot exactly when one was
    /// pending, and owe nothing after.
    pub fn on_timer(&mut self) -> (write: bool)
        ensures
            write == old(self).pending,
            !final(self).pending,
    {
        let write = self.pending;
        self.pending = false;
        write
    }
}

/// A burst of signals within one debounce window coalesces: any number
/// of state-change signals (at least one) followed by one timer expiry
/// causes exactly one snapshot write.
pub proof fn lemma_debounce_coalesce(pending: bool, n: nat)
    requires
        n >= 1,
    ensures
        spec_debounce_writes(
            pending,
            Seq::new(n, |i: int| DebounceEvent::Signal).push(DebounceEvent::Timer),
        ) == 1,
    decreases n,
{
    let events = Seq::new(n, |i: int| DebounceEvent::Signal).push(DebounceEvent::Timer);
    assert(events[0] == DebounceEvent::Signal);
    if n == 1 {
        assert(events.skip(1) =~= seq![DebounceEvent::Timer]);
        assert(seq![DebounceEvent::Timer].skip(1) =~= Seq::<DebounceEvent>::empty());
        assert(spec_debounce_writes(false, Seq::<DebounceEvent>::empty()) == 0);
        assert(spec_debounce_writes(true, seq![DebounceEvent::Timer]) == 1);
    } else {
        lemma_debounce_coalesce(true, (n - 1) as nat);
        assert(events.skip(1) =~= Seq::new((n - 1) as nat, |i: int| DebounceEvent::Signal).push(
            DebounceEvent::Timer,
        ));
    }
}

} // verus!
