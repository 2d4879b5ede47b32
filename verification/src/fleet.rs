//! The fleet plane: nodes on a shared message bus answer discovery and
//! session verbs; a client scatters a discover and gathers the answers.
//!
//! The bus itself (connecting, subscribing, publishing) is transport
//! plumbing outside the core; here live the subject grammar, the request
//! routing on the node side, and the accumulation and target parsing on
//! the client side.

use vstd::prelude::*;

use crate::protocol::{DaemonInfo, FleetRequest, FleetResponse, SessionInfo};
use crate::session::{SessionError, SessionManager, SessionStatus};
use crate::text::{
    find_char, parse_u32_str, spec_dec_nat, spec_find_char, spec_parse_u32_chars, str_eq,
    u64_to_dec,
};

verus! {

/// Parse a fleet target of the shape `<node>:<session_id>`: the node
/// name before the first colon, a decimal session id after it.
pub fn parse_fleet_target<'a>(target: &'a str) -> (r: Result<(&'a str, u32), String>)
    ensures
        match spec_find_char(target@, ':') {
            None => (r matches Err(m) && m@ == "fleet target must be <node>:<session_id>"@),
            Some(i) => match spec_parse_u32_chars(target@.skip(i + 1)) {
                None => (r matches Err(m) && m@ == "session ID must be a number"@),
                Some(id) => (r matches Ok(p) && p.0@ == target@.subrange(0, i) && p.1 == id),
            },
        },
{
    let len = target.unicode_len();
    match find_char(target, ':') {
        None => Err("fleet target must be <node>:<session_id>".to_owned()),
        Some(i) => {
            proof {
                assert(target@.subrange(i + 1, len as int) =~= target@.skip(i + 1));
            }
            match parse_u32_str(target, i + 1, len) {
                None => Err("session ID must be a number".to_owned()),
                Some(id) => Ok((target.substring_char(0, i), id)),
            }
        },
    }
}

/// An uptime in whole seconds rendered coarsely: seconds, minutes,
/// hours, or days.
pub open spec fn spec_format_uptime(secs: nat) -> Seq<char> {
    if secs < 60 {
        spec_dec_nat(secs) + "s"@
    } else if secs < 3600 {
        spec_dec_nat(secs / 60) + "m"@
    } else if secs < 86400 {
        spec_dec_nat(secs / 3600) + "h"@
    } else {
        spec_dec_nat(secs / 86400) + "d"@
    }
}

/// Render an uptime coarsely: "45s", "12m", "3h", "2d".
pub fn format_uptime(secs: u64) -> (s: String)
    ensures
        s@ == spec_format_uptime(secs as nat),
{
    if secs < 60 {
        let mut s = u64_to_dec(secs);
        s.append("s");
        s
    } else if secs < 3600 {
        let mut s = u64_to_dec(secs / 60);
        s.append("m");
        s
    } else if secs < 86400 {
        let mut s = u64_to_dec(secs / 3600);
        s.append("h");
        s
    } else {
        let mut s = u64_to_dec(secs / 86400);
        s.append("d");
        s
    }
}

/// The bus subject a request to a named node travels on: one verb
/// subject per request kind, and the shared discovery subject.
pub open spec fn spec_fleet_subject(req: FleetRequest, name: Seq<char>) -> Seq<char> {
    match req {
        FleetRequest::Discover => "cw.fleet.discover"@,
        FleetRequest::ListSessions => "cw."@ + name + ".list"@,
        FleetRequest::Launch { .. } => "cw."@ + name + ".launch"@,
        FleetRequest::Kill { .. } => "cw."@ + name + ".kill"@,
        FleetRequest::GetStatus { .. } => "cw."@ + name + ".status"@,
        FleetRequest::SendInput { .. } => "cw."@ + name + ".send"@,
    }
}

/// The bus subject for one request to one node.
pub fn fleet_subject(req: &FleetRequest, name: &str) -> (s: String)
    ensures
        s@ == spec_fleet_subject(*req, name@),
{
    match req {
        FleetRequest::Discover => "cw.fleet.discover".to_owned(),
        FleetRequest::ListSessions => {
            let mut s = "cw.".to_owned();
            s.append(name);
            s.append(".list");
            s
        },
        FleetRequest::Launch { .. } => {
            let mut s = "cw.".to_owned();
            s.append(name);
            s.append(".launch");
            s
        },
        FleetRequest::Kill { .. } => {
            let mut s = "cw.".to_owned();
            s.append(name);
            s.append(".kill");
            s
        },
        FleetRequest::GetStatus { .. } => {
            let mut s = "cw.".to_owned();
            s.append(name);
            s.append(".status");
            s
        },
        FleetRequest::SendInput { .. } => {
            let mut s = "cw.".to_owned();
            s.append(name);
            s.append(".send");
            s
        },
    }
}

/// What a node does with one fleet request.
pub enum FleetOutcome {
    /// Publish one reply on the message's reply subject.
    Reply(FleetResponse),
    /// Publish the reply, then deliver SIGTERM to these pids; `killed`
    /// names the sessions whose status latched to `Killed`, for the
    /// caller to propagate into their live status watches.
    ReplyAndSignal { response: FleetResponse, pids: Vec<u32>, killed: Vec<u32> },
    /// Run the launch protocol, then reply with its outcome.
    RunLaunch { command: Vec<String>, working_dir: String },
    /// Offer the bytes to the session's input queue, then reply.
    OfferInput { id: u32, data: Vec<u8> },
    /// Read the log's size and last lines, then reply with the status.
    QueryStatus { id: u32, path: String },
}

impl SessionManager {
    /// This node's advertisement: its name, its external URL, its
    /// sessions and its uptime.
    pub fn daemon_info(&self, name: &str, external_url: &Option<String>, uptime_secs: u64) -> (d:
        DaemonInfo)
        requires
            self.wf(),
        ensures
            d.name@ == name@,
            spec_opt_string_matches(d.external_url, *external_url),
            d.uptime_secs == uptime_secs,
            d.sessions@.len() == self.sessions@.len(),
            forall|i: int|
                0 <= i < d.sessions@.len() ==> crate::session::spec_info_matches(
                    #[trigger] d.sessions@[i],
                    self.sessions@[i],
                ),
    {
        DaemonInfo {
            name: name.to_owned(),
            external_url: clone_opt_string(external_url),
            sessions: self.list(),
            uptime_secs,
        }
    }

    /// Route one fleet request, on the node side: discovery and listing
    /// answer from the registry; launch, kill, status and input go
    /// through the same session-manager verbs as local requests, each
    /// reply naming this node.
    pub fn fleet_route(
        &mut self,
        name: &str,
        external_url: &Option<String>,
        uptime_secs: u64,
        req: FleetRequest,
    ) -> (r: FleetOutcome)
        requires
            old(self).wf(),
        ensures
            final(self).wf(),
            final(self).next_id == old(self).next_id,
            final(self).data_dir == old(self).data_dir,
            match req {
                FleetRequest::Discover => final(self).sessions@ == old(self).sessions@ && (
                r matches FleetOutcome::Reply(resp) && (resp matches FleetResponse::DaemonInfo(d)
                    && d.name@ == name@ && spec_opt_string_matches(d.external_url, *external_url)
                    && d.uptime_secs == uptime_secs && d.sessions@.len() == old(
                    self,
                ).sessions@.len())),
                FleetRequest::ListSessions => final(self).sessions@ == old(self).sessions@ && (
                r matches FleetOutcome::Reply(resp) && (resp matches FleetResponse::SessionList {
                    daemon,
                    sessions,
                } && daemon@ == name@ && sessions@.len() == old(self).sessions@.len() && (
                forall|i: int|
                    0 <= i < sessions@.len() ==> crate::session::spec_info_matches(
                        #[trigger] sessions@[i],
                        old(self).sessions@[i],
                    )))),
                FleetRequest::Launch { command, working_dir } => final(self).sessions@ == old(
                    self,
                ).sessions@ && (r matches FleetOutcome::RunLaunch { command: c, working_dir: w }
                    && c@ == command@ && w@ == working_dir@),
                FleetRequest::Kill { id } => {
                    &&& !old(self).spec_has(id) ==> final(self).sessions@ == old(self).sessions@
                        && (r matches FleetOutcome::Reply(resp) && (resp matches
                        FleetResponse::Error { daemon, message } && daemon@ == name@ && message@
                        == SessionError::NotFound(id).spec_message()))
                    &&& old(self).spec_has(id) ==> {
                        let i = old(self).spec_index_of(id);
                        let s = old(self).sessions@[i];
                        &&& final(self).sessions@ == old(self).sessions@.update(
                            i,
                            (crate::session::Session {
                                meta: (crate::session::SessionMeta {
                                    status: crate::session::spec_apply_status(
                                        s.meta.status,
                                        SessionStatus::Killed,
                                    ),
                                    ..s.meta
                                }),
                                ..s
                            }),
                        )
                        &&& (r matches FleetOutcome::ReplyAndSignal { response, pids, killed }
                            && (response matches FleetResponse::Killed { daemon, id: kid }
                            && daemon@ == name@ && kid == id) && pids@ == (match s.meta.pid {
                            Some(p) => seq![p],
                            None => Seq::<u32>::empty(),
                        }) && killed@ == seq![id])
                    }
                },
                FleetRequest::GetStatus { id } => final(self).sessions@ == old(self).sessions@
                    && {
                    &&& !old(self).spec_has(id) ==> (r matches FleetOutcome::Reply(resp) && (
                    resp matches FleetResponse::Error { daemon, message } && daemon@ == name@
                        && message@ == SessionError::NotFound(id).spec_message()))
                    &&& old(self).spec_has(id) ==> (r matches FleetOutcome::QueryStatus {
                        id: qid,
                        path,
                    } && qid == id && path@ == crate::session::spec_log_path(
                        old(self).data_dir@,
                        id,
                    ))
                },
                FleetRequest::SendInput { id, data } => final(self).sessions@ == old(
                    self,
                ).sessions@ && {
                    &&& !old(self).spec_has(id) ==> (r matches FleetOutcome::Reply(resp) && (
                    resp matches FleetResponse::Error { daemon, message } && daemon@ == name@
                        && message@ == SessionError::NotFound(id).spec_message()))
                    &&& old(self).spec_has(id) ==> (r matches FleetOutcome::OfferInput {
                        id: oid,
                        data: d,
                    } && oid == id && d@ == data@)
                },
            },
    {
        match req {
            FleetRequest::Discover => {
                let d = self.daemon_info(name, external_url, uptime_secs);
                FleetOutcome::Reply(FleetResponse::DaemonInfo(d))
            },
            FleetRequest::ListSessions => {
                let sessions = self.list();
                FleetOutcome::Reply(
                    FleetResponse::SessionList { daemon: name.to_owned(), sessions },
                )
            },
            FleetRequest::Launch { command, working_dir } => {
                FleetOutcome::RunLaunch { command, working_dir }
            },
            FleetRequest::Kill { id } => {
                match self.kill(id) {
                    Ok(pid) => {
                        let mut pids: Vec<u32> = Vec::new();
                        match pid {
                            Some(p) => {
                                pids.push(p);
                                proof {
                                    assert(pids@ =~= seq![p]);
                                }
                            },
                            None => {},
                        }
                        let mut killed: Vec<u32> = Vec::new();
                        killed.push(id);
                        proof {
                            assert(killed@ =~= seq![id]);
                        }
                        FleetOutcome::ReplyAndSignal {
                            response: FleetResponse::Killed { daemon: name.to_owned(), id },
                            pids,
                            killed,
                        }
                    },
                    Err(e) => FleetOutcome::Reply(
                        FleetResponse::Error { daemon: name.to_owned(), message: e.message() },
                    ),
                }
            },
            FleetRequest::GetStatus { id } => {
                match self.log_path(id) {
                    Ok(path) => FleetOutcome::QueryStatus { id, path },
                    Err(e) => FleetOutcome::Reply(
                        FleetResponse::Error { daemon: name.to_owned(), message: e.message() },
                    ),
                }
            },
            FleetRequest::SendInput { id, data } => {
                match self.send_input(id, &data) {
                    Ok(_) => FleetOutcome::OfferInput { id, data },
                    Err(e) => FleetOutcome::Reply(
                        FleetResponse::Error { daemon: name.to_owned(), message: e.message() },
                    ),
                }
            },
        }
    }
}

/// Option strings carry the same contents.
pub open spec fn spec_opt_string_matches(a: Option<String>, b: Option<String>) -> bool {
    match (a, b) {
        (Option::None, Option::None) => true,
        (Option::Some(x), Option::Some(y)) => x@ == y@,
        _ => false,
    }
}

/// Clone an optional string with its contents pinned.
pub fn clone_opt_string(s: &Option<String>) -> (r: Option<String>)
    ensures
        spec_opt_string_matches(r, *s),
{
    match s {
        Some(x) => Some(crate::session::clone_string(x)),
        None => None,
    }
}

/// The reply a fleet launch yields: the new id, or the validation
/// error's message, either way naming this node.
pub fn fleet_launch_response(name: &str, r: &Result<u32, crate::session::LaunchError>) -> (resp:
    FleetResponse)
    ensures
        (r matches Ok(id)) ==> (resp matches FleetResponse::Launched { daemon, id: rid } && daemon@
            == name@ && (match r {
            Ok(i) => rid == *i,
            Err(_) => false,
        })),
        (r matches Err(e)) ==> (resp matches FleetResponse::Error { daemon, message } && daemon@
            == name@ && (match r {
            Ok(_) => false,
            Err(e) => message@ == e.spec_message(),
        })),
{
    match r {
        Ok(id) => FleetResponse::Launched { daemon: name.to_owned(), id: *id },
        Err(e) => FleetResponse::Error { daemon: name.to_owned(), message: e.message() },
    }
}

/// The reply a fleet send-input yields once the queue has spoken.
pub fn fleet_input_response(name: &str, id: u32, bytes: usize, accepted: bool) -> (resp:
    FleetResponse)
    ensures
        accepted ==> (resp matches FleetResponse::InputSent { daemon, id: rid, bytes: rb }
            && daemon@ == name@ && rid == id && rb == bytes),
        !accepted ==> (resp matches FleetResponse::Error { daemon, message } && daemon@ == name@
            && message@ == "sending input to session"@),
{
    if accepted {
        FleetResponse::InputSent { daemon: name.to_owned(), id, bytes }
    } else {
        FleetResponse::Error {
            daemon: name.to_owned(),
            message: "sending input to session".to_owned(),
        }
    }
}

/// The reply a fleet status query yields once the log has been read.
pub fn fleet_status_response(
    name: &str,
    r: Result<(SessionInfo, u64), SessionError>,
) -> (resp: FleetResponse)
    ensures
        (r matches Ok(p)) ==> (resp matches FleetResponse::SessionStatus {
            daemon,
            info,
            output_size,
        } && daemon@ == name@ && (match r {
            Ok(p) => info == p.0 && output_size == p.1,
            Err(_) => false,
        })),
        (r matches Err(e)) ==> (resp matches FleetResponse::Error { daemon, message } && daemon@
            == name@ && (match r {
            Ok(_) => false,
            Err(e) => message@ == e.spec_message(),
        })),
{
    match r {
        Ok((info, output_size)) => FleetResponse::SessionStatus {
            daemon: name.to_owned(),
            info,
            output_size,
        },
        Err(e) => FleetResponse::Error { daemon: name.to_owned(), message: e.message() },
    }
}

/// Scatter-gather accumulation, client side: each node-info reply joins
/// the list; any other reply on the discovery inbox is ignored.
pub fn accumulate_discovery(acc: &mut Vec<DaemonInfo>, resp: FleetResponse)
    ensures
        match resp {
            FleetResponse::DaemonInfo(d) => final(acc)@ == old(acc)@.push(d),
            _ => final(acc)@ == old(acc)@,
        },
{
    match resp {
        FleetResponse::DaemonInfo(d) => acc.push(d),
        _ => {},
    }
}

/// Find the first discovered node with this name.
pub fn find_daemon(daemons: &Vec<DaemonInfo>, name: &str) -> (r: Option<usize>)
    ensures
        match r {
            Some(i) => i < daemons@.len() && daemons@[i as int].name@ == name@,
            None => forall|k: int| 0 <= k < daemons@.len() ==> (#[trigger] daemons@[k].name@)
                != name@,
        },
{
    let mut i: usize = 0;
    while i < daemons.len()
        invariant
            i <= daemons@.len(),
            forall|k: int| 0 <= k < i ==> (#[trigger] daemons@[k].name@) != name@,
        decreases daemons@.len() - i,
    {
        if str_eq(daemons[i].name.as_str(), name) {
            return Some(i);
        }
        i = i + 1;
    }
    None
}

} // verus!
