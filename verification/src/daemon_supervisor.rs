//! Start-up policy for the local daemon: attach, restart, reclaim or start.

use vstd::prelude::*;
use crate::text::{json_string_field, json_string_field_of, str_eq, chars_of, string_of, cat, owned, trim, trim_vec, ws_pred, class_pred, CharClass, dec, dec_chars, starts_with_seq, starts_with_vec, occurs_at, occurs_at_exec, slice_vec};

verus! {

/// What a launcher should do given the observed daemon state.
#[derive(Debug, Clone, Copy, PartialEq, Eq)]
pub enum StartupDecision {
    /// A daemon on the wanted version is already serving: attach to it.
    Healthy,
    /// A daemon on a different version is serving: retire it, then start fresh.
    RestartStale,
    /// Nothing answers and the port is free: start a daemon.
    StartFresh,
    /// Nothing answers but the port is occupied (hung): reclaim, then start.
    ReclaimHung,
}

pub open spec fn spec_decide(running: Option<Seq<char>>, port_in_use: bool, want: Seq<char>) -> StartupDecision {
    match running {
        Some(v) => if v == want {
            StartupDecision::Healthy
        } else {
            StartupDecision::RestartStale
        },
        None => if port_in_use {
            StartupDecision::ReclaimHung
        } else {
            StartupDecision::StartFresh
        },
    }
}

/// Decide from the version a daemon reported (if any) and whether the port is occupied.
pub fn decide(running_version: Option<&str>, port_in_use: bool, want: &str) -> (r: StartupDecision)
    ensures
        r == spec_decide(
            match running_version {
                Some(v) => Some(v@),
                None => None,
            },
            port_in_use,
            want@,
        ),
{
    match running_version {
        Some(version) => if str_eq(version, want) {
            StartupDecision::Healthy
        } else {
            StartupDecision::RestartStale
        },
        None => if port_in_use {
            StartupDecision::ReclaimHung
        } else {
            StartupDecision::StartFresh
        },
    }
}

// ---- talking to the daemon ------------------------------------------------------------

/// `GET /v1/health` on the local port, closing the connection after the reply.
pub open spec fn spec_health_request(port: u16) -> Seq<char> {
    "GET /v1/health HTTP/1.1\r\nHost: 127.0.0.1:"@ + dec(port as nat) + "\r\nConnection: close\r\n\r\n"@
}

pub fn health_request(port: u16) -> (r: String)
    ensures
        r@ == spec_health_request(port),
{
    let mut t = cat(&chars_of("GET /v1/health HTTP/1.1\r\nHost: 127.0.0.1:"), &dec_chars(port as u64));
    t = cat(&t, &chars_of("\r\nConnection: close\r\n\r\n"));
    string_of(&t)
}

/// The first position where `p` occurs in `t`.
pub open spec fn first_occurrence(t: Seq<char>, p: Seq<char>, i: int) -> bool {
    occurs_at(t, p, i) && forall|j: int| 0 <= j < i ==> !occurs_at(t, p, j)
}

/// The body of a `200 OK` reply, trimmed: the text after the first blank line.
pub open spec fn spec_health_body(response: Seq<char>) -> Option<Seq<char>> {
    if !starts_with_seq(response, "HTTP/1.1 200"@) {
        None
    } else if exists|i: int| occurs_at(response, "\r\n\r\n"@, i) {
        let i = choose|i: int| first_occurrence(response, "\r\n\r\n"@, i);
        Some(trim(response.subrange(i + 4, response.len() as int)))
    } else {
        None
    }
}

/// The health body of a raw HTTP reply, if the daemon answered `200 OK`.
pub fn health_body(response: &str) -> (r: Option<String>)
    ensures
        match r {
            None => spec_health_body(response@) is None,
            Some(b) => spec_health_body(response@) == Some(b@),
        },
{
    let v = chars_of(response);
    if !starts_with_vec(&v, &chars_of("HTTP/1.1 200")) {
        return None;
    }
    let sep = chars_of("\r\n\r\n");
    proof {
        reveal_strlit("\r\n\r\n");
    }
    let mut i: usize = 0;
    while i < v.len()
        invariant
            i <= v.len(),
            v@ == response@,
            sep@ == "\r\n\r\n"@,
            sep@.len() == 4,
            starts_with_seq(response@, "HTTP/1.1 200"@),
            forall|j: int| 0 <= j < i ==> !occurs_at(v@, sep@, j),
        decreases v.len() - i,
    {
        if occurs_at_exec(&v, &sep, i) {
            proof {
                let r = response@;
                let p = "\r\n\r\n"@;
                assert(occurs_at(r, p, i as int));
                assert(first_occurrence(r, p, i as int));
                let k = choose|k: int| first_occurrence(r, p, k);
                if k < i {
                    assert(!occurs_at(r, p, k));
                } else if k > i {
                    assert(!occurs_at(r, p, i as int));
                }
                assert(k == i);
            }
            let body = trim_vec(&slice_vec(&v, i + 4, v.len()), &CharClass::Whitespace);
            proof {
                assert(class_pred(CharClass::Whitespace) == ws_pred());
            }
            return Some(string_of(&body));
        }
        i = i + 1;
    }
    proof {
        reveal_strlit("\r\n\r\n");
        assert forall|j: int| !occurs_at(v@, sep@, j) by {
            if j >= v.len() {
                assert(sep@.len() == 4);
            }
        }
    }
    None
}

/// The version a daemon reports in its health reply, if it answered `200 OK`.
pub fn reported_version(response: &str) -> (r: Option<String>)
    ensures
        match spec_health_body(response@) {
            None => r is None,
            Some(b) => match r {
                Some(v) => json_string_field_of(b, "version"@) == Some(v@),
                None => json_string_field_of(b, "version"@) is None,
            },
        },
{
    match health_body(response) {
        Some(body) => json_string_field(body.as_str(), "version"),
        None => None,
    }
}

/// The token-authenticated shutdown request, when the stored token is not blank.
pub open spec fn spec_shutdown_request(port: u16, token_file: Seq<char>) -> Option<Seq<char>> {
    let token = trim(token_file);
    if token.len() == 0 {
        None
    } else {
        Some(
            "POST /v1/daemon/shutdown HTTP/1.1\r\nHost: 127.0.0.1:"@ + dec(port as nat) + "\r\nX-Vex-Bridge-Token: "@
                + token + "\r\nContent-Length: 0\r\nConnection: close\r\n\r\n"@,
        )
    }
}

pub fn shutdown_request(port: u16, token_file: &str) -> (r: Option<String>)
    ensures
        match r {
            None => spec_shutdown_request(port, token_file@) is None,
            Some(t) => spec_shutdown_request(port, token_file@) == Some(t@),
        },
{
    let token = trim_vec(&chars_of(token_file), &CharClass::Whitespace);
    proof {
        assert(class_pred(CharClass::Whitespace) == ws_pred());
    }
    if token.len() == 0 {
        return None;
    }
    let mut t = cat(&chars_of("POST /v1/daemon/shutdown HTTP/1.1\r\nHost: 127.0.0.1:"), &dec_chars(port as u64));
    t = cat(&t, &chars_of("\r\nX-Vex-Bridge-Token: "));
    t = cat(&t, &token);
    t = cat(&t, &chars_of("\r\nContent-Length: 0\r\nConnection: close\r\n\r\n"));
    Some(string_of(&t))
}

// ---- supervision -------------------------------------------------------------------------

/// Whether a supervision pass attaches to (or starts) a daemon, or repairs one.
#[derive(Debug, Clone, Copy, PartialEq, Eq)]
pub enum SupervisionMode {
    Ensure,
    Repair,
}

#[derive(Debug, Clone, Copy, PartialEq, Eq)]
pub enum SupervisionPhase {
    Probing,
    RequestingShutdown,
    AwaitingPortFree,
    ReadingLock,
    Killing,
    AwaitingPortFreeAfterKill,
    RemovingLock,
    Starting,
    AwaitingVersion,
    ConfirmingVersion,
    Finished,
}

/// What the launcher must do next.
#[derive(Debug, Clone, PartialEq, Eq)]
pub enum SupervisorAction {
    /// Probe `/v1/health` for a version and check whether the port is occupied.
    Probe,
    /// Ask the daemon to shut down (see [`shutdown_request`]).
    RequestShutdown,
    /// Wait up to this many seconds for the port to free, then report whether it is still occupied.
    WaitForPortFree(u64),
    /// Read the PID recorded in the daemon lockfile.
    ReadLockPid,
    /// Force-terminate this process.
    KillPid(u32),
    /// Remove the daemon lockfile.
    RemoveLock,
    /// Launch a daemon from the sibling executable; report whether it spawned.
    StartDaemon,
    /// Poll up to this many seconds for the wanted version to answer.
    WaitForVersion(u64),
    /// Probe the version once more.
    ProbeVersion,
    /// Supervision is over; for a repair, whether the wanted version answered.
    Finish(bool),
}

#[derive(Debug, Clone, PartialEq, Eq)]
pub enum SupervisorEvent {
    Done,
    Probed(Option<String>, bool),
    PortInUse(bool),
    LockPid(Option<u32>),
    Started(bool),
    Version(Option<String>),
}

/// A supervision pass for the daemon on the local port.
#[derive(Debug, Clone, PartialEq, Eq)]
pub struct Supervisor {
    pub mode: SupervisionMode,
    pub phase: SupervisionPhase,
    /// The version the launcher was built from.
    pub want: String,
}

pub open spec fn supervisor_accepts(p: SupervisionPhase, e: SupervisorEvent) -> bool {
    match p {
        SupervisionPhase::Probing => e is Probed,
        SupervisionPhase::RequestingShutdown | SupervisionPhase::Killing | SupervisionPhase::RemovingLock
        | SupervisionPhase::AwaitingVersion => e is Done,
        SupervisionPhase::AwaitingPortFree | SupervisionPhase::AwaitingPortFreeAfterKill => e is PortInUse,
        SupervisionPhase::ReadingLock => e is LockPid,
        SupervisionPhase::Starting => e is Started,
        SupervisionPhase::ConfirmingVersion => e is Version,
        SupervisionPhase::Finished => false,
    }
}

/// After the old daemon is retired: a repair clears the lockfile, an ensure starts at once.
pub open spec fn retired(s: Supervisor, n: Supervisor, a: SupervisorAction) -> bool {
    if s.mode == SupervisionMode::Repair {
        n.phase == SupervisionPhase::RemovingLock && a == SupervisorAction::RemoveLock
    } else {
        n.phase == SupervisionPhase::Starting && a == SupervisorAction::StartDaemon
    }
}

pub open spec fn opt_view(o: Option<String>) -> Option<Seq<char>> {
    match o {
        Some(s) => Some(s@),
        None => None,
    }
}

/// One supervision step: probe and decide; retire a stale or hung daemon by a
/// graceful shutdown, a 5 s wait and, if the port stays occupied, a kill of
/// the lockfile PID and a 3 s wait; start a daemon and wait 8 s for the
/// wanted version; a repair finally reports whether that version answers.
pub open spec fn supervisor_next(s: Supervisor, e: SupervisorEvent, n: Supervisor, a: SupervisorAction) -> bool {
    &&& n.mode == s.mode
    &&& n.want == s.want
    &&& match (s.phase, e) {
        (SupervisionPhase::Probing, SupervisorEvent::Probed(version, in_use)) => match spec_decide(
            opt_view(version),
            in_use,
            s.want@,
        ) {
            StartupDecision::Healthy => n.phase == SupervisionPhase::Finished && a == SupervisorAction::Finish(true),
            StartupDecision::StartFresh => n.phase == SupervisionPhase::Starting && a == SupervisorAction::StartDaemon,
            _ => n.phase == SupervisionPhase::RequestingShutdown && a == SupervisorAction::RequestShutdown,
        },
        (SupervisionPhase::RequestingShutdown, _) => n.phase == SupervisionPhase::AwaitingPortFree && a
            == SupervisorAction::WaitForPortFree(5),
        (SupervisionPhase::AwaitingPortFree, SupervisorEvent::PortInUse(in_use)) => if in_use {
            n.phase == SupervisionPhase::ReadingLock && a == SupervisorAction::ReadLockPid
        } else {
            retired(s, n, a)
        },
        (SupervisionPhase::ReadingLock, SupervisorEvent::LockPid(pid)) => match pid {
            Some(p) => n.phase == SupervisionPhase::Killing && a == SupervisorAction::KillPid(p),
            None => retired(s, n, a),
        },
        (SupervisionPhase::Killing, _) => n.phase == SupervisionPhase::AwaitingPortFreeAfterKill && a
            == SupervisorAction::WaitForPortFree(3),
        (SupervisionPhase::AwaitingPortFreeAfterKill, _) => retired(s, n, a),
        (SupervisionPhase::RemovingLock, _) => n.phase == SupervisionPhase::Starting && a == SupervisorAction::StartDaemon,
        (SupervisionPhase::Starting, SupervisorEvent::Started(ok)) => if ok {
            n.phase == SupervisionPhase::AwaitingVersion && a == SupervisorAction::WaitForVersion(8)
        } else {
            n.phase == SupervisionPhase::Finished && a == SupervisorAction::Finish(false)
        },
        (SupervisionPhase::AwaitingVersion, _) => if s.mode == SupervisionMode::Repair {
            n.phase == SupervisionPhase::ConfirmingVersion && a == SupervisorAction::ProbeVersion
        } else {
            n.phase == SupervisionPhase::Finished && a == SupervisorAction::Finish(true)
        },
        (SupervisionPhase::ConfirmingVersion, SupervisorEvent::Version(v)) => n.phase == SupervisionPhase::Finished && a
            == SupervisorAction::Finish(opt_view(v) == Some(s.want@)),
        _ => false,
    }
}

impl Supervisor {
    /// Make sure a single daemon of version `want` serves the port before a UI
    /// attaches: it begins with a probe.
    pub fn ensure_daemon(want: String) -> (r: (Supervisor, SupervisorAction))
        ensures
            r.0.mode == SupervisionMode::Ensure,
            r.0.phase == SupervisionPhase::Probing,
            r.0.want == want,
            r.1 == SupervisorAction::Probe,
    {
        (Supervisor { mode: SupervisionMode::Ensure, phase: SupervisionPhase::Probing, want }, SupervisorAction::Probe)
    }

    /// Force a clean restart: retire whatever serves the port, clear the
    /// lockfile and start a daemon of version `want`.
    pub fn force_repair(want: String) -> (r: (Supervisor, SupervisorAction))
        ensures
            r.0.mode == SupervisionMode::Repair,
            r.0.phase == SupervisionPhase::RequestingShutdown,
            r.0.want == want,
            r.1 == SupervisorAction::RequestShutdown,
    {
        (
            Supervisor { mode: SupervisionMode::Repair, phase: SupervisionPhase::RequestingShutdown, want },
            SupervisorAction::RequestShutdown,
        )
    }

    /// Whether the pass waits for an event of this shape.
    pub fn accepts(&self, e: &SupervisorEvent) -> (r: bool)
        ensures
            r == supervisor_accepts(self.phase, *e),
    {
        match self.phase {
            SupervisionPhase::Probing => matches!(e, SupervisorEvent::Probed(_, _)),
            SupervisionPhase::RequestingShutdown | SupervisionPhase::Killing | SupervisionPhase::RemovingLock
            | SupervisionPhase::AwaitingVersion => matches!(e, SupervisorEvent::Done),
            SupervisionPhase::AwaitingPortFree | SupervisionPhase::AwaitingPortFreeAfterKill => matches!(e, SupervisorEvent::PortInUse(_)),
            SupervisionPhase::ReadingLock => matches!(e, SupervisorEvent::LockPid(_)),
            SupervisionPhase::Starting => matches!(e, SupervisorEvent::Started(_)),
            SupervisionPhase::ConfirmingVersion => matches!(e, SupervisorEvent::Version(_)),
            SupervisionPhase::Finished => false,
        }
    }

    fn after_retire(self) -> (r: (Supervisor, SupervisorAction))
        ensures
            r.0.mode == self.mode,
            r.0.want == self.want,
            retired(self, r.0, r.1),
    {
        let mut n = self;
        match n.mode {
            SupervisionMode::Repair => {
                n.phase = SupervisionPhase::RemovingLock;
                (n, SupervisorAction::RemoveLock)
            },
            SupervisionMode::Ensure => {
                n.phase = SupervisionPhase::Starting;
                (n, SupervisorAction::StartDaemon)
            },
        }
    }

    /// Advance the pass by the outcome of its last action.
    pub fn step(self, e: SupervisorEvent) -> (r: (Supervisor, SupervisorAction))
        requires
            supervisor_accepts(self.phase, e),
        ensures
            supervisor_next(self, e, r.0, r.1),
    {
        let mut n = self;
        match e {
            SupervisorEvent::Probed(version, in_use) => {
                let version_ref: Option<&str> = match &version {
                    Some(v) => Some(v.as_str()),
                    None => None,
                };
                match decide(version_ref, in_use, n.want.as_str()) {
                    StartupDecision::Healthy => {
                        n.phase = SupervisionPhase::Finished;
                        (n, SupervisorAction::Finish(true))
                    },
                    StartupDecision::StartFresh => {
                        n.phase = SupervisionPhase::Starting;
                        (n, SupervisorAction::StartDaemon)
                    },
                    _ => {
                        n.phase = SupervisionPhase::RequestingShutdown;
                        (n, SupervisorAction::RequestShutdown)
                    },
                }
            },
            SupervisorEvent::PortInUse(in_use) => {
                if matches!(n.phase, SupervisionPhase::AwaitingPortFree) && in_use {
                    n.phase = SupervisionPhase::ReadingLock;
                    (n, SupervisorAction::ReadLockPid)
                } else {
                    n.after_retire()
                }
            },
            SupervisorEvent::LockPid(pid) => match pid {
                Some(p) => {
                    n.phase = SupervisionPhase::Killing;
                    (n, SupervisorAction::KillPid(p))
                },
                None => n.after_retire(),
            },
            SupervisorEvent::Started(ok) => {
                if ok {
                    n.phase = SupervisionPhase::AwaitingVersion;
                    (n, SupervisorAction::WaitForVersion(8))
                } else {
                    n.phase = SupervisionPhase::Finished;
                    (n, SupervisorAction::Finish(false))
                }
            },
            SupervisorEvent::Version(v) => {
                let ok = match &v {
                    Some(s) => str_eq(s.as_str(), n.want.as_str()),
                    None => false,
                };
                n.phase = SupervisionPhase::Finished;
                (n, SupervisorAction::Finish(ok))
            },
            SupervisorEvent::Done => {
                match n.phase {
                    SupervisionPhase::RequestingShutdown => {
                        n.phase = SupervisionPhase::AwaitingPortFree;
                        (n, SupervisorAction::WaitForPortFree(5))
                    },
                    SupervisionPhase::Killing => {
                        n.phase = SupervisionPhase::AwaitingPortFreeAfterKill;
                        (n, SupervisorAction::WaitForPortFree(3))
                    },
                    SupervisionPhase::RemovingLock => {
                        n.phase = SupervisionPhase::Starting;
                        (n, SupervisorAction::StartDaemon)
                    },
                    _ => {
                        if matches!(n.mode, SupervisionMode::Repair) {
                            n.phase = SupervisionPhase::ConfirmingVersion;
                            (n, SupervisorAction::ProbeVersion)
                        } else {
                            n.phase = SupervisionPhase::Finished;
                            (n, SupervisorAction::Finish(true))
                        }
                    },
                }
            },
        }
    }
}

/// The advisory record of the running daemon kept in `<data_dir>/daemon.lock`.
#[derive(Debug, Clone, PartialEq, Eq)]
pub struct DaemonLock {
    /// Process id of the running daemon.
    pub pid: u32,
    /// Version the daemon was built from.
    pub version: String,
    /// Port the daemon bound; the port, not this file, is the real singleton.
    pub port: u16,
    /// Unix seconds at which the daemon claimed the lock.
    pub started_at: u64,
}

} // verus!
