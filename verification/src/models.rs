//! The records that the agent produces and hands on.

use vstd::prelude::*;

verus! {

/// What kind of thing a violation is about.
#[derive(Clone, Copy, Debug, PartialEq, Eq, Structural)]
pub enum ViolationKind {
    /// A banned process was found running.
    Process,
    /// A banned domain was found visited.
    Domain,
}

/// A point in time, UTC: whole seconds since 1970-01-01T00:00:00 and the
/// nanoseconds past them.
#[derive(Clone, Copy, Debug, PartialEq, Eq, Structural)]
pub struct Timestamp {
    pub secs: i64,
    pub nanos: u32,
}

/// One detected instance of a banned process or domain, with the outcome of
/// enforcing the ban.
#[derive(Clone, Debug, PartialEq, Eq)]
pub struct Violation {
    /// The machine on which it was found.
    pub hostname: String,
    /// What was caught: a process name or a domain, in lowercase.
    pub target: String,
    pub kind: ViolationKind,
    /// Whether the enforcement succeeded (the process was terminated).
    pub action_taken: bool,
    /// The user logged in on the machine.
    pub username: String,
    /// When it was found.
    pub timestamp: Timestamp,
}

/// The mathematical model of a violation.
pub struct ViolationView {
    pub hostname: Seq<char>,
    pub target: Seq<char>,
    pub kind: ViolationKind,
    pub action_taken: bool,
    pub username: Seq<char>,
    pub timestamp: Timestamp,
}

/// What a probe decides of one violation: everything but the machine and
/// user, which are the detector's own.
pub struct Finding {
    pub target: Seq<char>,
    pub kind: ViolationKind,
    pub action_taken: bool,
    pub timestamp: Timestamp,
}

impl View for Violation {
    type V = ViolationView;

    open spec fn view(&self) -> ViolationView {
        ViolationView {
            hostname: self.hostname@,
            target: self.target@,
            kind: self.kind,
            action_taken: self.action_taken,
            username: self.username@,
            timestamp: self.timestamp,
        }
    }
}

impl ViolationView {
    /// The finding that the violation records.
    pub open spec fn finding(self) -> Finding {
        Finding {
            target: self.target,
            kind: self.kind,
            action_taken: self.action_taken,
            timestamp: self.timestamp,
        }
    }
}

/// The models of a list of violations, in order.
pub open spec fn violation_views(list: Seq<Violation>) -> Seq<ViolationView> {
    Seq::new(list.len(), |i: int| list[i]@)
}

/// The findings that a list of violations records, in order.
pub open spec fn findings(list: Seq<ViolationView>) -> Seq<Finding> {
    Seq::new(list.len(), |i: int| list[i].finding())
}

/// Every violation of the list was found on `hostname` with `username`
/// logged in.
pub open spec fn all_found_on(
    list: Seq<ViolationView>,
    hostname: Seq<char>,
    username: Seq<char>,
) -> bool {
    forall|i: int|
        0 <= i < list.len() ==> (#[trigger] list[i]).hostname == hostname && list[i].username
            == username
}

/// The finding, at the time `at`, of a banned process named `target`,
/// terminated or not.
pub open spec fn process_finding(target: Seq<char>, terminated: bool, at: Timestamp) -> Finding {
    Finding { target, kind: ViolationKind::Process, action_taken: terminated, timestamp: at }
}

/// The finding, at the time `at`, of a banned domain. Nothing is enforced at
/// the time.
pub open spec fn domain_finding(target: Seq<char>, at: Timestamp) -> Finding {
    Finding { target, kind: ViolationKind::Domain, action_taken: false, timestamp: at }
}

/// The sign of life that an agent stores under its name.
#[derive(Clone, Debug)]
pub struct Heartbeat {
    pub hostname: String,
    pub ip: String,
    pub port: u16,
    pub version: String,
    pub timestamp: Timestamp,
}

/// The answer to a liveness query.
#[derive(Debug)]
pub struct HealthResponse {
    pub status: &'static str,
    pub version: &'static str,
    pub hostname: String,
    pub uptime_secs: u64,
}

impl HealthResponse {
    /// The answer of a live agent: status `ok`.
    pub fn ok(version: &'static str, hostname: String, uptime_secs: u64) -> (response: Self)
        ensures
            response.status@ == "ok"@,
            response.version@ == version@,
            response.hostname@ == hostname@,
            response.uptime_secs == uptime_secs,
    {
        HealthResponse { status: "ok", version, hostname, uptime_secs }
    }
}

/// The answer to a query for recent violations.
#[derive(Debug)]
pub struct ViolationsResponse {
    pub total: usize,
    pub violations: Vec<Violation>,
}

impl ViolationsResponse {
    /// The answer that lists `violations` and counts them.
    pub fn new(violations: Vec<Violation>) -> (response: Self)
        ensures
            response.total == violations@.len(),
            response.violations == violations,
    {
        ViolationsResponse { total: violations.len(), violations }
    }
}

} // verus!
