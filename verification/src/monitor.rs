//! Violation detector: the ban lists and the three probes of a scan cycle.
//!
//! A scan cycle alternates work on the system (listing processes, terminating
//! one, reading the resolver cache, flushing it, reading window titles) with
//! decisions. The decisions are made here: `Monitor::full_scan` takes the
//! outcome of one piece of work and answers with the next piece to do. The
//! outcomes that lead to violations carry the time at which they were read
//! off the system; that time is the time of the violations.

use crate::config::MonitorConfig;
use crate::models::{
    all_found_on, domain_finding, findings, process_finding, violation_views, Finding, Timestamp,
    Violation, ViolationKind, ViolationView,
};
use crate::text::{
    before_first, contains, ends_with, first_label, fold_names, folded, holds_text,
    lemma_folded_distinct, lowercase, occurs_in, strip_suffix, texts, to_lowercase,
};
use vstd::prelude::*;

verus! {

/// A process as the system lists it.
#[derive(Clone, Debug, PartialEq, Eq)]
pub struct ProcessInfo {
    pub pid: u32,
    pub name: String,
}

/// The mathematical model of a listed process.
pub struct ProcessView {
    pub pid: u32,
    pub name: Seq<char>,
}

impl View for ProcessInfo {
    type V = ProcessView;

    open spec fn view(&self) -> ProcessView {
        ProcessView { pid: self.pid, name: self.name@ }
    }
}

/// The models of a list of processes, in order.
pub open spec fn process_views(list: Seq<ProcessInfo>) -> Seq<ProcessView> {
    Seq::new(list.len(), |i: int| list[i]@)
}

/// The detector's state: the ban lists, folded for matching, and the identity
/// under which violations are recorded.
pub struct Monitor {
    banned_procs: Vec<String>,
    banned_domains: Vec<String>,
    hostname: String,
    username: String,
}

/// The mathematical model of the detector's state.
pub struct MonitorView {
    pub banned_processes: Seq<Seq<char>>,
    pub banned_domains: Seq<Seq<char>>,
    pub hostname: Seq<char>,
    pub username: Seq<char>,
}

impl MonitorView {
    /// The ban lists are sets: no name stands twice in either.
    pub open spec fn wf(self) -> bool {
        self.banned_processes.no_duplicates() && self.banned_domains.no_duplicates()
    }
}

impl View for Monitor {
    type V = MonitorView;

    closed spec fn view(&self) -> MonitorView {
        MonitorView {
            banned_processes: texts(self.banned_procs@),
            banned_domains: texts(self.banned_domains@),
            hostname: self.hostname@,
            username: self.username@,
        }
    }
}

/// A process name without the suffix `.exe` of executables, if it has it.
pub open spec fn exe_stem(name: Seq<char>) -> Seq<char> {
    if ends_with(name, ".exe"@) {
        name.subrange(0, name.len() - ".exe"@.len())
    } else {
        name
    }
}

/// Whether a process named `raw` is banned: its lowercase name, with or
/// without the suffix of executables, is on the list.
pub open spec fn is_banned_process(banned: Seq<Seq<char>>, raw: Seq<char>) -> bool {
    banned.contains(exe_stem(lowercase(raw))) || banned.contains(lowercase(raw))
}

/// The banned ones among the listed processes, in the order of the listing,
/// each under its lowercase name.
pub open spec fn banned_among(
    banned: Seq<Seq<char>>,
    observed: Seq<ProcessView>,
) -> Seq<ProcessView>
    decreases observed.len(),
{
    if observed.len() == 0 {
        Seq::empty()
    } else {
        let earlier = banned_among(banned, observed.drop_last());
        let process = observed.last();
        if is_banned_process(banned, process.name) {
            earlier.push(ProcessView { pid: process.pid, name: lowercase(process.name) })
        } else {
            earlier
        }
    }
}

/// Where a scan cycle stands: the piece of work whose outcome it awaits.
#[derive(Clone, Copy, Debug, PartialEq, Eq, Structural)]
pub enum ScanPhase {
    /// The running processes are being listed.
    Processes,
    /// A banned process is being terminated.
    Terminating,
    /// The resolver cache is being read.
    ResolverCache,
    /// The resolver cache is being flushed.
    Flushing,
    /// The titles of the visible windows are being read.
    WindowTitles,
    /// The cycle is over.
    Done,
}

/// A piece of work on the system, asked of whoever drives the cycle.
#[derive(Clone, Copy, Debug, PartialEq, Eq, Structural)]
pub enum ScanAction {
    /// List the running processes.
    ListProcesses,
    /// Try to terminate the process `pid`.
    Terminate { pid: u32 },
    /// Read the resolver cache as text.
    ReadResolverCache,
    /// Flush the resolver cache.
    FlushResolverCache,
    /// Read the titles of the visible top-level windows as one text.
    ReadWindowTitles,
    /// Nothing more: the cycle is over and its violations can be taken.
    Finish,
}

/// The outcome of a piece of work on the system.
#[derive(Clone, Debug)]
pub enum ScanEvent {
    /// The running processes.
    Processes { observed: Vec<ProcessInfo> },
    /// Whether the process was terminated, and when that was tried.
    Terminated { success: bool, at: Timestamp },
    /// The resolver cache as text, or nothing where the platform has no such
    /// facility.
    ResolverCache { text: Option<String>, at: Timestamp },
    /// The flush was tried.
    Flushed,
    /// The window titles as one text, or nothing where the platform has no
    /// such facility.
    WindowTitles { text: Option<String>, at: Timestamp },
}

/// The mathematical model of an outcome.
pub enum ScanEventView {
    Processes { observed: Seq<ProcessView> },
    Terminated { success: bool, at: Timestamp },
    ResolverCache { text: Option<Seq<char>>, at: Timestamp },
    Flushed,
    WindowTitles { text: Option<Seq<char>>, at: Timestamp },
}

/// The model of a text that may be missing.
pub open spec fn text_view(text: Option<String>) -> Option<Seq<char>> {
    match text {
        Some(t) => Some(t@),
        None => None,
    }
}

impl View for ScanEvent {
    type V = ScanEventView;

    open spec fn view(&self) -> ScanEventView {
        match *self {
            ScanEvent::Processes { observed } => ScanEventView::Processes {
                observed: process_views(observed@),
            },
            ScanEvent::Terminated { success, at } => ScanEventView::Terminated { success, at },
            ScanEvent::ResolverCache { text, at } => ScanEventView::ResolverCache {
                text: text_view(text),
                at,
            },
            ScanEvent::Flushed => ScanEventView::Flushed,
            ScanEvent::WindowTitles { text, at } => ScanEventView::WindowTitles {
                text: text_view(text),
                at,
            },
        }
    }
}

/// One scan cycle in progress: its phase, the banned processes still to be
/// terminated, and the violations recorded so far.
pub struct ScanCycle {
    phase: ScanPhase,
    pending: Vec<ProcessInfo>,
    cursor: usize,
    violations: Vec<Violation>,
}

/// The mathematical model of a scan cycle in progress.
pub struct CycleView {
    pub phase: ScanPhase,
    /// The banned processes still to be terminated; the first is the one
    /// whose termination is awaited.
    pub pending: Seq<ProcessView>,
    pub violations: Seq<ViolationView>,
}

impl View for ScanCycle {
    type V = CycleView;

    closed spec fn view(&self) -> CycleView {
        CycleView {
            phase: self.phase,
            pending: process_views(self.pending@).skip(self.cursor as int),
            violations: violation_views(self.violations@),
        }
    }
}

/// The domains of which the list holds a violation.
pub open spec fn reported_domains(violations: Seq<ViolationView>) -> Set<Seq<char>> {
    Set::new(
        |domain: Seq<char>|
            exists|i: int|
                0 <= i < violations.len() && (#[trigger] violations[i]).kind
                    == ViolationKind::Domain && violations[i].target == domain,
    )
}

/// No two violations of the list are about the same domain.
pub open spec fn distinct_domains(violations: Seq<ViolationView>) -> bool {
    forall|i: int, j: int|
        0 <= i < j < violations.len() && (#[trigger] violations[i]).kind == ViolationKind::Domain
            && (#[trigger] violations[j]).kind == ViolationKind::Domain ==> violations[i].target
            != violations[j].target
}

/// The names of the processes of which the list holds a violation.
pub open spec fn reported_processes(violations: Seq<ViolationView>) -> Set<Seq<char>> {
    Set::new(
        |name: Seq<char>|
            exists|i: int|
                0 <= i < violations.len() && (#[trigger] violations[i]).kind
                    == ViolationKind::Process && violations[i].target == name,
    )
}

/// No two violations of the list are about processes of the same name.
pub open spec fn distinct_processes(violations: Seq<ViolationView>) -> bool {
    forall|i: int, j: int|
        0 <= i < j < violations.len() && (#[trigger] violations[i]).kind
            == ViolationKind::Process && (#[trigger] violations[j]).kind
            == ViolationKind::Process ==> violations[i].target != violations[j].target
}

/// No two violations of the list are of the same kind and about the same
/// target.
pub open spec fn distinct_targets(violations: Seq<ViolationView>) -> bool {
    distinct_processes(violations) && distinct_domains(violations)
}

/// Whether a lowercase text names a domain: the domain occurs in it, or, where
/// labels count, what stands before the domain's first `.` does.
pub open spec fn names_domain(domain: Seq<char>, text: Seq<char>, by_label: bool) -> bool {
    occurs_in(domain, text) || (by_label && occurs_in(before_first(domain, '.'), text))
}

/// The banned domains that a lowercase text names and that are not among
/// `seen`, in the order of the ban list.
pub open spec fn fresh_domains(
    banned: Seq<Seq<char>>,
    text: Seq<char>,
    by_label: bool,
    seen: Set<Seq<char>>,
) -> Seq<Seq<char>>
    decreases banned.len(),
{
    if banned.len() == 0 {
        Seq::empty()
    } else {
        let earlier = fresh_domains(banned.drop_last(), text, by_label, seen);
        let domain = banned.last();
        if names_domain(domain, text, by_label) && !seen.contains(domain) {
            earlier.push(domain)
        } else {
            earlier
        }
    }
}

/// The findings, at the time `at`, of a list of domains, in order.
pub open spec fn domain_findings(domains: Seq<Seq<char>>, at: Timestamp) -> Seq<Finding> {
    Seq::new(domains.len(), |i: int| domain_finding(domains[i], at))
}

/// The banned domains that a probe finds in a text that may be missing: none
/// in a missing text; in any other those that its lowercase form names and
/// that the cycle has not reported yet.
pub open spec fn probe_hits(
    monitor: MonitorView,
    cycle: CycleView,
    text: Option<Seq<char>>,
    by_label: bool,
) -> Seq<Seq<char>> {
    match text {
        Some(t) => fresh_domains(
            monitor.banned_domains,
            lowercase(t),
            by_label,
            reported_domains(cycle.violations),
        ),
        None => Seq::empty(),
    }
}

/// The piece of work whose outcome a cycle awaits.
pub open spec fn action_for(cycle: CycleView) -> ScanAction {
    match cycle.phase {
        ScanPhase::Processes => ScanAction::ListProcesses,
        ScanPhase::Terminating => if cycle.pending.len() > 0 {
            ScanAction::Terminate { pid: cycle.pending[0].pid }
        } else {
            ScanAction::ReadResolverCache
        },
        ScanPhase::ResolverCache => ScanAction::ReadResolverCache,
        ScanPhase::Flushing => ScanAction::FlushResolverCache,
        ScanPhase::WindowTitles => ScanAction::ReadWindowTitles,
        ScanPhase::Done => ScanAction::Finish,
    }
}

/// What an outcome does to a cycle: the new phase, the processes still to be
/// terminated, and the findings to record.
pub struct Progress {
    pub phase: ScanPhase,
    pub pending: Seq<ProcessView>,
    pub found: Seq<Finding>,
}

/// A cycle that an outcome leaves as it is.
pub open spec fn unmoved(cycle: CycleView) -> Progress {
    Progress { phase: cycle.phase, pending: cycle.pending, found: Seq::empty() }
}

/// The process probe: the banned ones among the listed processes are to be
/// terminated one by one; with none the cycle goes on to the resolver cache.
pub open spec fn after_processes(
    monitor: MonitorView,
    cycle: CycleView,
    observed: Seq<ProcessView>,
) -> Progress {
    if cycle.phase == ScanPhase::Processes {
        let hits = banned_among(monitor.banned_processes, observed);
        Progress {
            phase: if hits.len() > 0 {
                ScanPhase::Terminating
            } else {
                ScanPhase::ResolverCache
            },
            pending: hits,
            found: Seq::empty(),
        }
    } else {
        unmoved(cycle)
    }
}

/// After a termination was tried: one violation for the process, which says
/// whether it succeeded, unless the cycle holds one for a process of that name
/// already; then the next banned process, or the resolver cache.
pub open spec fn after_termination(cycle: CycleView, success: bool, at: Timestamp) -> Progress {
    if cycle.phase == ScanPhase::Terminating && cycle.pending.len() > 0 {
        let rest = cycle.pending.drop_first();
        let name = cycle.pending[0].name;
        Progress {
            phase: if rest.len() > 0 {
                ScanPhase::Terminating
            } else {
                ScanPhase::ResolverCache
            },
            pending: rest,
            found: if reported_processes(cycle.violations).contains(name) {
                Seq::empty()
            } else {
                seq![process_finding(name, success, at)]
            },
        }
    } else {
        unmoved(cycle)
    }
}

/// The resolver-cache probe: one violation for each banned domain that occurs
/// in the lowercase text; a flush follows if and only if there is one.
pub open spec fn after_resolver_cache(
    monitor: MonitorView,
    cycle: CycleView,
    text: Option<Seq<char>>,
    at: Timestamp,
) -> Progress {
    if cycle.phase == ScanPhase::ResolverCache {
        let hits = probe_hits(monitor, cycle, text, false);
        Progress {
            phase: if hits.len() > 0 {
                ScanPhase::Flushing
            } else {
                ScanPhase::WindowTitles
            },
            pending: cycle.pending,
            found: domain_findings(hits, at),
        }
    } else {
        unmoved(cycle)
    }
}

/// After the flush the cycle goes on to the window titles.
pub open spec fn after_flush(cycle: CycleView) -> Progress {
    if cycle.phase == ScanPhase::Flushing {
        Progress { phase: ScanPhase::WindowTitles, pending: cycle.pending, found: Seq::empty() }
    } else {
        unmoved(cycle)
    }
}

/// The window-title probe: one violation for each banned domain that the
/// lowercase text names, by itself or by its first label, and that the cycle
/// has not reported yet. It ends the cycle.
pub open spec fn after_window_titles(
    monitor: MonitorView,
    cycle: CycleView,
    text: Option<Seq<char>>,
    at: Timestamp,
) -> Progress {
    if cycle.phase == ScanPhase::WindowTitles {
        Progress {
            phase: ScanPhase::Done,
            pending: cycle.pending,
            found: domain_findings(probe_hits(monitor, cycle, text, true), at),
        }
    } else {
        unmoved(cycle)
    }
}

/// What an outcome does to a cycle. An outcome that the cycle's phase does not
/// await changes nothing.
pub open spec fn progress(monitor: MonitorView, cycle: CycleView, event: ScanEventView) -> Progress {
    match event {
        ScanEventView::Processes { observed } => after_processes(monitor, cycle, observed),
        ScanEventView::Terminated { success, at } => after_termination(cycle, success, at),
        ScanEventView::ResolverCache { text, at } => after_resolver_cache(
            monitor,
            cycle,
            text,
            at,
        ),
        ScanEventView::Flushed => after_flush(cycle),
        ScanEventView::WindowTitles { text, at } => after_window_titles(monitor, cycle, text, at),
    }
}

/// `after` is `before` advanced by `change`: it has the new phase and pending
/// processes; it keeps the violations recorded before and adds, in order, one
/// for each finding, found on the monitor's host with its user; no two of its
/// violations are of one kind and about one target; and `action` is the work
/// that it awaits.
pub open spec fn advanced(
    monitor: MonitorView,
    before: CycleView,
    change: Progress,
    after: CycleView,
    action: ScanAction,
) -> bool {
    let added = after.violations.skip(before.violations.len() as int);
    &&& after.phase == change.phase
    &&& after.pending == change.pending
    &&& before.violations.len() <= after.violations.len()
    &&& after.violations.take(before.violations.len() as int) == before.violations
    &&& findings(added) == change.found
    &&& all_found_on(added, monitor.hostname, monitor.username)
    &&& distinct_targets(after.violations)
    &&& action == action_for(after)
}

impl ScanCycle {
    #[verifier::type_invariant]
    spec fn inv(self) -> bool {
        self.cursor <= self.pending@.len() && distinct_targets(violation_views(self.violations@))
    }

    /// The phase of the cycle.
    pub fn phase(&self) -> (phase: ScanPhase)
        ensures
            phase == self@.phase,
    {
        self.phase
    }

    /// Whether the cycle is over.
    pub fn is_done(&self) -> (done: bool)
        ensures
            done == (self@.phase == ScanPhase::Done),
    {
        match self.phase {
            ScanPhase::Done => true,
            _ => false,
        }
    }

    /// The piece of work whose outcome the cycle awaits.
    pub fn awaited(&self) -> (action: ScanAction)
        ensures
            action == action_for(self@),
    {
        proof {
            use_type_invariant(self);
        }
        match self.phase {
            ScanPhase::Processes => ScanAction::ListProcesses,
            ScanPhase::Terminating => if self.cursor < self.pending.len() {
                assert(self@.pending[0] == self.pending@[self.cursor as int]@);
                ScanAction::Terminate { pid: self.pending[self.cursor].pid }
            } else {
                ScanAction::ReadResolverCache
            },
            ScanPhase::ResolverCache => ScanAction::ReadResolverCache,
            ScanPhase::Flushing => ScanAction::FlushResolverCache,
            ScanPhase::WindowTitles => ScanAction::ReadWindowTitles,
            ScanPhase::Done => ScanAction::Finish,
        }
    }

    /// The violations recorded so far. No two are of the same kind and about
    /// the same target.
    pub fn violations(&self) -> (list: &Vec<Violation>)
        ensures
            violation_views(list@) == self@.violations,
            distinct_targets(self@.violations),
    {
        proof {
            use_type_invariant(self);
        }
        &self.violations
    }

    /// Ends the cycle and hands out its violations.
    pub fn into_violations(self) -> (list: Vec<Violation>)
        ensures
            violation_views(list@) == self@.violations,
            distinct_targets(self@.violations),
    {
        proof {
            use_type_invariant(&self);
        }
        self.violations
    }
}

/// Whether one of the violations is about a process named `name`.
fn process_reported(violations: &Vec<Violation>, name: &String) -> (found: bool)
    ensures
        found == reported_processes(violation_views(violations@)).contains(name@),
{
    let ghost views = violation_views(violations@);
    let mut i: usize = 0;
    while i < violations.len()
        invariant
            i <= violations@.len(),
            views == violation_views(violations@),
            forall|j: int|
                0 <= j < i ==> !((#[trigger] views[j]).kind == ViolationKind::Process
                    && views[j].target == name@),
        decreases violations.len() - i,
    {
        let hit = match violations[i].kind {
            ViolationKind::Process => violations[i].target == *name,
            ViolationKind::Domain => false,
        };
        if hit {
            assert(views[i as int].kind == ViolationKind::Process && views[i as int].target
                == name@);
            return true;
        }
        i += 1;
    }
    false
}

/// Whether one of the first `upto` violations is about `domain`.
fn domain_reported(violations: &Vec<Violation>, upto: usize, domain: &String) -> (found: bool)
    requires
        upto <= violations@.len(),
    ensures
        found == reported_domains(violation_views(violations@).take(upto as int)).contains(
            domain@,
        ),
{
    let ghost views = violation_views(violations@).take(upto as int);
    let mut i: usize = 0;
    while i < upto
        invariant
            i <= upto <= violations@.len(),
            views == violation_views(violations@).take(upto as int),
            forall|j: int|
                0 <= j < i ==> !((#[trigger] views[j]).kind == ViolationKind::Domain
                    && views[j].target == domain@),
        decreases upto - i,
    {
        let hit = match violations[i].kind {
            ViolationKind::Domain => violations[i].target == *domain,
            ViolationKind::Process => false,
        };
        if hit {
            assert(views[i as int].kind == ViolationKind::Domain && views[i as int].target
                == domain@);
            return true;
        }
        i += 1;
    }
    false
}

/// Whether a text, given in lowercase, names a domain: the domain occurs in
/// it, or, where labels count, what stands before the domain's first `.` does.
pub fn text_names_domain(domain: &str, lowered: &str, by_label: bool) -> (named: bool)
    ensures
        named == names_domain(domain@, lowered@, by_label),
{
    contains(lowered, domain) || (by_label && contains(lowered, first_label(domain)))
}

/// A fresh domain is a banned one that the text names and that was not seen;
/// and no domain is fresh twice where none is banned twice.
pub proof fn lemma_fresh_domains(
    banned: Seq<Seq<char>>,
    text: Seq<char>,
    by_label: bool,
    seen: Set<Seq<char>>,
)
    ensures
        forall|domain: Seq<char>|
            #![trigger fresh_domains(banned, text, by_label, seen).contains(domain)]
            fresh_domains(banned, text, by_label, seen).contains(domain) <==> banned.contains(
                domain,
            ) && names_domain(domain, text, by_label) && !seen.contains(domain),
        banned.no_duplicates() ==> fresh_domains(banned, text, by_label, seen).no_duplicates(),
    decreases banned.len(),
{
    let fresh = fresh_domains(banned, text, by_label, seen);
    if banned.len() > 0 {
        let earlier = fresh_domains(banned.drop_last(), text, by_label, seen);
        let last = banned.last();
        lemma_fresh_domains(banned.drop_last(), text, by_label, seen);
        assert forall|domain: Seq<char>| #![trigger fresh.contains(domain)]
            fresh.contains(domain) <==> banned.contains(domain) && names_domain(
                domain,
                text,
                by_label,
            ) && !seen.contains(domain) by {
            if fresh.contains(domain) {
                let k = choose|k: int| 0 <= k < fresh.len() && fresh[k] == domain;
                if k < earlier.len() {
                    assert(earlier[k] == domain);
                    assert(earlier.contains(domain));
                    let b = choose|b: int|
                        0 <= b < banned.drop_last().len() && banned.drop_last()[b] == domain;
                    assert(banned[b] == domain);
                } else {
                    assert(domain == last);
                    assert(banned[banned.len() - 1] == domain);
                }
            }
            if banned.contains(domain) && names_domain(domain, text, by_label) && !seen.contains(
                domain,
            ) {
                let b = choose|b: int| 0 <= b < banned.len() && banned[b] == domain;
                if b < banned.len() - 1 {
                    assert(banned.drop_last()[b] == domain);
                    assert(earlier.contains(domain));
                    let k = choose|k: int| 0 <= k < earlier.len() && earlier[k] == domain;
                    assert(fresh[k] == domain);
                } else {
                    assert(fresh[fresh.len() - 1] == domain);
                }
            }
        }
        if banned.no_duplicates() {
            assert(banned.drop_last().no_duplicates());
            if earlier.contains(last) {
                let b = choose|b: int|
                    0 <= b < banned.drop_last().len() && banned.drop_last()[b] == last;
                assert(banned[b] == banned[banned.len() - 1]);
            }
        }
    }
}

impl Monitor {
    #[verifier::type_invariant]
    spec fn inv(self) -> bool {
        texts(self.banned_procs@).no_duplicates() && texts(self.banned_domains@).no_duplicates()
    }

    /// A detector for the configured ban lists. The names are matched without
    /// regard to letter case, so they are kept in lowercase, each once.
    pub fn new(cfg: &MonitorConfig, hostname: String, username: String) -> (monitor: Monitor)
        ensures
            monitor@.banned_processes == folded(texts(cfg.banned_processes.names@)),
            monitor@.banned_domains == folded(texts(cfg.banned_domains.names@)),
            monitor@.hostname == hostname@,
            monitor@.username == username@,
            monitor@.wf(),
    {
        let banned_procs = fold_names(&cfg.banned_processes.names);
        let banned_domains = fold_names(&cfg.banned_domains.names);
        proof {
            lemma_folded_distinct(texts(cfg.banned_processes.names@));
            lemma_folded_distinct(texts(cfg.banned_domains.names@));
        }
        Monitor { banned_procs, banned_domains, hostname, username }
    }

    /// Replaces both ban lists at once. The identity stays.
    pub fn update_bans(&mut self, banned_procs: Vec<String>, banned_domains: Vec<String>)
        ensures
            final(self)@.banned_processes == folded(texts(banned_procs@)),
            final(self)@.banned_domains == folded(texts(banned_domains@)),
            final(self)@.hostname == old(self)@.hostname,
            final(self)@.username == old(self)@.username,
            final(self)@.wf(),
    {
        let procs = fold_names(&banned_procs);
        let domains = fold_names(&banned_domains);
        proof {
            use_type_invariant(&*self);
            lemma_folded_distinct(texts(banned_procs@));
            lemma_folded_distinct(texts(banned_domains@));
        }
        self.banned_procs = procs;
        self.banned_domains = domains;
    }

    /// How many process names are banned.
    pub fn banned_process_count(&self) -> (count: usize)
        ensures
            count == self@.banned_processes.len(),
            self@.wf(),
    {
        proof {
            use_type_invariant(self);
        }
        self.banned_procs.len()
    }

    /// How many domains are banned.
    pub fn banned_domain_count(&self) -> (count: usize)
        ensures
            count == self@.banned_domains.len(),
            self@.wf(),
    {
        proof {
            use_type_invariant(self);
        }
        self.banned_domains.len()
    }

    /// Whether a process of this name is banned. The name is compared in
    /// lowercase, with and without the suffix `.exe`.
    pub fn is_banned_process(&self, name: &str) -> (banned: bool)
        ensures
            banned == is_banned_process(self@.banned_processes, name@),
    {
        let lowered = to_lowercase(name);
        self.is_banned_name(lowered.as_str())
    }

    /// Whether a process name, given in lowercase, is banned: the name, with
    /// or without the suffix `.exe`, is on the list.
    pub fn is_banned_name(&self, lowered: &str) -> (banned: bool)
        ensures
            banned == (self@.banned_processes.contains(exe_stem(lowered@))
                || self@.banned_processes.contains(lowered@)),
    {
        match strip_suffix(lowered, ".exe") {
            Some(stem) => holds_text(&self.banned_procs, stem) || holds_text(
                &self.banned_procs,
                lowered,
            ),
            None => holds_text(&self.banned_procs, lowered),
        }
    }
    /// Starts a scan cycle: nothing is recorded yet, and the first piece of
    /// work is to list the running processes.
    pub fn begin_scan(&self) -> (start: (ScanCycle, ScanAction))
        ensures
            start.0@ == (CycleView {
                phase: ScanPhase::Processes,
                pending: Seq::empty(),
                violations: Seq::empty(),
            }),
            start.1 == ScanAction::ListProcesses,
    {
        let cycle = ScanCycle {
            phase: ScanPhase::Processes,
            pending: Vec::new(),
            cursor: 0,
            violations: Vec::new(),
        };
        assert(cycle@.pending =~= Seq::empty());
        assert(cycle@.violations =~= Seq::empty());
        (cycle, ScanAction::ListProcesses)
    }

    /// Leaves the cycle as it is and repeats what it awaits.
    fn stay(&self, cycle: ScanCycle) -> (next: (ScanCycle, ScanAction))
        ensures
            advanced(self@, cycle@, unmoved(cycle@), next.0@, next.1),
    {
        proof {
            use_type_invariant(&cycle);
        }
        let action = cycle.awaited();
        assert(cycle@.violations.take(cycle@.violations.len() as int) =~= cycle@.violations);
        assert(findings(cycle@.violations.skip(cycle@.violations.len() as int)) =~= Seq::empty());
        (cycle, action)
    }

    /// The process probe. Takes the list of running processes and picks the
    /// banned ones, which are then to be terminated one by one.
    pub fn scan_processes(
        &self,
        cycle: ScanCycle,
        observed: &Vec<ProcessInfo>,
    ) -> (next: (ScanCycle, ScanAction))
        ensures
            advanced(
                self@,
                cycle@,
                after_processes(self@, cycle@, process_views(observed@)),
                next.0@,
                next.1,
            ),
    {
        proof {
            use_type_invariant(&cycle);
        }
        match cycle.phase {
            ScanPhase::Processes => {},
            _ => {
                return self.stay(cycle);
            },
        }
        let ghost before = cycle@;
        let mut pending: Vec<ProcessInfo> = Vec::new();
        let mut i: usize = 0;
        assert(process_views(observed@).take(0) =~= Seq::empty());
        assert(process_views(pending@) =~= Seq::empty());
        while i < observed.len()
            invariant
                i <= observed.len(),
                process_views(pending@) == banned_among(
                    self@.banned_processes,
                    process_views(observed@).take(i as int),
                ),
            decreases observed.len() - i,
        {
            let lowered = to_lowercase(observed[i].name.as_str());
            let ghost earlier = process_views(pending@);
            let ghost upto = process_views(observed@).take(i as int + 1);
            proof {
                assert(upto.drop_last() =~= process_views(observed@).take(i as int));
                assert(upto.last() == observed@[i as int]@);
            }
            if self.is_banned_name(lowered.as_str()) {
                let hit = ProcessInfo { pid: observed[i].pid, name: lowered };
                pending.push(hit);
                assert(process_views(pending@) =~= earlier.push(hit@));
            }
            i += 1;
        }
        assert(process_views(observed@).take(observed.len() as int) =~= process_views(observed@));
        let phase = if pending.len() > 0 {
            ScanPhase::Terminating
        } else {
            ScanPhase::ResolverCache
        };
        let ScanCycle { phase: _, pending: _, cursor: _, violations } = cycle;
        let next = ScanCycle { phase, pending, cursor: 0, violations };
        proof {
            assert(next@.pending =~= process_views(pending@));
            assert(next@.violations.take(before.violations.len() as int) =~= before.violations);
            assert(findings(next@.violations.skip(before.violations.len() as int))
                =~= Seq::empty());
        }
        let action = next.awaited();
        (next, action)
    }

    /// Records the outcome of a termination, tried at the time `at`: one
    /// violation for the process, which says whether it was terminated, unless
    /// the cycle holds one for a process of that name already. A failure is
    /// recorded like a success, and the cycle goes on.
    pub fn record_termination(
        &self,
        cycle: ScanCycle,
        success: bool,
        at: Timestamp,
    ) -> (next: (ScanCycle, ScanAction))
        ensures
            advanced(self@, cycle@, after_termination(cycle@, success, at), next.0@, next.1),
    {
        proof {
            use_type_invariant(&cycle);
        }
        let awaiting = match cycle.phase {
            ScanPhase::Terminating => cycle.cursor < cycle.pending.len(),
            _ => false,
        };
        if !awaiting {
            assert(cycle@.phase == ScanPhase::Terminating ==> cycle@.pending.len() == 0);
            return self.stay(cycle);
        }
        let ghost before = cycle@;
        let ScanCycle { phase: _, pending, cursor, violations } = cycle;
        let mut violations = violations;
        let ghost old_views = violation_views(violations@);
        assert(before.pending[0] == pending@[cursor as int]@);
        if !process_reported(&violations, &pending[cursor].name) {
            let violation = Violation {
                hostname: self.hostname.clone(),
                target: pending[cursor].name.clone(),
                kind: ViolationKind::Process,
                action_taken: success,
                username: self.username.clone(),
                timestamp: at,
            };
            violations.push(violation);
            proof {
                let views = violation_views(violations@);
                assert(views =~= old_views.push(violation@));
                assert(views.take(old_views.len() as int) =~= old_views);
                assert(views.skip(old_views.len() as int) =~= seq![violation@]);
                assert(findings(seq![violation@]) =~= seq![
                    process_finding(before.pending[0].name, success, at),
                ]);
                assert forall|i: int, j: int|
                    0 <= i < j < views.len() && (#[trigger] views[i]).kind
                        == ViolationKind::Process && (#[trigger] views[j]).kind
                        == ViolationKind::Process implies views[i].target != views[j].target by {
                    if j == views.len() - 1 {
                        assert(old_views[i] == views[i]);
                        assert(reported_processes(old_views).contains(views[i].target));
                    } else {
                        assert(old_views[i] == views[i] && old_views[j] == views[j]);
                    }
                }
                assert forall|i: int, j: int|
                    0 <= i < j < views.len() && (#[trigger] views[i]).kind == ViolationKind::Domain
                        && (#[trigger] views[j]).kind == ViolationKind::Domain implies views[i].target
                    != views[j].target by {
                    assert(old_views[i] == views[i] && old_views[j] == views[j]);
                }
            }
        } else {
            proof {
                assert(old_views.take(old_views.len() as int) =~= old_views);
                assert(findings(old_views.skip(old_views.len() as int)) =~= Seq::empty());
            }
        }
        let cursor = cursor + 1;
        let phase = if cursor < pending.len() {
            ScanPhase::Terminating
        } else {
            ScanPhase::ResolverCache
        };
        proof {
            assert(process_views(pending@).skip(cursor as int) =~= before.pending.drop_first());
        }
        let next = ScanCycle { phase, pending, cursor, violations };
        let action = next.awaited();
        (next, action)
    }

    /// Adds one violation for each banned domain that the lowercase text names
    /// and of which the list holds none yet.
    fn report_domains(
        &self,
        lowered: &str,
        by_label: bool,
        at: Timestamp,
        violations: Vec<Violation>,
    ) -> (out: Vec<Violation>)
        requires
            distinct_targets(violation_views(violations@)),
        ensures
            violations@.len() <= out@.len(),
            violation_views(out@).take(violations@.len() as int) == violation_views(violations@),
            findings(violation_views(out@).skip(violations@.len() as int)) == domain_findings(
                fresh_domains(
                    self@.banned_domains,
                    lowered@,
                    by_label,
                    reported_domains(violation_views(violations@)),
                ),
                at,
            ),
            all_found_on(
                violation_views(out@).skip(violations@.len() as int),
                self@.hostname,
                self@.username,
            ),
            distinct_targets(violation_views(out@)),
    {
        proof {
            use_type_invariant(self);
        }
        let ghost banned = self@.banned_domains;
        let ghost old_views = violation_views(violations@);
        let ghost seen = reported_domains(old_views);
        let first = violations.len();
        let mut out = violations;
        let mut k: usize = 0;
        proof {
            assert(banned.take(0) =~= Seq::empty());
            assert(violation_views(out@).take(first as int) =~= old_views);
            assert(findings(violation_views(out@).skip(first as int)) =~= Seq::empty());
            assert(domain_findings(Seq::empty(), at) =~= Seq::empty());
        }
        while k < self.banned_domains.len()
            invariant
                k <= self.banned_domains@.len(),
                banned == texts(self.banned_domains@),
                banned == self@.banned_domains,
                banned.no_duplicates(),
                seen == reported_domains(old_views),
                first == old_views.len(),
                first <= out@.len(),
                violation_views(out@).take(first as int) == old_views,
                findings(violation_views(out@).skip(first as int)) == domain_findings(
                    fresh_domains(banned.take(k as int), lowered@, by_label, seen),
                    at,
                ),
                all_found_on(
                    violation_views(out@).skip(first as int),
                    self@.hostname,
                    self@.username,
                ),
                distinct_domains(violation_views(out@)),
                distinct_processes(violation_views(out@)),
            decreases self.banned_domains.len() - k,
        {
            let domain = &self.banned_domains[k];
            let ghost earlier = fresh_domains(banned.take(k as int), lowered@, by_label, seen);
            let ghost upto = banned.take(k as int + 1);
            let ghost views = violation_views(out@);
            proof {
                assert(upto.drop_last() =~= banned.take(k as int));
                assert(upto.last() == domain@);
            }
            if text_names_domain(domain.as_str(), lowered, by_label) && !domain_reported(
                &out,
                first,
                domain,
            ) {
                let violation = Violation {
                    hostname: self.hostname.clone(),
                    target: domain.clone(),
                    kind: ViolationKind::Domain,
                    action_taken: false,
                    username: self.username.clone(),
                    timestamp: at,
                };
                out.push(violation);
                proof {
                    let grown = violation_views(out@);
                    assert(grown =~= views.push(violation@));
                    assert(grown.take(first as int) =~= old_views);
                    assert(grown.skip(first as int) =~= views.skip(first as int).push(
                        violation@,
                    ));
                    assert(findings(grown.skip(first as int)) =~= domain_findings(
                        earlier.push(domain@),
                        at,
                    )) by {
                        let added = views.skip(first as int);
                        assert(findings(added) == domain_findings(earlier, at));
                        assert(findings(added).len() == added.len());
                        assert(domain_findings(earlier, at).len() == earlier.len());
                        assert forall|i: int| 0 <= i < added.len() + 1 implies findings(
                            added.push(violation@),
                        )[i] == domain_findings(earlier.push(domain@), at)[i] by {
                            if i < added.len() {
                                assert(findings(added)[i] == domain_findings(earlier, at)[i]);
                            }
                        }
                    }
                    assert forall|i: int, j: int|
                        0 <= i < j < grown.len() && (#[trigger] grown[i]).kind
                            == ViolationKind::Process && (#[trigger] grown[j]).kind
                            == ViolationKind::Process implies grown[i].target
                        != grown[j].target by {
                        assert(views[i] == grown[i] && views[j] == grown[j]);
                    }
                    lemma_fresh_domains(banned.take(k as int), lowered@, by_label, seen);
                    assert forall|i: int, j: int|
                        0 <= i < j < grown.len() && (#[trigger] grown[i]).kind
                            == ViolationKind::Domain && (#[trigger] grown[j]).kind
                            == ViolationKind::Domain implies grown[i].target
                        != grown[j].target by {
                        if j == grown.len() - 1 {
                            if i < first {
                                assert(old_views[i] == grown[i]);
                                assert(seen.contains(grown[i].target));
                            } else {
                                let added = views.skip(first as int);
                                assert(findings(added)[i - first] == domain_findings(
                                    earlier,
                                    at,
                                )[i - first]);
                                assert(added[i - first] == grown[i]);
                                assert(grown[i].target == earlier[i - first]);
                                assert(earlier.contains(grown[i].target));
                                if grown[i].target == domain@ {
                                    let b = choose|b: int|
                                        0 <= b < banned.take(k as int).len() && banned.take(
                                            k as int,
                                        )[b] == domain@;
                                    assert(banned[b] == banned[k as int]);
                                }
                            }
                        } else {
                            assert(views[i] == grown[i] && views[j] == grown[j]);
                        }
                    }
                }
            }
            k += 1;
        }
        assert(banned.take(self.banned_domains.len() as int) =~= banned);
        out
    }

    /// Runs a domain probe on a text that may be missing and moves the cycle
    /// to `hit` if it added a violation and to `clear` if not.
    fn probe(
        &self,
        cycle: ScanCycle,
        text: Option<String>,
        at: Timestamp,
        by_label: bool,
        hit: ScanPhase,
        clear: ScanPhase,
    ) -> (next: ScanCycle)
        ensures
            next@.pending == cycle@.pending,
            next@.phase == (if probe_hits(self@, cycle@, text_view(text), by_label).len() > 0 {
                hit
            } else {
                clear
            }),
            cycle@.violations.len() <= next@.violations.len(),
            next@.violations.take(cycle@.violations.len() as int) == cycle@.violations,
            findings(next@.violations.skip(cycle@.violations.len() as int)) == domain_findings(
                probe_hits(self@, cycle@, text_view(text), by_label),
                at,
            ),
            all_found_on(
                next@.violations.skip(cycle@.violations.len() as int),
                self@.hostname,
                self@.username,
            ),
            distinct_targets(next@.violations),
    {
        proof {
            use_type_invariant(&cycle);
        }
        let ghost before = cycle@;
        let ScanCycle { phase: _, pending, cursor, violations } = cycle;
        let first = violations.len();
        let violations = match text {
            Some(t) => {
                let lowered = to_lowercase(t.as_str());
                self.report_domains(lowered.as_str(), by_label, at, violations)
            },
            None => {
                proof {
                    let views = violation_views(violations@);
                    assert(views.take(first as int) =~= views);
                    assert(findings(views.skip(first as int)) =~= domain_findings(
                        Seq::empty(),
                        at,
                    ));
                }
                violations
            },
        };
        proof {
            let added = violation_views(violations@).skip(first as int);
            let hits = probe_hits(self@, before, text_view(text), by_label);
            assert(findings(added).len() == added.len());
            assert(domain_findings(hits, at).len() == hits.len());
        }
        let phase = if violations.len() > first {
            hit
        } else {
            clear
        };
        ScanCycle { phase, pending, cursor, violations }
    }

    /// The resolver-cache probe. Takes the cache as text, read at the time
    /// `at`, and records one violation for each banned domain found in it,
    /// whatever the letter case.
    /// A flush of the cache follows if and only if there was one. A missing
    /// text, where the platform has no such facility, yields nothing.
    pub fn scan_dns_cache(
        &self,
        cycle: ScanCycle,
        cache_text: Option<String>,
        at: Timestamp,
    ) -> (next: (ScanCycle, ScanAction))
        ensures
            advanced(
                self@,
                cycle@,
                after_resolver_cache(self@, cycle@, text_view(cache_text), at),
                next.0@,
                next.1,
            ),
    {
        match cycle.phase {
            ScanPhase::ResolverCache => {},
            _ => {
                return self.stay(cycle);
            },
        }
        let next = self.probe(
            cycle,
            cache_text,
            at,
            false,
            ScanPhase::Flushing,
            ScanPhase::WindowTitles,
        );
        let action = next.awaited();
        (next, action)
    }

    /// After the flush of the resolver cache, whether it succeeded or not,
    /// the cycle goes on to the window titles.
    pub fn resume_after_flush(&self, cycle: ScanCycle) -> (next: (ScanCycle, ScanAction))
        ensures
            advanced(self@, cycle@, after_flush(cycle@), next.0@, next.1),
    {
        proof {
            use_type_invariant(&cycle);
        }
        match cycle.phase {
            ScanPhase::Flushing => {},
            _ => {
                return self.stay(cycle);
            },
        }
        let ghost before = cycle@;
        let ScanCycle { phase: _, pending, cursor, violations } = cycle;
        let next = ScanCycle { phase: ScanPhase::WindowTitles, pending, cursor, violations };
        proof {
            assert(next@.violations.take(before.violations.len() as int) =~= before.violations);
            assert(findings(next@.violations.skip(before.violations.len() as int))
                =~= Seq::empty());
        }
        (next, ScanAction::ReadWindowTitles)
    }

    /// The window-title probe. Takes the titles of the visible windows as one
    /// text, read at the time `at`, and records one violation for each banned
    /// domain that it names,
    /// by the whole domain or by its first label, unless the cycle has
    /// recorded that domain already. It ends the cycle.
    pub fn scan_window_titles(
        &self,
        cycle: ScanCycle,
        titles: Option<String>,
        at: Timestamp,
    ) -> (next: (ScanCycle, ScanAction))
        ensures
            advanced(
                self@,
                cycle@,
                after_window_titles(self@, cycle@, text_view(titles), at),
                next.0@,
                next.1,
            ),
    {
        match cycle.phase {
            ScanPhase::WindowTitles => {},
            _ => {
                return self.stay(cycle);
            },
        }
        let next = self.probe(cycle, titles, at, true, ScanPhase::Done, ScanPhase::Done);
        (next, ScanAction::Finish)
    }

    /// Advances a scan cycle by the outcome of the work that it awaited and
    /// answers with the next piece of work: the process probe with its
    /// terminations, then the resolver-cache probe with its flush, then the
    /// window-title probe. An outcome that the cycle does not await changes
    /// nothing, and the awaited work is asked for again.
    pub fn full_scan(&self, cycle: ScanCycle, event: ScanEvent) -> (next: (ScanCycle, ScanAction))
        ensures
            advanced(self@, cycle@, progress(self@, cycle@, event@), next.0@, next.1),
    {
        match event {
            ScanEvent::Processes { observed } => self.scan_processes(cycle, &observed),
            ScanEvent::Terminated { success, at } => self.record_termination(cycle, success, at),
            ScanEvent::ResolverCache { text, at } => self.scan_dns_cache(cycle, text, at),
            ScanEvent::Flushed => self.resume_after_flush(cycle),
            ScanEvent::WindowTitles { text, at } => self.scan_window_titles(cycle, text, at),
        }
    }
}

} // verus!