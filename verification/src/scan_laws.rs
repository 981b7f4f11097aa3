//! What holds of every scan cycle, proved from the contracts of the detector.

use crate::models::{findings, Timestamp, ViolationKind, ViolationView};
use crate::monitor::{
    advanced, after_flush, after_processes, after_resolver_cache, after_termination,
    after_window_titles, banned_among, distinct_domains, distinct_processes, domain_findings,
    exe_stem,
    fresh_domains, is_banned_process, lemma_fresh_domains, names_domain, probe_hits,
    reported_domains, reported_processes, CycleView, MonitorView, ProcessView, Progress,
    ScanAction, ScanPhase,
};
use crate::text::{before_first, ends_with, folded, lemma_folded_members, lowercase, occurs_in};
use vstd::prelude::*;

verus! {

/// A process is banned if its name is a banned name, or a banned name followed
/// by `.exe`, whatever the letter case of either.
pub proof fn law_banned_name_is_matched(
    names: Seq<Seq<char>>,
    banned_name: Seq<char>,
    observed_name: Seq<char>,
)
    requires
        names.contains(banned_name),
        lowercase(observed_name) == lowercase(banned_name) || lowercase(observed_name)
            == lowercase(banned_name) + ".exe"@,
    ensures
        is_banned_process(folded(names), observed_name),
{
    lemma_folded_members(names, lowercase(banned_name));
    let i = choose|i: int| 0 <= i < names.len() && names[i] == banned_name;
    assert(lowercase(banned_name) == lowercase(names[i]));
    assert(folded(names).contains(lowercase(banned_name)));
    if lowercase(observed_name) != lowercase(banned_name) {
        let stem = lowercase(banned_name);
        let full = lowercase(observed_name);
        assert(full.subrange(full.len() - ".exe"@.len(), full.len() as int) =~= ".exe"@);
        assert(ends_with(full, ".exe"@));
        assert(full.subrange(0, full.len() - ".exe"@.len()) =~= stem);
        assert(exe_stem(full) == stem);
    }
}

/// The banned processes of a listing in two parts are those of the first part
/// followed by those of the second.
pub proof fn lemma_banned_among_concat(
    banned: Seq<Seq<char>>,
    first: Seq<ProcessView>,
    second: Seq<ProcessView>,
)
    ensures
        banned_among(banned, first + second) == banned_among(banned, first) + banned_among(
            banned,
            second,
        ),
    decreases second.len(),
{
    if second.len() == 0 {
        assert(first + second =~= first);
        assert(banned_among(banned, first) + banned_among(banned, second) =~= banned_among(
            banned,
            first,
        ));
    } else {
        assert((first + second).drop_last() =~= first + second.drop_last());
        assert((first + second).last() == second.last());
        lemma_banned_among_concat(banned, first, second.drop_last());
        let head = banned_among(banned, first);
        let tail = banned_among(banned, second.drop_last());
        if is_banned_process(banned, second.last().name) {
            let hit = ProcessView { pid: second.last().pid, name: lowercase(second.last().name) };
            assert((head + tail).push(hit) =~= head + tail.push(hit));
        }
    }
}

/// Each listed process that is banned stands exactly once, at its place, among
/// those that are terminated, under its lowercase name.
pub proof fn law_banned_process_listed_once(
    banned: Seq<Seq<char>>,
    before: Seq<ProcessView>,
    process: ProcessView,
    after: Seq<ProcessView>,
)
    requires
        is_banned_process(banned, process.name),
    ensures
        banned_among(banned, before + seq![process] + after) == banned_among(banned, before)
            + seq![ProcessView { pid: process.pid, name: lowercase(process.name) }]
            + banned_among(banned, after),
{
    lemma_banned_among_concat(banned, before + seq![process], after);
    lemma_banned_among_concat(banned, before, seq![process]);
    let one = seq![process];
    assert(one.drop_last() =~= Seq::empty());
    assert(banned_among(banned, one.drop_last()) =~= Seq::empty());
    assert(banned_among(banned, one) =~= seq![
        ProcessView { pid: process.pid, name: lowercase(process.name) },
    ]);
}

/// The outcome of one termination: whether it succeeded, and when it was
/// tried.
pub struct Termination {
    pub success: bool,
    pub at: Timestamp,
}

/// The violation at place `i` is of kind `kind` and about `target`, and it is
/// the only such violation of the list.
pub open spec fn is_sole(
    violations: Seq<ViolationView>,
    kind: ViolationKind,
    target: Seq<char>,
    i: int,
) -> bool {
    &&& 0 <= i < violations.len()
    &&& violations[i].kind == kind
    &&& violations[i].target == target
    &&& forall|j: int|
        0 <= j < violations.len() && (#[trigger] violations[j]).kind == kind
            && violations[j].target == target ==> j == i
}

/// The list holds exactly one violation about a process named `name`.
pub open spec fn process_reported_once(violations: Seq<ViolationView>, name: Seq<char>) -> bool {
    exists|i: int| #[trigger] is_sole(violations, ViolationKind::Process, name, i)
}

/// The list holds exactly one violation about `domain`, and it is one with
/// nothing enforced.
pub open spec fn domain_reported_once(violations: Seq<ViolationView>, domain: Seq<char>) -> bool {
    exists|i: int|
        #[trigger] is_sole(violations, ViolationKind::Domain, domain, i)
            && !violations[i].action_taken
}

/// Every violation of the list is about a process.
pub open spec fn all_about_processes(violations: Seq<ViolationView>) -> bool {
    forall|i: int| 0 <= i < violations.len() ==> (#[trigger] violations[i]).kind
        == ViolationKind::Process
}

/// In a list in which no two violations are of one kind and about one target,
/// a violation is the only one of its kind about its target.
proof fn lemma_sole_of_kind(violations: Seq<ViolationView>, i: int)
    requires
        distinct_processes(violations),
        distinct_domains(violations),
        0 <= i < violations.len(),
    ensures
        forall|j: int|
            0 <= j < violations.len() && (#[trigger] violations[j]).kind == violations[i].kind
                && violations[j].target == violations[i].target ==> j == i,
{
    assert forall|j: int|
        0 <= j < violations.len() && (#[trigger] violations[j]).kind == violations[i].kind
            && violations[j].target == violations[i].target implies j == i by {
        if j < i {
            assert(violations[j].target != violations[i].target);
        } else if j > i {
            assert(violations[i].target != violations[j].target);
        }
    }
}

/// A list that begins with another holds what the other holds, at the same
/// places.
proof fn lemma_kept(before: Seq<ViolationView>, after: Seq<ViolationView>, i: int)
    requires
        before.len() <= after.len(),
        after.take(before.len() as int) == before,
        0 <= i < before.len(),
    ensures
        after[i] == before[i],
{
    assert(after.take(before.len() as int)[i] == before[i]);
}

/// A violation about a process named `name` at place `i` of a list without
/// repetitions makes the name reported once.
proof fn lemma_process_at(violations: Seq<ViolationView>, i: int, name: Seq<char>)
    requires
        distinct_processes(violations),
        distinct_domains(violations),
        0 <= i < violations.len(),
        violations[i].kind == ViolationKind::Process,
        violations[i].target == name,
    ensures
        process_reported_once(violations, name),
{
    lemma_sole_of_kind(violations, i);
    assert(is_sole(violations, ViolationKind::Process, name, i));
}

/// A violation about `domain`, with nothing enforced, at place `i` of a list
/// without repetitions makes the domain reported once.
proof fn lemma_domain_at(violations: Seq<ViolationView>, i: int, domain: Seq<char>)
    requires
        distinct_processes(violations),
        distinct_domains(violations),
        0 <= i < violations.len(),
        violations[i].kind == ViolationKind::Domain,
        violations[i].target == domain,
        !violations[i].action_taken,
    ensures
        domain_reported_once(violations, domain),
{
    lemma_sole_of_kind(violations, i);
    assert(is_sole(violations, ViolationKind::Domain, domain, i));
}

/// The place of the one violation about a process named `name`.
proof fn lemma_place_of_process(violations: Seq<ViolationView>, name: Seq<char>) -> (i: int)
    requires
        process_reported_once(violations, name),
    ensures
        0 <= i < violations.len(),
        violations[i].kind == ViolationKind::Process,
        violations[i].target == name,
{
    choose|i: int| #[trigger] is_sole(violations, ViolationKind::Process, name, i)
}

/// The place of the one violation about `domain`.
proof fn lemma_place_of_domain(violations: Seq<ViolationView>, domain: Seq<char>) -> (i: int)
    requires
        domain_reported_once(violations, domain),
    ensures
        0 <= i < violations.len(),
        violations[i].kind == ViolationKind::Domain,
        violations[i].target == domain,
        !violations[i].action_taken,
{
    choose|i: int|
        #[trigger] is_sole(violations, ViolationKind::Domain, domain, i)
            && !violations[i].action_taken
}

/// A target that a cycle has reported stays reported exactly once, whatever
/// outcome the cycle takes next: no step of a cycle adds a second violation of
/// the same kind about it or drops the first.
pub proof fn law_one_violation_per_target(
    monitor: MonitorView,
    before: CycleView,
    change: Progress,
    after: CycleView,
    action: ScanAction,
    target: Seq<char>,
)
    requires
        advanced(monitor, before, change, after, action),
    ensures
        process_reported_once(before.violations, target) ==> process_reported_once(
            after.violations,
            target,
        ),
        domain_reported_once(before.violations, target) ==> domain_reported_once(
            after.violations,
            target,
        ),
{
    if process_reported_once(before.violations, target) {
        let i = lemma_place_of_process(before.violations, target);
        lemma_kept(before.violations, after.violations, i);
        lemma_process_at(after.violations, i, target);
    }
    if domain_reported_once(before.violations, target) {
        let i = lemma_place_of_domain(before.violations, target);
        lemma_kept(before.violations, after.violations, i);
        lemma_domain_at(after.violations, i, target);
    }
}

/// After the termination of a banned process was tried, the cycle holds
/// exactly one violation about a process of its name: the one recorded now,
/// with the outcome and the time of this try, or the one that the cycle held
/// for an earlier process of that name. What was recorded before stays, and
/// at most one violation is added.
pub proof fn law_termination_reports_name_once(
    monitor: MonitorView,
    before: CycleView,
    success: bool,
    at: Timestamp,
    after: CycleView,
    action: ScanAction,
)
    requires
        before.phase == ScanPhase::Terminating,
        before.pending.len() > 0,
        advanced(monitor, before, after_termination(before, success, at), after, action),
    ensures
        process_reported_once(after.violations, before.pending[0].name),
        after.violations.take(before.violations.len() as int) == before.violations,
        reported_processes(before.violations).contains(before.pending[0].name)
            ==> after.violations == before.violations,
        !reported_processes(before.violations).contains(before.pending[0].name)
            ==> after.violations == before.violations.push(
            ViolationView {
                hostname: monitor.hostname,
                target: before.pending[0].name,
                kind: ViolationKind::Process,
                action_taken: success,
                username: monitor.username,
                timestamp: at,
            },
        ),
        all_about_processes(before.violations) ==> all_about_processes(after.violations),
{
    let name = before.pending[0].name;
    let start = before.violations.len() as int;
    let added = after.violations.skip(start);
    assert(findings(added).len() == added.len());
    if reported_processes(before.violations).contains(name) {
        let i = choose|i: int|
            0 <= i < before.violations.len() && (#[trigger] before.violations[i]).kind
                == ViolationKind::Process && before.violations[i].target == name;
        lemma_kept(before.violations, after.violations, i);
        assert(after.violations =~= after.violations.take(start));
        lemma_process_at(after.violations, i, name);
    } else {
        assert(added.len() == 1);
        assert(findings(added)[0] == added[0].finding());
        assert(added[0] == after.violations[start]);
        assert(after.violations =~= before.violations.push(after.violations[start])) by {
            assert forall|k: int| 0 <= k < start implies after.violations[k]
                == before.violations[k] by {
                lemma_kept(before.violations, after.violations, k);
            }
        }
        lemma_process_at(after.violations, start, name);
    }
    if all_about_processes(before.violations) {
        assert forall|k: int| 0 <= k < after.violations.len() implies (
        #[trigger] after.violations[k]).kind == ViolationKind::Process by {
            if k < start {
                lemma_kept(before.violations, after.violations, k);
            }
        }
    }
}

/// The cycles `cycles[0]`, `cycles[1]`, ... are the course of the process
/// probe: the first step takes the listing `observed`, and each further step
/// takes the outcome of one termination; `actions[k]` is the work asked for
/// after step `k`.
pub open spec fn is_process_probe(
    monitor: MonitorView,
    cycles: Seq<CycleView>,
    observed: Seq<ProcessView>,
    tries: Seq<Termination>,
    actions: Seq<ScanAction>,
) -> bool {
    &&& cycles.len() == tries.len() + 2
    &&& actions.len() == tries.len() + 1
    &&& cycles[0].phase == ScanPhase::Processes
    &&& advanced(
        monitor,
        cycles[0],
        after_processes(monitor, cycles[0], observed),
        cycles[1],
        actions[0],
    )
    &&& forall|k: int|
        0 <= k < tries.len() ==> advanced(
            monitor,
            #[trigger] cycles[k + 1],
            after_termination(cycles[k + 1], tries[k].success, tries[k].at),
            cycles[k + 2],
            actions[k + 1],
        )
}

/// Where the process probe stands after `done` terminations: the banned
/// processes from the `done`-th on are still to be terminated; the cycle holds
/// exactly one violation about each name of those before; and the termination
/// of the next is asked for, or the resolver cache when none is left.
proof fn lemma_process_probe_upto(
    monitor: MonitorView,
    cycles: Seq<CycleView>,
    observed: Seq<ProcessView>,
    tries: Seq<Termination>,
    actions: Seq<ScanAction>,
    done: int,
)
    requires
        is_process_probe(monitor, cycles, observed, tries, actions),
        tries.len() == banned_among(monitor.banned_processes, observed).len(),
        0 <= done <= tries.len(),
    ensures
        ({
            let hits = banned_among(monitor.banned_processes, observed);
            let cycle = cycles[done + 1];
            &&& cycle.pending == hits.skip(done)
            &&& cycle.phase == (if done < hits.len() {
                ScanPhase::Terminating
            } else {
                ScanPhase::ResolverCache
            })
            &&& actions[done] == (if done < hits.len() {
                ScanAction::Terminate { pid: hits[done].pid }
            } else {
                ScanAction::ReadResolverCache
            })
            &&& forall|k: int|
                0 <= k < done ==> process_reported_once(cycle.violations, (#[trigger] hits[k]).name)
            &&& all_about_processes(cycles[0].violations) ==> all_about_processes(
                cycle.violations,
            )
            &&& cycle.violations.len() <= cycles[0].violations.len() + done
        }),
    decreases done,
{
    let hits = banned_among(monitor.banned_processes, observed);
    if done == 0 {
        let cycle = cycles[1];
        let start = cycles[0].violations.len() as int;
        assert(cycle.pending =~= hits.skip(0));
        let added = cycle.violations.skip(start);
        assert(findings(added).len() == added.len());
        assert(cycle.violations =~= cycles[0].violations) by {
            assert(cycle.violations.take(start) == cycles[0].violations);
        }
    } else {
        lemma_process_probe_upto(monitor, cycles, observed, tries, actions, done - 1);
        let prev = cycles[done];
        let cycle = cycles[done + 1];
        assert(cycles[(done - 1) + 1] == prev);
        assert(advanced(
            monitor,
            cycles[(done - 1) + 1],
            after_termination(
                cycles[(done - 1) + 1],
                tries[done - 1].success,
                tries[done - 1].at,
            ),
            cycles[(done - 1) + 2],
            actions[(done - 1) + 1],
        ));
        assert(prev.pending[0] == hits[done - 1]);
        assert(cycle.pending =~= hits.skip(done));
        law_termination_reports_name_once(
            monitor,
            prev,
            tries[done - 1].success,
            tries[done - 1].at,
            cycle,
            actions[done],
        );
        assert forall|k: int| 0 <= k < done implies process_reported_once(
            cycle.violations,
            (#[trigger] hits[k]).name,
        ) by {
            if k < done - 1 {
                law_one_violation_per_target(
                    monitor,
                    prev,
                    after_termination(prev, tries[done - 1].success, tries[done - 1].at),
                    cycle,
                    actions[done],
                    hits[k].name,
                );
            }
        }
        if done < hits.len() {
            assert(cycle.pending[0] == hits[done]);
        }
    }
}

/// The course of the process probe. After the listing, the termination of
/// each banned process is asked for exactly once, in the order of the listing,
/// whether or not another process has the same name; and when all are through
/// the cycle asks for the resolver cache.
pub proof fn law_each_banned_process_terminated_once(
    monitor: MonitorView,
    cycles: Seq<CycleView>,
    observed: Seq<ProcessView>,
    tries: Seq<Termination>,
    actions: Seq<ScanAction>,
)
    requires
        is_process_probe(monitor, cycles, observed, tries, actions),
        tries.len() == banned_among(monitor.banned_processes, observed).len(),
    ensures
        ({
            let hits = banned_among(monitor.banned_processes, observed);
            &&& forall|k: int|
                0 <= k < hits.len() ==> #[trigger] actions[k] == (ScanAction::Terminate {
                    pid: hits[k].pid,
                })
            &&& actions[hits.len() as int] == ScanAction::ReadResolverCache
            &&& cycles.last().phase == ScanPhase::ResolverCache
        }),
{
    let hits = banned_among(monitor.banned_processes, observed);
    assert forall|k: int| 0 <= k < hits.len() implies #[trigger] actions[k] == (
    ScanAction::Terminate { pid: hits[k].pid }) by {
        lemma_process_probe_upto(monitor, cycles, observed, tries, actions, k);
    }
    lemma_process_probe_upto(monitor, cycles, observed, tries, actions, hits.len() as int);
}

/// When the process probe is through, the cycle holds exactly one violation
/// about each name under which a banned process was listed, however many
/// processes of that name there were; and a cycle that began with nothing
/// recorded holds violations about processes only, no more than processes
/// were terminated.
pub proof fn law_one_violation_per_process_name(
    monitor: MonitorView,
    cycles: Seq<CycleView>,
    observed: Seq<ProcessView>,
    tries: Seq<Termination>,
    actions: Seq<ScanAction>,
)
    requires
        is_process_probe(monitor, cycles, observed, tries, actions),
        tries.len() == banned_among(monitor.banned_processes, observed).len(),
    ensures
        forall|k: int|
            0 <= k < banned_among(monitor.banned_processes, observed).len()
                ==> process_reported_once(
                cycles.last().violations,
                (#[trigger] banned_among(monitor.banned_processes, observed)[k]).name,
            ),
        cycles[0].violations.len() == 0 ==> all_about_processes(cycles.last().violations)
            && cycles.last().violations.len() <= tries.len(),
{
    let hits = banned_among(monitor.banned_processes, observed);
    lemma_process_probe_upto(monitor, cycles, observed, tries, actions, hits.len() as int);
}

/// A probe that finds `domain` fresh leaves exactly one violation about it.
proof fn lemma_probe_reports_once(
    before: CycleView,
    hits: Seq<Seq<char>>,
    at: Timestamp,
    after: Seq<ViolationView>,
    domain: Seq<char>,
)
    requires
        hits.contains(domain),
        before.violations.len() <= after.len(),
        after.take(before.violations.len() as int) == before.violations,
        findings(after.skip(before.violations.len() as int)) == domain_findings(hits, at),
        distinct_processes(after),
        distinct_domains(after),
    ensures
        domain_reported_once(after, domain),
{
    let start = before.violations.len() as int;
    let added = after.skip(start);
    let k = choose|k: int| 0 <= k < hits.len() && hits[k] == domain;
    assert(findings(added).len() == added.len());
    assert(domain_findings(hits, at).len() == hits.len());
    assert(findings(added)[k] == domain_findings(hits, at)[k]);
    assert(added[k] == after[start + k]);
    let i = start + k;
    assert(after[i].finding() == crate::models::domain_finding(domain, at));
    lemma_domain_at(after, i, domain);
}

/// The resolver-cache probe. A banned domain that occurs in the text of the
/// cache, whatever the letter case of either, and that the cycle has not
/// reported, is reported by exactly one violation, of kind `Domain` and with
/// nothing enforced; and the flush of the cache is asked for.
pub proof fn law_cached_domain_reported_once(
    monitor: MonitorView,
    names: Seq<Seq<char>>,
    domain: Seq<char>,
    before: CycleView,
    cache_text: Seq<char>,
    at: Timestamp,
    after: CycleView,
    action: ScanAction,
)
    requires
        monitor.banned_domains == folded(names),
        names.contains(domain),
        occurs_in(lowercase(domain), lowercase(cache_text)),
        before.phase == ScanPhase::ResolverCache,
        !reported_domains(before.violations).contains(lowercase(domain)),
        advanced(
            monitor,
            before,
            after_resolver_cache(monitor, before, Some(cache_text), at),
            after,
            action,
        ),
    ensures
        domain_reported_once(after.violations, lowercase(domain)),
        action == ScanAction::FlushResolverCache,
{
    let seen = reported_domains(before.violations);
    let hits = fresh_domains(monitor.banned_domains, lowercase(cache_text), false, seen);
    lemma_folded_members(names, lowercase(domain));
    let i = choose|i: int| 0 <= i < names.len() && names[i] == domain;
    assert(lowercase(domain) == lowercase(names[i]));
    lemma_fresh_domains(monitor.banned_domains, lowercase(cache_text), false, seen);
    assert(hits.contains(lowercase(domain)));
    assert(hits == probe_hits(monitor, before, Some(cache_text), false));
    lemma_probe_reports_once(before, hits, at, after.violations, lowercase(domain));
}

/// The flush of the resolver cache is asked for if and only if the probe found
/// a banned domain: the cache could be read, and a banned domain that the
/// cycle had not reported occurs in its lowercase text.
pub proof fn law_flush_iff_match(
    monitor: MonitorView,
    before: CycleView,
    cache_text: Option<Seq<char>>,
    at: Timestamp,
    after: CycleView,
    action: ScanAction,
)
    requires
        before.phase == ScanPhase::ResolverCache,
        advanced(
            monitor,
            before,
            after_resolver_cache(monitor, before, cache_text, at),
            after,
            action,
        ),
    ensures
        action == ScanAction::FlushResolverCache || action == ScanAction::ReadWindowTitles,
        action == ScanAction::FlushResolverCache <==> after.violations.len()
            > before.violations.len(),
        action == ScanAction::FlushResolverCache <==> (cache_text matches Some(text)
            && exists|domain: Seq<char>|
            #![trigger monitor.banned_domains.contains(domain)]
            monitor.banned_domains.contains(domain) && occurs_in(domain, lowercase(text))
                && !reported_domains(before.violations).contains(domain)),
{
    let seen = reported_domains(before.violations);
    let hits = probe_hits(monitor, before, cache_text, false);
    let added = after.violations.skip(before.violations.len() as int);
    assert(findings(added).len() == added.len());
    assert(domain_findings(hits, at).len() == hits.len());
    match cache_text {
        Some(text) => {
            lemma_fresh_domains(monitor.banned_domains, lowercase(text), false, seen);
            if hits.len() > 0 {
                assert(hits.contains(hits[0]));
                assert(monitor.banned_domains.contains(hits[0]));
            }
            if exists|domain: Seq<char>|
                #![trigger monitor.banned_domains.contains(domain)]
                monitor.banned_domains.contains(domain) && occurs_in(domain, lowercase(text))
                    && !seen.contains(domain) {
                let domain = choose|domain: Seq<char>|
                    #![trigger monitor.banned_domains.contains(domain)]
                    monitor.banned_domains.contains(domain) && occurs_in(domain, lowercase(text))
                        && !seen.contains(domain);
                assert(hits.contains(domain));
            }
        },
        None => {},
    }
}

/// The window-title probe. A banned domain that the text of the titles names,
/// by the whole domain or by what stands before its first `.`, whatever the
/// letter case, and that the cycle has not reported, is reported by exactly
/// one violation, however often the text names it.
pub proof fn law_titled_domain_reported_once(
    monitor: MonitorView,
    names: Seq<Seq<char>>,
    domain: Seq<char>,
    before: CycleView,
    titles: Seq<char>,
    at: Timestamp,
    after: CycleView,
    action: ScanAction,
)
    requires
        monitor.banned_domains == folded(names),
        names.contains(domain),
        occurs_in(lowercase(domain), lowercase(titles)) || occurs_in(
            before_first(lowercase(domain), '.'),
            lowercase(titles),
        ),
        before.phase == ScanPhase::WindowTitles,
        !reported_domains(before.violations).contains(lowercase(domain)),
        advanced(
            monitor,
            before,
            after_window_titles(monitor, before, Some(titles), at),
            after,
            action,
        ),
    ensures
        domain_reported_once(after.violations, lowercase(domain)),
        action == ScanAction::Finish,
{
    let seen = reported_domains(before.violations);
    let hits = fresh_domains(monitor.banned_domains, lowercase(titles), true, seen);
    lemma_folded_members(names, lowercase(domain));
    let i = choose|i: int| 0 <= i < names.len() && names[i] == domain;
    assert(lowercase(domain) == lowercase(names[i]));
    lemma_fresh_domains(monitor.banned_domains, lowercase(titles), true, seen);
    assert(names_domain(lowercase(domain), lowercase(titles), true));
    assert(hits.contains(lowercase(domain)));
    assert(hits == probe_hits(monitor, before, Some(titles), true));
    lemma_probe_reports_once(before, hits, at, after.violations, lowercase(domain));
}

/// The banned domains that a probe finds in a text that may be missing, given
/// the domains seen before: none in a missing text.
pub open spec fn hits_in(
    banned: Seq<Seq<char>>,
    text: Option<Seq<char>>,
    by_label: bool,
    seen: Set<Seq<char>>,
) -> Seq<Seq<char>> {
    match text {
        Some(t) => fresh_domains(banned, lowercase(t), by_label, seen),
        None => Seq::empty(),
    }
}

/// The banned domains that the resolver-cache probe of a cycle finds.
pub open spec fn cached_domains(monitor: MonitorView, cache: Option<Seq<char>>) -> Seq<Seq<char>> {
    hits_in(monitor.banned_domains, cache, false, Set::empty())
}

/// The banned domains that the window-title probe of a cycle finds: those
/// that the titles name and the resolver-cache probe did not find.
pub open spec fn titled_domains(
    monitor: MonitorView,
    cache: Option<Seq<char>>,
    titles: Option<Seq<char>>,
) -> Seq<Seq<char>> {
    hits_in(monitor.banned_domains, titles, true, cached_domains(monitor, cache).to_set())
}

/// What was read for the two domain probes of a cycle, and when.
pub struct DomainTexts {
    pub cache: Option<Seq<char>>,
    pub cache_at: Timestamp,
    pub titles: Option<Seq<char>>,
    pub titles_at: Timestamp,
}

/// The steps of a cycle after the process probe: `cached` is the cycle after
/// the resolver cache was read, `flushed` the cycle after the flush, or
/// `cached` itself where no flush was asked for, and `done` the cycle after
/// the window titles were read.
pub open spec fn is_domain_probes(
    monitor: MonitorView,
    listed: CycleView,
    read: DomainTexts,
    cached: CycleView,
    after_cache: ScanAction,
    flushed: CycleView,
    done: CycleView,
    last: ScanAction,
) -> bool {
    &&& advanced(
        monitor,
        listed,
        after_resolver_cache(monitor, listed, read.cache, read.cache_at),
        cached,
        after_cache,
    )
    &&& if after_cache == ScanAction::FlushResolverCache {
        exists|action: ScanAction| advanced(monitor, cached, after_flush(cached), flushed, action)
    } else {
        flushed == cached
    }
    &&& advanced(
        monitor,
        flushed,
        after_window_titles(monitor, flushed, read.titles, read.titles_at),
        done,
        last,
    )
}

/// A list of violations about processes holds none about a domain.
proof fn lemma_no_domain_among_processes(violations: Seq<ViolationView>)
    requires
        all_about_processes(violations),
    ensures
        reported_domains(violations) == Set::<Seq<char>>::empty(),
{
    assert(reported_domains(violations) =~= Set::<Seq<char>>::empty());
}

/// After violations that hold none about a domain, violations that record the
/// findings of some domains make exactly those domains reported.
proof fn lemma_reported_after_probe(
    before: Seq<ViolationView>,
    after: Seq<ViolationView>,
    hits: Seq<Seq<char>>,
    at: Timestamp,
)
    requires
        reported_domains(before) == Set::<Seq<char>>::empty(),
        before.len() <= after.len(),
        after.take(before.len() as int) == before,
        findings(after.skip(before.len() as int)) == domain_findings(hits, at),
    ensures
        reported_domains(after) == hits.to_set(),
{
    let start = before.len() as int;
    let added = after.skip(start);
    assert(findings(added).len() == added.len());
    assert(domain_findings(hits, at).len() == hits.len());
    assert forall|domain: Seq<char>|
        reported_domains(after).contains(domain) <==> hits.to_set().contains(domain) by {
        if reported_domains(after).contains(domain) {
            let i = choose|i: int|
                0 <= i < after.len() && (#[trigger] after[i]).kind == ViolationKind::Domain
                    && after[i].target == domain;
            if i < start {
                assert(after.take(start)[i] == before[i]);
                assert(reported_domains(before).contains(domain));
            } else {
                assert(added[i - start] == after[i]);
                assert(findings(added)[i - start] == domain_findings(hits, at)[i - start]);
                assert(hits[i - start] == domain);
                assert(hits.contains(domain));
            }
        }
        if hits.to_set().contains(domain) {
            assert(hits.contains(domain));
            let k = choose|k: int| 0 <= k < hits.len() && hits[k] == domain;
            assert(findings(added)[k] == domain_findings(hits, at)[k]);
            assert(added[k] == after[start + k]);
            assert(after[start + k].kind == ViolationKind::Domain && after[start + k].target
                == domain);
        }
    }
    assert(reported_domains(after) =~= hits.to_set());
}

/// The flush leaves the violations of a cycle as they are.
proof fn lemma_flush_keeps_violations(
    monitor: MonitorView,
    cached: CycleView,
    after_cache: ScanAction,
    flushed: CycleView,
)
    requires
        cached.phase == ScanPhase::Flushing || cached.phase == ScanPhase::WindowTitles,
        after_cache == ScanAction::FlushResolverCache <==> cached.phase == ScanPhase::Flushing,
        if after_cache == ScanAction::FlushResolverCache {
            exists|action: ScanAction|
                advanced(monitor, cached, after_flush(cached), flushed, action)
        } else {
            flushed == cached
        },
    ensures
        flushed.violations == cached.violations,
        flushed.phase == ScanPhase::WindowTitles,
{
    if after_cache == ScanAction::FlushResolverCache {
        let action = choose|action: ScanAction|
            advanced(monitor, cached, after_flush(cached), flushed, action);
        let none = flushed.violations.skip(cached.violations.len() as int);
        assert(findings(none).len() == none.len());
        assert(flushed.violations =~= flushed.violations.take(cached.violations.len() as int));
    }
}

/// A whole scan cycle runs its probes in order and joins what they find.
/// Started with nothing recorded, a cycle asks for the process list, then for
/// the termination of each banned process, then for the resolver cache, then
/// for its flush exactly if the cache held a banned domain, then for the
/// window titles, and then it is over. Its violations are, in this order,
/// those about processes, one for each name under which a banned process was
/// listed; one for each banned domain of the cache; and one for each banned
/// domain that the titles name and the cache did not hold.
pub proof fn law_cycle_joins_probes_in_order(
    monitor: MonitorView,
    cycles: Seq<CycleView>,
    observed: Seq<ProcessView>,
    tries: Seq<Termination>,
    actions: Seq<ScanAction>,
    read: DomainTexts,
    cached: CycleView,
    after_cache: ScanAction,
    flushed: CycleView,
    done: CycleView,
    last: ScanAction,
)
    requires
        cycles[0].violations.len() == 0,
        is_process_probe(monitor, cycles, observed, tries, actions),
        tries.len() == banned_among(monitor.banned_processes, observed).len(),
        is_domain_probes(monitor, cycles.last(), read, cached, after_cache, flushed, done, last),
    ensures
        after_cache == (if cached_domains(monitor, read.cache).len() > 0 {
            ScanAction::FlushResolverCache
        } else {
            ScanAction::ReadWindowTitles
        }),
        last == ScanAction::Finish,
        done.phase == ScanPhase::Done,
        all_about_processes(cycles.last().violations),
        forall|k: int|
            0 <= k < banned_among(monitor.banned_processes, observed).len()
                ==> process_reported_once(
                done.violations,
                (#[trigger] banned_among(monitor.banned_processes, observed)[k]).name,
            ),
        findings(done.violations) == findings(cycles.last().violations) + domain_findings(
            cached_domains(monitor, read.cache),
            read.cache_at,
        ) + domain_findings(
            titled_domains(monitor, read.cache, read.titles),
            read.titles_at,
        ),
{
    let hits = banned_among(monitor.banned_processes, observed);
    let listed = cycles.last();
    law_each_banned_process_terminated_once(monitor, cycles, observed, tries, actions);
    law_one_violation_per_process_name(monitor, cycles, observed, tries, actions);
    lemma_no_domain_among_processes(listed.violations);

    let in_cache = cached_domains(monitor, read.cache);
    assert(probe_hits(monitor, listed, read.cache, false) == in_cache);
    let from_cache = cached.violations.skip(listed.violations.len() as int);
    assert(findings(from_cache).len() == from_cache.len());
    assert(domain_findings(in_cache, read.cache_at).len() == in_cache.len());
    lemma_reported_after_probe(listed.violations, cached.violations, in_cache, read.cache_at);
    lemma_flush_keeps_violations(monitor, cached, after_cache, flushed);

    let in_titles = titled_domains(monitor, read.cache, read.titles);
    assert(probe_hits(monitor, flushed, read.titles, true) == in_titles);
    let from_titles = done.violations.skip(flushed.violations.len() as int);
    assert(findings(from_titles).len() == from_titles.len());
    assert(domain_findings(in_titles, read.titles_at).len() == in_titles.len());

    assert forall|k: int| 0 <= k < hits.len() implies process_reported_once(
        done.violations,
        (#[trigger] hits[k]).name,
    ) by {
        law_one_violation_per_target(
            monitor,
            listed,
            after_resolver_cache(monitor, listed, read.cache, read.cache_at),
            cached,
            after_cache,
            hits[k].name,
        );
        law_one_violation_per_target(
            monitor,
            flushed,
            after_window_titles(monitor, flushed, read.titles, read.titles_at),
            done,
            last,
            hits[k].name,
        );
    }

    let all = findings(listed.violations) + domain_findings(in_cache, read.cache_at)
        + domain_findings(in_titles, read.titles_at);
    assert(findings(listed.violations).len() == listed.violations.len());
    assert(findings(done.violations) =~= all) by {
        let first = listed.violations.len() as int;
        let second = cached.violations.len() as int;
        assert(findings(done.violations).len() == all.len());
        assert forall|i: int| 0 <= i < all.len() implies findings(done.violations)[i]
            == all[i] by {
            if i < first {
                assert(done.violations.take(second)[i] == flushed.violations[i]);
                assert(cached.violations.take(first)[i] == listed.violations[i]);
            } else if i < second {
                assert(done.violations.take(second)[i] == flushed.violations[i]);
                assert(from_cache[i - first] == cached.violations[i]);
                assert(findings(from_cache)[i - first] == domain_findings(
                    in_cache,
                    read.cache_at,
                )[i - first]);
            } else {
                assert(from_titles[i - second] == done.violations[i]);
                assert(findings(from_titles)[i - second] == domain_findings(
                    in_titles,
                    read.titles_at,
                )[i - second]);
            }
        }
    }
}

/// In a whole scan cycle, a banned domain that occurs in the text of the
/// resolver cache or that the window titles name, whatever the letter case, is
/// reported by exactly one violation, however often and in however many of
/// the two texts it stands.
pub proof fn law_domain_reported_once_in_cycle(
    monitor: MonitorView,
    names: Seq<Seq<char>>,
    domain: Seq<char>,
    cycles: Seq<CycleView>,
    observed: Seq<ProcessView>,
    tries: Seq<Termination>,
    actions: Seq<ScanAction>,
    read: DomainTexts,
    cached: CycleView,
    after_cache: ScanAction,
    flushed: CycleView,
    done: CycleView,
    last: ScanAction,
)
    requires
        monitor.banned_domains == folded(names),
        names.contains(domain),
        cycles[0].violations.len() == 0,
        is_process_probe(monitor, cycles, observed, tries, actions),
        tries.len() == banned_among(monitor.banned_processes, observed).len(),
        is_domain_probes(monitor, cycles.last(), read, cached, after_cache, flushed, done, last),
        (read.cache matches Some(text) && occurs_in(lowercase(domain), lowercase(text))) || (
        read.titles matches Some(text) && names_domain(lowercase(domain), lowercase(text), true)),
    ensures
        domain_reported_once(done.violations, lowercase(domain)),
{
    let listed = cycles.last();
    law_cycle_joins_probes_in_order(
        monitor,
        cycles,
        observed,
        tries,
        actions,
        read,
        cached,
        after_cache,
        flushed,
        done,
        last,
    );
    law_each_banned_process_terminated_once(monitor, cycles, observed, tries, actions);
    lemma_no_domain_among_processes(listed.violations);
    let in_cache = cached_domains(monitor, read.cache);
    assert(probe_hits(monitor, listed, read.cache, false) == in_cache);
    lemma_reported_after_probe(listed.violations, cached.violations, in_cache, read.cache_at);
    lemma_flush_keeps_violations(monitor, cached, after_cache, flushed);
    lemma_folded_members(names, lowercase(domain));
    let i = choose|i: int| 0 <= i < names.len() && names[i] == domain;
    assert(lowercase(domain) == lowercase(names[i]));
    if in_cache.contains(lowercase(domain)) {
        lemma_probe_reports_once(
            listed,
            in_cache,
            read.cache_at,
            cached.violations,
            lowercase(domain),
        );
        law_one_violation_per_target(
            monitor,
            flushed,
            after_window_titles(monitor, flushed, read.titles, read.titles_at),
            done,
            last,
            lowercase(domain),
        );
    } else {
        match read.cache {
            Some(text) => {
                lemma_fresh_domains(
                    monitor.banned_domains,
                    lowercase(text),
                    false,
                    Set::empty(),
                );
            },
            None => {},
        }
        let text = read.titles->0;
        let seen = reported_domains(flushed.violations);
        let in_titles = fresh_domains(monitor.banned_domains, lowercase(text), true, seen);
        lemma_fresh_domains(monitor.banned_domains, lowercase(text), true, seen);
        assert(in_titles.contains(lowercase(domain)));
        assert(in_titles == probe_hits(monitor, flushed, read.titles, true));
        lemma_probe_reports_once(
            flushed,
            in_titles,
            read.titles_at,
            done.violations,
            lowercase(domain),
        );
    }
}

} // verus!
