//! What the agent hands to the key-value store and to the remote backend:
//! the keys, the expiry times, and the payload of a violation. Sending is
//! left to whoever holds the connection.

use crate::clock::{rfc3339, rfc3339_text, rfc3339_z, rfc3339_z_text};
use crate::json::{
    field_views, json_array_field, json_array_items, json_object, json_object_text,
    optional_texts, JsonMember, JsonMemberView,
};
use crate::models::Timestamp;
use crate::models::{Violation, ViolationKind, ViolationView};
use crate::text::{decimal, decimal_text, texts};
use vstd::prelude::*;
use vstd::string::StringExecFns;

verus! {

/// Seconds after which a heartbeat expires.
pub const HEARTBEAT_TTL_SECS: u64 = 90;

/// Seconds after which the latest screenshot expires.
pub const SCREENSHOT_TTL_SECS: u64 = 120;

/// How many violations the history of a host keeps.
pub const VIOLATION_HISTORY_LEN: isize = 1000;

/// How many screenshots the history keeps.
pub const SCREENSHOT_HISTORY_LEN: isize = 10;

/// The port on which the remote backend listens.
pub const TEACHER_PORT: u16 = 8080;

/// A key: the prefix and the parts, joined by `:`.
pub open spec fn key_text(prefix: Seq<char>, parts: Seq<Seq<char>>) -> Seq<char>
    decreases parts.len(),
{
    if parts.len() == 0 {
        prefix
    } else {
        key_text(prefix, parts.drop_last()) + seq![':'] + parts.last()
    }
}

/// The models of a list of string slices, in order.
pub open spec fn part_views(parts: Seq<&str>) -> Seq<Seq<char>> {
    Seq::new(parts.len(), |i: int| parts[i]@)
}

/// Builds a key from the prefix and the parts.
pub fn key(prefix: &str, parts: &Vec<&str>) -> (k: String)
    ensures
        k@ == key_text(prefix@, part_views(parts@)),
{
    let mut k = prefix.to_owned();
    let mut i: usize = 0;
    proof {
        reveal_strlit(":");
        assert(part_views(parts@).take(0) =~= Seq::empty());
    }
    while i < parts.len()
        invariant
            i <= parts.len(),
            ":"@ == seq![':'],
            k@ == key_text(prefix@, part_views(parts@).take(i as int)),
        decreases parts.len() - i,
    {
        let ghost upto = part_views(parts@).take(i as int + 1);
        proof {
            assert(upto.drop_last() =~= part_views(parts@).take(i as int));
            assert(upto.last() == parts@[i as int]@);
        }
        k.append(":");
        k.append(parts[i]);
        i += 1;
    }
    assert(part_views(parts@).take(parts.len() as int) =~= part_views(parts@));
    k
}

/// The key of a host's heartbeat: `prefix:heartbeat:hostname`.
pub fn heartbeat_key(prefix: &str, hostname: &str) -> (k: String)
    ensures
        k@ == key_text(prefix@, seq!["heartbeat"@, hostname@]),
{
    let mut parts: Vec<&str> = Vec::new();
    parts.push("heartbeat");
    parts.push(hostname);
    assert(part_views(parts@) =~= seq!["heartbeat"@, hostname@]);
    key(prefix, &parts)
}

/// The key of a host's list of violations: `prefix:violations:hostname`.
pub fn violations_key(prefix: &str, hostname: &str) -> (k: String)
    ensures
        k@ == key_text(prefix@, seq!["violations"@, hostname@]),
{
    let mut parts: Vec<&str> = Vec::new();
    parts.push("violations");
    parts.push(hostname);
    assert(part_views(parts@) =~= seq!["violations"@, hostname@]);
    key(prefix, &parts)
}

/// The key of a host's count of violations: `prefix:violation_count:hostname`.
pub fn violation_count_key(prefix: &str, hostname: &str) -> (k: String)
    ensures
        k@ == key_text(prefix@, seq!["violation_count"@, hostname@]),
{
    let mut parts: Vec<&str> = Vec::new();
    parts.push("violation_count");
    parts.push(hostname);
    assert(part_views(parts@) =~= seq!["violation_count"@, hostname@]);
    key(prefix, &parts)
}

/// The key of the set of agents: `prefix:agents`.
pub fn agents_key(prefix: &str) -> (k: String)
    ensures
        k@ == key_text(prefix@, seq!["agents"@]),
{
    let mut parts: Vec<&str> = Vec::new();
    parts.push("agents");
    assert(part_views(parts@) =~= seq!["agents"@]);
    key(prefix, &parts)
}

/// The key of a host's latest screenshot: `prefix:screenshot:hostname`.
pub fn screenshot_key(prefix: &str, hostname: &str) -> (k: String)
    ensures
        k@ == key_text(prefix@, seq!["screenshot"@, hostname@]),
{
    let mut parts: Vec<&str> = Vec::new();
    parts.push("screenshot");
    parts.push(hostname);
    assert(part_views(parts@) =~= seq!["screenshot"@, hostname@]);
    key(prefix, &parts)
}

/// The key of a host's screenshot history:
/// `prefix:screenshot_history:hostname`.
pub fn screenshot_history_key(prefix: &str, hostname: &str) -> (k: String)
    ensures
        k@ == key_text(prefix@, seq!["screenshot_history"@, hostname@]),
{
    let mut parts: Vec<&str> = Vec::new();
    parts.push("screenshot_history");
    parts.push(hostname);
    assert(part_views(parts@) =~= seq!["screenshot_history"@, hostname@]);
    key(prefix, &parts)
}

/// The key of the centrally managed ban lists: `prefix:ban_config`.
pub fn ban_config_key(prefix: &str) -> (k: String)
    ensures
        k@ == key_text(prefix@, seq!["ban_config"@]),
{
    let mut parts: Vec<&str> = Vec::new();
    parts.push("ban_config");
    assert(part_views(parts@) =~= seq!["ban_config"@]);
    key(prefix, &parts)
}

/// The key under which the remote backend publishes its address:
/// `prefix:server:ip`.
pub fn server_ip_key(prefix: &str) -> (k: String)
    ensures
        k@ == key_text(prefix@, seq!["server"@, "ip"@]),
{
    let mut parts: Vec<&str> = Vec::new();
    parts.push("server");
    parts.push("ip");
    assert(part_views(parts@) =~= seq!["server"@, "ip"@]);
    key(prefix, &parts)
}

/// The rule that a violation of this kind breaks, as the backend names it.
pub open spec fn rule_text(kind: ViolationKind) -> Seq<char> {
    match kind {
        ViolationKind::Process => "banned_process"@,
        ViolationKind::Domain => "banned_domain"@,
    }
}

/// How severe a violation of this kind is, as the backend names it.
pub open spec fn severity_text(kind: ViolationKind) -> Seq<char> {
    match kind {
        ViolationKind::Process => "high"@,
        ViolationKind::Domain => "medium"@,
    }
}

/// What a violation of this kind is called in its description.
pub open spec fn kind_label(kind: ViolationKind) -> Seq<char> {
    match kind {
        ViolationKind::Process => "Запрещённый процесс"@,
        ViolationKind::Domain => "Запрещённый домен"@,
    }
}

/// How the outcome of the enforcement is put in a description.
pub open spec fn outcome_label(action_taken: bool) -> Seq<char> {
    if action_taken {
        "заблокировано"@
    } else {
        "не удалось заблокировать"@
    }
}

/// The description of a violation: `label: target (outcome)`.
pub open spec fn detail_text(violation: ViolationView) -> Seq<char> {
    kind_label(violation.kind) + ": "@ + violation.target + " ("@ + outcome_label(
        violation.action_taken,
    ) + ")"@
}

/// The rule that a violation of this kind breaks.
pub fn rule(kind: ViolationKind) -> (text: &'static str)
    ensures
        text@ == rule_text(kind),
{
    match kind {
        ViolationKind::Process => "banned_process",
        ViolationKind::Domain => "banned_domain",
    }
}

/// How severe a violation of this kind is.
pub fn severity(kind: ViolationKind) -> (text: &'static str)
    ensures
        text@ == severity_text(kind),
{
    match kind {
        ViolationKind::Process => "high",
        ViolationKind::Domain => "medium",
    }
}

/// The description of a violation.
pub fn detail(violation: &Violation) -> (text: String)
    ensures
        text@ == detail_text(violation@),
{
    let label = match violation.kind {
        ViolationKind::Process => "Запрещённый процесс",
        ViolationKind::Domain => "Запрещённый домен",
    };
    let outcome = if violation.action_taken {
        "заблокировано"
    } else {
        "не удалось заблокировать"
    };
    let mut text = label.to_owned();
    text.append(": ");
    text.append(violation.target.as_str());
    text.append(" (");
    text.append(outcome);
    text.append(")");
    text
}

/// The members of the payload of a violation, given the text of its time.
pub open spec fn payload_fields(
    violation: ViolationView,
    time: Seq<char>,
) -> Seq<(Seq<char>, JsonMemberView)> {
    seq![
        ("hostname"@, JsonMemberView::Text(violation.hostname)),
        ("rule"@, JsonMemberView::Text(rule_text(violation.kind))),
        ("detail"@, JsonMemberView::Text(detail_text(violation))),
        ("severity"@, JsonMemberView::Text(severity_text(violation.kind))),
        ("timestamp"@, JsonMemberView::Text(time)),
    ]
}

/// The payload of a violation in the schema of the remote backend: a JSON
/// object with the host, the rule, the description, the severity and the time
/// in RFC 3339. There is none for a time that is no date.
pub fn violation_payload(violation: &Violation) -> (payload: Option<String>)
    ensures
        match payload {
            Some(text) => rfc3339_text(violation.timestamp.secs, violation.timestamp.nanos)
                matches Some(time) && text@ == json_object_text(
                payload_fields(violation@, time),
            ),
            None => rfc3339_text(violation.timestamp.secs, violation.timestamp.nanos) is None,
        },
{
    match rfc3339(violation.timestamp) {
        Some(time) => Some(json_object(&payload_members(violation, time))),
        None => None,
    }
}

/// The members of the payload of a violation, given the text of its time.
pub fn payload_members(violation: &Violation, time: String) -> (fields: Vec<(String, JsonMember)>)
    ensures
        field_views(fields@) == payload_fields(violation@, time@),
{
    let mut fields: Vec<(String, JsonMember)> = Vec::new();
    fields.push(("hostname".to_owned(), JsonMember::Text(violation.hostname.clone())));
    fields.push(("rule".to_owned(), JsonMember::Text(rule(violation.kind).to_owned())));
    fields.push(("detail".to_owned(), JsonMember::Text(detail(violation))));
    fields.push(("severity".to_owned(), JsonMember::Text(severity(violation.kind).to_owned())));
    fields.push(("timestamp".to_owned(), JsonMember::Text(time)));
    assert(field_views(fields@) =~= payload_fields(violation@, time@));
    fields
}

/// The members of the payload of a screenshot: the host, the text of the time
/// at which it was taken, the screenshot as text, and the length of that text
/// in bytes.
pub open spec fn screenshot_fields(
    hostname: Seq<char>,
    time: Seq<char>,
    data: Seq<char>,
    size: u64,
) -> Seq<(Seq<char>, JsonMemberView)> {
    seq![
        ("hostname"@, JsonMemberView::Text(hostname)),
        ("timestamp"@, JsonMemberView::Text(time)),
        ("data"@, JsonMemberView::Text(data)),
        ("size"@, JsonMemberView::Number(size)),
    ]
}

/// The members of the payload of a screenshot, given the text of its time.
pub fn screenshot_members(
    hostname: &str,
    screenshot_base64: &str,
    time: String,
) -> (fields: Vec<(String, JsonMember)>)
    ensures
        field_views(fields@) == screenshot_fields(
            hostname@,
            time@,
            screenshot_base64@,
            screenshot_base64.len() as u64,
        ),
{
    let size: u64 = screenshot_base64.len() as u64;
    let mut fields: Vec<(String, JsonMember)> = Vec::new();
    fields.push(("hostname".to_owned(), JsonMember::Text(hostname.to_owned())));
    fields.push(("timestamp".to_owned(), JsonMember::Text(time)));
    fields.push(("data".to_owned(), JsonMember::Text(screenshot_base64.to_owned())));
    fields.push(("size".to_owned(), JsonMember::Number(size)));
    assert(field_views(fields@) =~= screenshot_fields(
        hostname@,
        time@,
        screenshot_base64@,
        size,
    ));
    fields
}

/// The payload of a screenshot taken at the time `at`: a JSON object with the
/// host, the time in RFC 3339 with `Z`, the screenshot as text, and the length
/// of that text in bytes. The same payload is stored as the latest screenshot
/// of the host, for `SCREENSHOT_TTL_SECS`, and at the head of its history,
/// which keeps `SCREENSHOT_HISTORY_LEN`. There is none for a time that is no
/// date.
pub fn screenshot_payload(
    hostname: &str,
    screenshot_base64: &str,
    at: Timestamp,
) -> (payload: Option<String>)
    ensures
        match payload {
            Some(text) => rfc3339_z_text(at.secs, at.nanos) matches Some(time) && text@
                == json_object_text(
                screenshot_fields(
                    hostname@,
                    time,
                    screenshot_base64@,
                    screenshot_base64.len() as u64,
                ),
            ),
            None => rfc3339_z_text(at.secs, at.nanos) is None,
        },
{
    match rfc3339_z(at) {
        Some(time) => Some(json_object(&screenshot_members(hostname, screenshot_base64, time))),
        None => None,
    }
}

/// The entry of an agent in the set of agents: `hostname|ip|port`, the port
/// in decimal digits.
pub fn agent_entry(hostname: &str, ip: &str, port: u16) -> (entry: String)
    ensures
        entry@ == hostname@ + "|"@ + ip@ + "|"@ + decimal_text(port as nat),
{
    let mut entry = hostname.to_owned();
    entry.append("|");
    entry.append(ip);
    entry.append("|");
    entry.append(decimal(port as u64).as_str());
    entry
}

/// The address of the remote backend, from the host that it published:
/// the host, `:` and `TEACHER_PORT`.
pub fn teacher_address(ip: &str) -> (address: String)
    ensures
        address@ == ip@ + ":8080"@,
{
    let mut address = ip.to_owned();
    address.append(":8080");
    address
}

/// The URL to which violations are posted at the remote backend.
pub fn teacher_violation_url(address: &str) -> (url: String)
    ensures
        url@ == "http://"@ + address@ + "/api/agent/violation"@,
{
    let mut url = "http://".to_owned();
    url.append(address);
    url.append("/api/agent/violation");
    url
}

/// The texts among items that may be missing, in order.
pub open spec fn present_texts(items: Seq<Option<Seq<char>>>) -> Seq<Seq<char>>
    decreases items.len(),
{
    if items.len() == 0 {
        Seq::empty()
    } else {
        let earlier = present_texts(items.drop_last());
        match items.last() {
            Some(text) => earlier.push(text),
            None => earlier,
        }
    }
}

/// Keeps the strings that are there, in order.
pub fn keep_strings(items: &Vec<Option<String>>) -> (kept: Vec<String>)
    ensures
        texts(kept@) == present_texts(optional_texts(items@)),
{
    let mut kept: Vec<String> = Vec::new();
    let ghost all = optional_texts(items@);
    let mut i: usize = 0;
    proof {
        assert(all.take(0) =~= Seq::empty());
        assert(texts(kept@) =~= Seq::empty());
    }
    while i < items.len()
        invariant
            i <= items.len(),
            all == optional_texts(items@),
            texts(kept@) == present_texts(all.take(i as int)),
        decreases items.len() - i,
    {
        let ghost before = texts(kept@);
        let ghost upto = all.take(i as int + 1);
        proof {
            assert(upto.drop_last() =~= all.take(i as int));
            assert(upto.last() == all[i as int]);
        }
        match &items[i] {
            Some(text) => {
                kept.push(text.clone());
                assert(texts(kept@) =~= before.push(text@));
            },
            None => {},
        }
        i += 1;
    }
    assert(all.take(items.len() as int) =~= all);
    kept
}

/// The ban lists that a JSON text holds: the strings of its array
/// `banned_processes` and those of its array `banned_domains`. There are none
/// unless the text is JSON and both members are arrays.
pub open spec fn ban_config_of(text: Seq<char>) -> Option<(Seq<Seq<char>>, Seq<Seq<char>>)> {
    match (
        json_array_items(text, "banned_processes"@),
        json_array_items(text, "banned_domains"@),
    ) {
        (Some(processes), Some(domains)) => Some(
            (present_texts(processes), present_texts(domains)),
        ),
        _ => None,
    }
}

/// Reads the centrally managed ban lists from their JSON text: the process
/// names and the domains. Items that are no strings are left out.
pub fn parse_ban_config(text: &str) -> (lists: Option<(Vec<String>, Vec<String>)>)
    ensures
        match lists {
            Some((processes, domains)) => ban_config_of(text@) == Some(
                (texts(processes@), texts(domains@)),
            ),
            None => ban_config_of(text@) is None,
        },
{
    let processes = match json_array_field(text, "banned_processes") {
        Some(items) => keep_strings(&items),
        None => {
            return None;
        },
    };
    let domains = match json_array_field(text, "banned_domains") {
        Some(items) => keep_strings(&items),
        None => {
            return None;
        },
    };
    Some((processes, domains))
}

} // verus!
