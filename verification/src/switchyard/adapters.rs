//! Adapters from the switchyard sinks to the product's audit records and log lines.

use vstd::prelude::*;
use crate::logging::init::LogLevel;
use crate::switchyard::{AuditSink, FactsEmitter};
use crate::symlink::ops::opt_view;
use crate::utils::text::{chars_eq_str, str_chars};
use crate::utils::worker::strings_view;

verus! {

/// A JSON value, as far as the adapters read it: a string, an integer that is not
/// negative or one that is, another number, an array (whose items are strings or not),
/// or anything else.
pub enum FactValue {
    Str(String),
    PosInt(u64),
    NegInt(i64),
    Float,
    Array(Vec<Option<String>>),
    Other,
}

/// The fields of a fact: the members of a JSON object, in order, or `None` when the
/// fields are not an object.
pub struct FactFields {
    pub object: Option<Vec<(String, FactValue)>>,
}

/// The optional fields of a structured audit record.
pub struct AuditFields {
    pub stage: Option<String>,
    pub suite: Option<String>,
    pub cmd: Option<String>,
    pub rc: Option<i32>,
    pub duration_ms: Option<u64>,
    pub target: Option<String>,
    pub source: Option<String>,
    pub backup_path: Option<String>,
    pub artifacts: Option<Vec<String>>,
}

/// A structured audit record for a fact.
pub struct FactsRecord {
    pub subsystem: String,
    pub event: String,
    pub decision: String,
    pub fields: AuditFields,
}

/// A message for the human-readable log, at its level.
pub struct AuditLine {
    pub level: LogLevel,
    pub message: String,
}

/// The value of the first member named `key`.
pub open spec fn lookup(members: Seq<(String, FactValue)>, key: Seq<char>) -> Option<FactValue>
    decreases members.len(),
{
    if members.len() == 0 {
        None
    } else if members[0].0@ == key {
        Some(members[0].1)
    } else {
        lookup(members.drop_first(), key)
    }
}

/// The value as a string, if it is one.
pub open spec fn as_str(v: Option<FactValue>) -> Option<Seq<char>> {
    match v {
        Some(FactValue::Str(s)) => Some(s@),
        _ => None,
    }
}

/// The value as an `i64`, if it is an integer in range.
pub open spec fn as_i64(v: Option<FactValue>) -> Option<i64> {
    match v {
        Some(FactValue::PosInt(n)) => if n <= i64::MAX {
            Some(n as i64)
        } else {
            None
        },
        Some(FactValue::NegInt(n)) => Some(n),
        _ => None,
    }
}

/// The value as a `u64`, if it is an integer that is not negative.
pub open spec fn as_u64(v: Option<FactValue>) -> Option<u64> {
    match v {
        Some(FactValue::PosInt(n)) => Some(n),
        _ => None,
    }
}

/// The string items, in order.
pub open spec fn string_items(items: Seq<Option<String>>) -> Seq<Seq<char>>
    decreases items.len(),
{
    if items.len() == 0 {
        Seq::empty()
    } else {
        let rest = string_items(items.drop_last());
        match items.last() {
            Some(s) => rest.push(s@),
            None => rest,
        }
    }
}

/// The artifacts: the string items of an array, when there is at least one.
pub open spec fn artifacts_of(v: Option<FactValue>) -> Option<Seq<Seq<char>>> {
    match v {
        Some(FactValue::Array(items)) => if string_items(items@).len() > 0 {
            Some(string_items(items@))
        } else {
            None
        },
        _ => None,
    }
}

/// The view of an optional list of strings.
pub open spec fn opt_strings_view(o: Option<Vec<String>>) -> Option<Seq<Seq<char>>> {
    match o {
        Some(v) => Some(strings_view(v@)),
        None => None,
    }
}

/// The value under `key` in the fields, `None` when the fields are not an object.
pub open spec fn field(f: FactFields, key: Seq<char>) -> Option<FactValue> {
    match f.object {
        Some(m) => lookup(m@, key),
        None => None,
    }
}

/// The audit fields taken from the fact's fields: `stage`, `suite`, `cmd`, `target`,
/// `source` and `backup_path` when they are strings, `rc` when it is an `i64` (cast to
/// `i32`), `duration_ms` when it is a `u64`, and `artifacts` when it is an array with at
/// least one string, keeping its strings.
pub open spec fn fields_match(a: AuditFields, f: FactFields) -> bool {
    &&& opt_view(a.stage) == as_str(field(f, "stage"@))
    &&& opt_view(a.suite) == as_str(field(f, "suite"@))
    &&& opt_view(a.cmd) == as_str(field(f, "cmd"@))
    &&& a.rc == (match as_i64(field(f, "rc"@)) {
        Some(n) => Some(n as i32),
        None => None,
    })
    &&& a.duration_ms == as_u64(field(f, "duration_ms"@))
    &&& opt_view(a.target) == as_str(field(f, "target"@))
    &&& opt_view(a.source) == as_str(field(f, "source"@))
    &&& opt_view(a.backup_path) == as_str(field(f, "backup_path"@))
    &&& opt_strings_view(a.artifacts) == artifacts_of(field(f, "artifacts"@))
}

/// The position of the first member named `key`.
fn find_member(members: &Vec<(String, FactValue)>, key: &str) -> (r: Option<usize>)
    ensures
        r is None ==> lookup(members@, key@) is None,
        r matches Some(i) ==> i < members@.len() && lookup(members@, key@) == Some(members@[i as int].1),
{
    let mut i: usize = 0;
    assert(members@.subrange(0, members@.len() as int) =~= members@);
    while i < members.len()
        invariant
            i <= members@.len(),
            lookup(members@, key@) == lookup(members@.subrange(i as int, members@.len() as int), key@),
        decreases members@.len() - i,
    {
        let ghost rest = members@.subrange(i as int, members@.len() as int);
        assert(rest[0] == members@[i as int]);
        let name = str_chars(members[i].0.as_str());
        if chars_eq_str(name.as_slice(), key) {
            return Some(i);
        }
        assert(rest.drop_first() =~= members@.subrange(i + 1, members@.len() as int));
        i = i + 1;
    }
    None
}

fn str_field(members: &Vec<(String, FactValue)>, key: &str) -> (r: Option<String>)
    ensures
        opt_view(r) == as_str(lookup(members@, key@)),
{
    match find_member(members, key) {
        Some(i) => match &members[i].1 {
            FactValue::Str(s) => Some(s.clone()),
            _ => None,
        },
        None => None,
    }
}

fn collect_strings(items: &Vec<Option<String>>) -> (r: Vec<String>)
    ensures
        strings_view(r@) == string_items(items@),
{
    let mut out: Vec<String> = Vec::new();
    let mut i: usize = 0;
    while i < items.len()
        invariant
            i <= items@.len(),
            strings_view(out@) == string_items(items@.take(i as int)),
        decreases items@.len() - i,
    {
        let ghost prev = out@;
        assert(items@.take(i + 1).drop_last() =~= items@.take(i as int));
        match &items[i] {
            Some(s) => {
                out.push(s.clone());
                assert(strings_view(out@) =~= strings_view(prev).push(s@));
            },
            None => {},
        }
        i = i + 1;
    }
    assert(items@.take(items@.len() as int) =~= items@);
    out
}

fn audit_fields(members: &Vec<(String, FactValue)>) -> (a: AuditFields)
    ensures
        fields_match(a, FactFields { object: Some(*members) }),
{
    let rc: Option<i32> = match find_member(members, "rc") {
        Some(i) => match &members[i].1 {
            FactValue::PosInt(n) => if *n <= 9223372036854775807u64 {
                let x: i64 = *n as i64;
                Some(x as i32)
            } else {
                None
            },
            FactValue::NegInt(n) => Some(*n as i32),
            _ => None,
        },
        None => None,
    };
    let duration_ms: Option<u64> = match find_member(members, "duration_ms") {
        Some(i) => match &members[i].1 {
            FactValue::PosInt(n) => Some(*n),
            _ => None,
        },
        None => None,
    };
    let artifacts: Option<Vec<String>> = match find_member(members, "artifacts") {
        Some(i) => match &members[i].1 {
            FactValue::Array(items) => {
                let list = collect_strings(items);
                if list.len() > 0 {
                    Some(list)
                } else {
                    None
                }
            },
            _ => None,
        },
        None => None,
    };
    AuditFields {
        stage: str_field(members, "stage"),
        suite: str_field(members, "suite"),
        cmd: str_field(members, "cmd"),
        rc,
        duration_ms,
        target: str_field(members, "target"),
        source: str_field(members, "source"),
        backup_path: str_field(members, "backup_path"),
        artifacts,
    }
}

/// Facts emitter that forwards to the product's structured audit records.
pub struct ProductFacts;

impl FactsEmitter for ProductFacts {
    type Record = FactsRecord;

    /// The audit record for a fact: its subsystem, event and decision, with the known
    /// fields taken from the fact's fields (all absent when those are not an object).
    fn emit(&self, subsystem: &str, event: &str, decision: &str, fields: &FactFields) -> (r: FactsRecord)
        ensures
            r.subsystem@ == subsystem@,
            r.event@ == event@,
            r.decision@ == decision@,
            fields_match(r.fields, *fields),
    {
        let af = match &fields.object {
            Some(members) => audit_fields(members),
            None => AuditFields {
                stage: None,
                suite: None,
                cmd: None,
                rc: None,
                duration_ms: None,
                target: None,
                source: None,
                backup_path: None,
                artifacts: None,
            },
        };
        FactsRecord {
            subsystem: subsystem.to_owned(),
            event: event.to_owned(),
            decision: decision.to_owned(),
            fields: af,
        }
    }
}

/// Audit sink adapter: forwards messages to the human-readable log at their level.
pub struct ProductAudit;

impl AuditSink for ProductAudit {
    type Line = AuditLine;

    fn log(&self, level: LogLevel, msg: &str) -> (r: AuditLine)
        ensures
            r.level == level,
            r.message@ == msg@,
    {
        AuditLine { level, message: msg.to_owned() }
    }
}

} // verus!
