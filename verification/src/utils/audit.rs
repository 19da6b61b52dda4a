//! Audit records for security-sensitive operations: where they are written and the
//! exact text of each record.

use vstd::prelude::*;
use crate::config::security::{AUDIT_LOG_SYSTEM, AUDIT_LOG_USER};
use crate::utils::text::{decimal, digit_char, i32_decimal, push_char, str_chars, string_from, u64_decimal};

verus! {

/// Audit logger for security-sensitive operations.
pub struct AuditLogger {
    pub log_path: String,
}

impl AuditLogger {
    /// The logger that writes to the system audit log.
    pub fn new() -> (r: Self)
        ensures
            r.log_path@ == AUDIT_LOG_SYSTEM@,
    {
        Self { log_path: AUDIT_LOG_SYSTEM.to_owned() }
    }
}

impl Default for AuditLogger {
    fn default() -> (r: Self)
        ensures
            r.log_path@ == AUDIT_LOG_SYSTEM@,
    {
        Self::new()
    }
}

/// The per-user audit log: `.oxidizr-arch-audit.log` in the home directory, or in `/tmp`
/// when no home is known.
pub open spec fn spec_user_log_path(home: Option<Seq<char>>) -> Seq<char> {
    let dir = match home {
        Some(h) => h,
        None => "/tmp"@,
    };
    dir + seq!['/'] + AUDIT_LOG_USER@
}

/// The per-user audit log path used when the system log cannot be written.
pub fn user_log_path(home: Option<&str>) -> (r: String)
    ensures
        r@ == spec_user_log_path(match home {
            Some(h) => Some(h@),
            None => None,
        }),
{
    let mut s = match home {
        Some(h) => h.to_owned(),
        None => "/tmp".to_owned(),
    };
    push_char(&mut s, '/');
    s.append(AUDIT_LOG_USER);
    s
}

/// The status word of an operation record.
pub open spec fn status_word(success: bool) -> Seq<char> {
    if success {
        "SUCCESS"@
    } else {
        "FAILURE"@
    }
}

/// One operation record:
/// `[<timestamp>] USER=<user> UID=<uid> OPERATION=<op> TARGET=<target> STATUS=<SUCCESS|FAILURE>` and a line feed.
pub open spec fn spec_operation_entry(
    timestamp: Seq<char>,
    user: Seq<char>,
    uid: u32,
    operation: Seq<char>,
    target: Seq<char>,
    success: bool,
) -> Seq<char> {
    seq!['['] + timestamp + "] USER="@ + user + " UID="@ + decimal(uid as nat) + " OPERATION="@ + operation
        + " TARGET="@ + target + " STATUS="@ + status_word(success) + seq!['\n']
}

/// The text of one operation record.
pub fn format_operation_entry(
    timestamp: &str,
    user: &str,
    uid: u32,
    operation: &str,
    target: &str,
    success: bool,
) -> (r: String)
    ensures
        r@ == spec_operation_entry(timestamp@, user@, uid, operation@, target@, success),
{
    let mut s = String::new();
    push_char(&mut s, '[');
    s.append(timestamp);
    s.append("] USER=");
    s.append(user);
    s.append(" UID=");
    let d = u64_decimal(uid as u64);
    let ds = string_from(d.as_slice());
    s.append(ds.as_str());
    s.append(" OPERATION=");
    s.append(operation);
    s.append(" TARGET=");
    s.append(target);
    s.append(" STATUS=");
    if success {
        s.append("SUCCESS");
    } else {
        s.append("FAILURE");
    }
    push_char(&mut s, '\n');
    assert(s@ =~= spec_operation_entry(timestamp@, user@, uid, operation@, target@, success));
    s
}

/// The JSON string escape of one character: backslash, double quote, line feed and
/// carriage return are escaped, every other character stays.
pub open spec fn escape_char(c: char) -> Seq<char> {
    if c == '\\' {
        seq!['\\', '\\']
    } else if c == '"' {
        seq!['\\', '"']
    } else if c == '\n' {
        seq!['\\', 'n']
    } else if c == '\r' {
        seq!['\\', 'r']
    } else {
        seq![c]
    }
}

/// The escape of a whole text, character by character.
pub open spec fn spec_json_escape(s: Seq<char>) -> Seq<char>
    decreases s.len(),
{
    if s.len() == 0 {
        seq![]
    } else {
        spec_json_escape(s.drop_last()) + escape_char(s.last())
    }
}

/// Escapes a text for a JSON string literal.
pub fn json_escape(s: &str) -> (r: String)
    ensures
        r@ == spec_json_escape(s@),
{
    let v = str_chars(s);
    let mut out = String::new();
    let mut i: usize = 0;
    while i < v.len()
        invariant
            i <= v@.len(),
            out@ == spec_json_escape(v@.take(i as int)),
        decreases v@.len() - i,
    {
        let c = v[i];
        if c == '\\' {
            push_char(&mut out, '\\');
            push_char(&mut out, '\\');
        } else if c == '"' {
            push_char(&mut out, '\\');
            push_char(&mut out, '"');
        } else if c == '\n' {
            push_char(&mut out, '\\');
            push_char(&mut out, 'n');
        } else if c == '\r' {
            push_char(&mut out, '\\');
            push_char(&mut out, 'r');
        } else {
            push_char(&mut out, c);
        }
        i = i + 1;
        assert(v@.take(i as int).drop_last() =~= v@.take(i - 1));
        assert(out@ =~= spec_json_escape(v@.take(i as int)));
    }
    assert(v@.take(v@.len() as int) =~= v@);
    out
}

/// The exit code field of a provenance record: the number, or `null`.
pub open spec fn exit_code_field(code: Option<i32>) -> Seq<char> {
    match code {
        Some(c) => crate::utils::text::decimal_int(c as int),
        None => "null"@,
    }
}

/// One provenance record, a JSON object on one line with the fields timestamp, component,
/// event, decision, inputs, outputs (each escaped) and exit_code.
pub open spec fn spec_provenance_entry(
    timestamp: Seq<char>,
    component: Seq<char>,
    event: Seq<char>,
    decision: Seq<char>,
    inputs: Seq<char>,
    outputs: Seq<char>,
    exit_code: Option<i32>,
) -> Seq<char> {
    "{\"timestamp\":\""@ + spec_json_escape(timestamp) + "\",\"component\":\""@ + spec_json_escape(
        component,
    ) + "\",\"event\":\""@ + spec_json_escape(event) + "\",\"decision\":\""@ + spec_json_escape(
        decision,
    ) + "\",\"inputs\":\""@ + spec_json_escape(inputs) + "\",\"outputs\":\""@ + spec_json_escape(
        outputs,
    ) + "\",\"exit_code\":"@ + exit_code_field(exit_code) + "}\n"@
}

/// No character of the text is a line feed.
pub open spec fn no_line_feed(s: Seq<char>) -> bool {
    forall|i: int| 0 <= i < s.len() ==> s[i] != '\n'
}

proof fn lemma_escape_no_line_feed(s: Seq<char>)
    ensures
        no_line_feed(spec_json_escape(s)),
    decreases s.len(),
{
    if s.len() > 0 {
        lemma_escape_no_line_feed(s.drop_last());
        let a = spec_json_escape(s.drop_last());
        let b = escape_char(s.last());
        assert(no_line_feed(b));
        assert(no_line_feed(a + b)) by {
            assert forall|i: int| 0 <= i < (a + b).len() implies (a + b)[i] != '\n' by {
                if i < a.len() {
                    assert((a + b)[i] == a[i]);
                } else {
                    assert((a + b)[i] == b[i - a.len()]);
                }
            }
        }
    }
}

proof fn lemma_decimal_no_line_feed(n: nat)
    ensures
        no_line_feed(decimal(n)),
    decreases n,
{
    if n >= 10 {
        lemma_decimal_no_line_feed(n / 10);
        assert(no_line_feed(decimal(n / 10).push(digit_char(n % 10)))) by {
            let a = decimal(n / 10);
            assert forall|i: int| 0 <= i < a.len() + 1 implies #[trigger] a.push(digit_char(n % 10))[i] != '\n' by {
                if i < a.len() {
                    assert(a.push(digit_char(n % 10))[i] == a[i]);
                }
            }
        }
    }
}

proof fn lemma_concat_no_line_feed(a: Seq<char>, b: Seq<char>)
    requires
        no_line_feed(a),
        no_line_feed(b),
    ensures
        no_line_feed(a + b),
{
    assert forall|i: int| 0 <= i < (a + b).len() implies (a + b)[i] != '\n' by {
        if i < a.len() {
            assert((a + b)[i] == a[i]);
        } else {
            assert((a + b)[i] == b[i - a.len()]);
        }
    }
}

/// Provenance records are JSON lines: whatever the field values, a record holds exactly
/// one line feed, at its end.
pub proof fn law_provenance_entry_is_one_line(
    timestamp: Seq<char>,
    component: Seq<char>,
    event: Seq<char>,
    decision: Seq<char>,
    inputs: Seq<char>,
    outputs: Seq<char>,
    exit_code: Option<i32>,
)
    ensures
        ({
            let e = spec_provenance_entry(timestamp, component, event, decision, inputs, outputs, exit_code);
            &&& e.len() > 0
            &&& e.last() == '\n'
            &&& no_line_feed(e.drop_last())
        }),
{
    reveal_strlit("{\"timestamp\":\"");
    reveal_strlit("\",\"component\":\"");
    reveal_strlit("\",\"event\":\"");
    reveal_strlit("\",\"decision\":\"");
    reveal_strlit("\",\"inputs\":\"");
    reveal_strlit("\",\"outputs\":\"");
    reveal_strlit("\",\"exit_code\":");
    reveal_strlit("}\n");
    reveal_strlit("null");
    lemma_escape_no_line_feed(timestamp);
    lemma_escape_no_line_feed(component);
    lemma_escape_no_line_feed(event);
    lemma_escape_no_line_feed(decision);
    lemma_escape_no_line_feed(inputs);
    lemma_escape_no_line_feed(outputs);
    let code = exit_code_field(exit_code);
    match exit_code {
        Some(c) => {
            lemma_decimal_no_line_feed(if c < 0 { (-c) as nat } else { c as nat });
            if c < 0 {
                lemma_concat_no_line_feed(seq!['-'], decimal((-c) as nat));
            }
        },
        None => {},
    }
    assert(no_line_feed(code));
    let p1 = "{\"timestamp\":\""@ + spec_json_escape(timestamp);
    lemma_concat_no_line_feed("{\"timestamp\":\""@, spec_json_escape(timestamp));
    let p2 = p1 + "\",\"component\":\""@;
    lemma_concat_no_line_feed(p1, "\",\"component\":\""@);
    let p3 = p2 + spec_json_escape(component);
    lemma_concat_no_line_feed(p2, spec_json_escape(component));
    let p4 = p3 + "\",\"event\":\""@;
    lemma_concat_no_line_feed(p3, "\",\"event\":\""@);
    let p5 = p4 + spec_json_escape(event);
    lemma_concat_no_line_feed(p4, spec_json_escape(event));
    let p6 = p5 + "\",\"decision\":\""@;
    lemma_concat_no_line_feed(p5, "\",\"decision\":\""@);
    let p7 = p6 + spec_json_escape(decision);
    lemma_concat_no_line_feed(p6, spec_json_escape(decision));
    let p8 = p7 + "\",\"inputs\":\""@;
    lemma_concat_no_line_feed(p7, "\",\"inputs\":\""@);
    let p9 = p8 + spec_json_escape(inputs);
    lemma_concat_no_line_feed(p8, spec_json_escape(inputs));
    let p10 = p9 + "\",\"outputs\":\""@;
    lemma_concat_no_line_feed(p9, "\",\"outputs\":\""@);
    let p11 = p10 + spec_json_escape(outputs);
    lemma_concat_no_line_feed(p10, spec_json_escape(outputs));
    let p12 = p11 + "\",\"exit_code\":"@;
    lemma_concat_no_line_feed(p11, "\",\"exit_code\":"@);
    let p13 = p12 + code;
    lemma_concat_no_line_feed(p12, code);
    let p14 = p13 + seq!['}'];
    lemma_concat_no_line_feed(p13, seq!['}']);
    let e = spec_provenance_entry(timestamp, component, event, decision, inputs, outputs, exit_code);
    assert(e =~= p14.push('\n'));
    assert(e.drop_last() =~= p14);
}

/// The text of one provenance record.
pub fn format_provenance_entry(
    timestamp: &str,
    component: &str,
    event: &str,
    decision: &str,
    inputs: &str,
    outputs: &str,
    exit_code: Option<i32>,
) -> (r: String)
    ensures
        r@ == spec_provenance_entry(timestamp@, component@, event@, decision@, inputs@, outputs@, exit_code),
{
    let mut s = "{\"timestamp\":\"".to_owned();
    s.append(json_escape(timestamp).as_str());
    s.append("\",\"component\":\"");
    s.append(json_escape(component).as_str());
    s.append("\",\"event\":\"");
    s.append(json_escape(event).as_str());
    s.append("\",\"decision\":\"");
    s.append(json_escape(decision).as_str());
    s.append("\",\"inputs\":\"");
    s.append(json_escape(inputs).as_str());
    s.append("\",\"outputs\":\"");
    s.append(json_escape(outputs).as_str());
    s.append("\",\"exit_code\":");
    match exit_code {
        Some(c) => {
            let d = i32_decimal(c);
            s.append(string_from(d.as_slice()).as_str());
        },
        None => {
            s.append("null");
        },
    }
    s.append("}\n");
    s
}

} // verus!
