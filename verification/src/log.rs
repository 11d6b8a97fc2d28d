//! Journal records: syslog priorities, the entries read from the journal,
//! the filters applied to it and the human-readable form of an entry.
//!
//! Reading the journal is the caller's business; this module turns the
//! field/value pairs of a journal record into a `LogEntry`, and a
//! `LogFilter` into the field matches that the journal is given.
use vstd::prelude::*;
use vstd::string::*;
use crate::text::{decimal, lemma_parse_decimal, parse_i32, parse_i32_spec, parse_u32, parse_u64, parse_unsigned, push_decimal, equals};

verus! {

/// Syslog priority levels, most severe first.
#[derive(Debug, Clone, Copy, PartialEq, Eq, Structural)]
pub enum LogPriority {
    Emergency,
    Alert,
    Critical,
    Error,
    Warning,
    Notice,
    Info,
    Debug,
}

impl LogPriority {
    /// The syslog number of the level (0 for `Emergency` .. 7 for `Debug`).
    pub open spec fn rank(self) -> int {
        match self {
            LogPriority::Emergency => 0,
            LogPriority::Alert => 1,
            LogPriority::Critical => 2,
            LogPriority::Error => 3,
            LogPriority::Warning => 4,
            LogPriority::Notice => 5,
            LogPriority::Info => 6,
            LogPriority::Debug => 7,
        }
    }

    /// The level that a syslog number denotes; every number outside 0..=6 is `Debug`.
    pub open spec fn from_number(n: int) -> LogPriority {
        if n == 0 {
            LogPriority::Emergency
        } else if n == 1 {
            LogPriority::Alert
        } else if n == 2 {
            LogPriority::Critical
        } else if n == 3 {
            LogPriority::Error
        } else if n == 4 {
            LogPriority::Warning
        } else if n == 5 {
            LogPriority::Notice
        } else if n == 6 {
            LogPriority::Info
        } else {
            LogPriority::Debug
        }
    }

    /// The short label used in the formatted form of an entry.
    pub open spec fn label_spec(self) -> Seq<char> {
        match self {
            LogPriority::Emergency => "EMERG"@,
            LogPriority::Alert => "ALERT"@,
            LogPriority::Critical => "CRIT"@,
            LogPriority::Error => "ERROR"@,
            LogPriority::Warning => "WARN"@,
            LogPriority::Notice => "NOTICE"@,
            LogPriority::Info => "INFO"@,
            LogPriority::Debug => "DEBUG"@,
        }
    }

    /// The syslog number of the level.
    pub fn value(&self) -> (r: i32)
        ensures
            r as int == self.rank(),
    {
        match self {
            LogPriority::Emergency => 0,
            LogPriority::Alert => 1,
            LogPriority::Critical => 2,
            LogPriority::Error => 3,
            LogPriority::Warning => 4,
            LogPriority::Notice => 5,
            LogPriority::Info => 6,
            LogPriority::Debug => 7,
        }
    }

    /// The short label used in the formatted form of an entry.
    pub fn label(&self) -> (r: &'static str)
        ensures
            r@ == self.label_spec(),
    {
        match self {
            LogPriority::Emergency => "EMERG",
            LogPriority::Alert => "ALERT",
            LogPriority::Critical => "CRIT",
            LogPriority::Error => "ERROR",
            LogPriority::Warning => "WARN",
            LogPriority::Notice => "NOTICE",
            LogPriority::Info => "INFO",
            LogPriority::Debug => "DEBUG",
        }
    }
}

impl From<i32> for LogPriority {
    fn from(priority: i32) -> (r: Self) {
        if priority == 0 {
            LogPriority::Emergency
        } else if priority == 1 {
            LogPriority::Alert
        } else if priority == 2 {
            LogPriority::Critical
        } else if priority == 3 {
            LogPriority::Error
        } else if priority == 4 {
            LogPriority::Warning
        } else if priority == 5 {
            LogPriority::Notice
        } else if priority == 6 {
            LogPriority::Info
        } else {
            LogPriority::Debug
        }
    }
}

impl vstd::std_specs::convert::FromSpecImpl<i32> for LogPriority {
    open spec fn obeys_from_spec() -> bool {
        true
    }

    open spec fn from_spec(v: i32) -> LogPriority {
        LogPriority::from_number(v as int)
    }
}

/// Every level is read back from its own syslog number.
pub proof fn lemma_priority_number_round_trip(p: LogPriority)
    ensures
        LogPriority::from_number(p.rank()) == p,
        0 <= p.rank() <= 7,
{
}


/// The field/value pairs of a journal record, as strings.
pub open spec fn pairs_view(s: Seq<(String, String)>) -> Seq<(Seq<char>, Seq<char>)> {
    s.map_values(|p: (String, String)| (p.0@, p.1@))
}

/// The value of field `k` in a record: where a field occurs more than once the
/// last occurrence counts, as when the pairs are inserted into a map in order.
pub open spec fn record_get(rec: Seq<(Seq<char>, Seq<char>)>, k: Seq<char>) -> Option<Seq<char>>
    decreases rec.len(),
{
    if rec.len() == 0 {
        None
    } else if rec.last().0 == k {
        Some(rec.last().1)
    } else {
        record_get(rec.drop_last(), k)
    }
}

/// No field name occurs twice.
pub open spec fn distinct_keys(s: Seq<(Seq<char>, Seq<char>)>) -> bool {
    forall|i: int, j: int| 0 <= i < s.len() && 0 <= j < s.len() && i != j ==> #[trigger] s[i].0 != #[trigger] s[j].0
}

/// The field `k` holds the value `v`.
pub open spec fn has_field(s: Seq<(Seq<char>, Seq<char>)>, k: Seq<char>, v: Seq<char>) -> bool {
    exists|i: int| 0 <= i < s.len() && #[trigger] s[i] == (k, v)
}

/// The priority that a record gives: its `PRIORITY` field read as an `i32`,
/// or `Info` where the field is missing or is no number.
pub open spec fn record_priority(rec: Seq<(Seq<char>, Seq<char>)>) -> LogPriority {
    match record_get(rec, "PRIORITY"@) {
        Some(p) => match parse_i32_spec(p) {
            Some(n) => LogPriority::from_number(n),
            None => LogPriority::Info,
        },
        None => LogPriority::Info,
    }
}

/// An optional string field taken over as it stands.
pub open spec fn opt_view(o: Option<String>) -> Option<Seq<char>> {
    match o {
        Some(s) => Some(s@),
        None => None,
    }
}

/// A numeric field read with `FromStr`; `None` where missing or no number.
pub open spec fn record_number(rec: Seq<(Seq<char>, Seq<char>)>, k: Seq<char>, max: nat) -> Option<nat> {
    match record_get(rec, k) {
        Some(v) => parse_unsigned(v, max),
        None => None,
    }
}

/// Log entry read from the journal.
#[derive(Debug, Clone)]
pub struct LogEntry {
    pub timestamp: u64,
    pub priority: LogPriority,
    pub message: String,
    pub unit: Option<String>,
    pub pid: Option<u32>,
    pub hostname: Option<String>,
    pub syslog_identifier: Option<String>,
    /// Every field of the record, each name once.
    pub fields: Vec<(String, String)>,
}

/// `e` is the entry that the journal record `rec` gives.
pub open spec fn entry_of_record(e: LogEntry, rec: Seq<(Seq<char>, Seq<char>)>) -> bool {
    &&& distinct_keys(pairs_view(e.fields@))
    &&& forall|k: Seq<char>, v: Seq<char>|
        #[trigger] has_field(pairs_view(e.fields@), k, v) <==> record_get(rec, k) == Some(v)
    &&& e.message@ == match record_get(rec, "MESSAGE"@) {
        Some(m) => m,
        None => "<no message>"@,
    }
    &&& e.priority == record_priority(rec)
    &&& opt_view(e.unit) == record_get(rec, "_SYSTEMD_UNIT"@)
    &&& opt_view(e.hostname) == record_get(rec, "_HOSTNAME"@)
    &&& opt_view(e.syslog_identifier) == record_get(rec, "SYSLOG_IDENTIFIER"@)
    &&& match e.pid {
        Some(p) => record_number(rec, "_PID"@, u32::MAX as nat) == Some(p as nat),
        None => record_number(rec, "_PID"@, u32::MAX as nat) is None,
    }
    &&& e.timestamp as nat == match record_number(rec, "__REALTIME_TIMESTAMP"@, u64::MAX as nat) {
        Some(t) => t,
        None => 0,
    }
}

/// The value of field `key` in `record` (its last occurrence).
fn record_lookup<'a>(record: &'a Vec<(String, String)>, key: &str) -> (r: Option<&'a String>)
    ensures
        match r {
            Some(v) => record_get(pairs_view(record@), key@) == Some(v@),
            None => record_get(pairs_view(record@), key@) is None,
        },
{
    let ghost rv = pairs_view(record@);
    let mut j: usize = record.len();
    assert(rv.take(j as int) =~= rv);
    while j > 0
        invariant
            j <= record@.len(),
            rv == pairs_view(record@),
            record_get(rv, key@) == record_get(rv.take(j as int), key@),
        decreases j,
    {
        let ghost t = rv.take(j as int);
        assert(t.last() == rv[j - 1]);
        assert(t.drop_last() =~= rv.take(j - 1));
        if equals(record[j - 1].0.as_str(), key) {
            return Some(&record[j - 1].1);
        }
        j = j - 1;
    }
    None
}

/// With distinct names, replacing the pair at `j` by one with the same name
/// changes the value of that name and nothing else.
proof fn lemma_has_field_update(
    s: Seq<(Seq<char>, Seq<char>)>,
    j: int,
    k: Seq<char>,
    v: Seq<char>,
    k2: Seq<char>,
    v2: Seq<char>,
)
    requires
        distinct_keys(s),
        0 <= j < s.len(),
        s[j].0 == k,
    ensures
        distinct_keys(s.update(j, (k, v))),
        has_field(s.update(j, (k, v)), k2, v2) <==> (if k2 == k {
            v2 == v
        } else {
            has_field(s, k2, v2)
        }),
{
    let t = s.update(j, (k, v));
    assert forall|a: int, b: int| 0 <= a < t.len() && 0 <= b < t.len() && a != b implies #[trigger] t[a].0 != #[trigger] t[b].0 by {
        assert(t[a].0 == s[a].0);
        assert(t[b].0 == s[b].0);
    }
    if k2 == k {
        if has_field(t, k2, v2) {
            let i = choose|i: int| 0 <= i < t.len() && #[trigger] t[i] == (k2, v2);
            if i != j {
                assert(s[i].0 == s[j].0);
            }
        }
        if v2 == v {
            assert(t[j] == (k2, v2));
        }
    } else {
        if has_field(t, k2, v2) {
            let i = choose|i: int| 0 <= i < t.len() && #[trigger] t[i] == (k2, v2);
            assert(s[i] == t[i]);
        }
        if has_field(s, k2, v2) {
            let i = choose|i: int| 0 <= i < s.len() && #[trigger] s[i] == (k2, v2);
            assert(t[i] == s[i]);
        }
    }
}

/// The position of the pair named `key`, if any.
fn find_key(fields: &Vec<(String, String)>, key: &String) -> (r: Option<usize>)
    ensures
        match r {
            Some(j) => j < fields@.len() && pairs_view(fields@)[j as int].0 == key@,
            None => forall|a: int| 0 <= a < fields@.len() ==> (#[trigger] pairs_view(fields@)[a]).0 != key@,
        },
{
    let mut j: usize = 0;
    while j < fields.len()
        invariant
            j <= fields@.len(),
            forall|a: int| 0 <= a < j ==> (#[trigger] pairs_view(fields@)[a]).0 != key@,
        decreases fields@.len() - j,
    {
        if fields[j].0 == *key {
            return Some(j);
        }
        j = j + 1;
    }
    None
}

/// Builds the field list of a record: each name once, with its last value.
fn collect_fields(record: &Vec<(String, String)>) -> (r: Vec<(String, String)>)
    ensures
        distinct_keys(pairs_view(r@)),
        forall|k: Seq<char>, v: Seq<char>|
            #[trigger] has_field(pairs_view(r@), k, v) <==> record_get(pairs_view(record@), k)
                == Some(v),
{
    let ghost rv = pairs_view(record@);
    let mut fields: Vec<(String, String)> = Vec::new();
    let mut i: usize = 0;
    while i < record.len()
        invariant
            i <= record@.len(),
            rv == pairs_view(record@),
            distinct_keys(pairs_view(fields@)),
            forall|k: Seq<char>, v: Seq<char>|
                #[trigger] has_field(pairs_view(fields@), k, v) <==> record_get(
                    rv.take(i as int),
                    k,
                ) == Some(v),
        decreases record@.len() - i,
    {
        let key = record[i].0.clone();
        let value = record[i].1.clone();
        let ghost old_fields = pairs_view(fields@);
        proof {
            let t = rv.take(i + 1);
            assert(t.drop_last() =~= rv.take(i as int));
            assert(t.last() == (key@, value@));
        }
        match find_key(&fields, &key) {
            Some(j) => {
                proof {
                    assert(pairs_view(fields@.update(j as int, (key, value))) =~= old_fields.update(
                        j as int,
                        (key@, value@),
                    ));
                    assert forall|k: Seq<char>, v: Seq<char>|
                        #[trigger] has_field(pairs_view(fields@.update(j as int, (key, value))), k, v)
                            == (record_get(rv.take(i + 1), k) == Some(v)) by {
                        lemma_has_field_update(old_fields, j as int, key@, value@, k, v);
                    }
                    lemma_has_field_update(old_fields, j as int, key@, value@, key@, value@);
                }
                fields.set(j, (key, value));
            },
            None => {
            let ghost pair = (key@, value@);
            fields.push((key, value));
            proof {
                let nf = pairs_view(fields@);
                assert(nf =~= old_fields.push(pair));
                assert forall|a: int, b: int| 0 <= a < nf.len() && 0 <= b < nf.len() && a != b implies #[trigger] nf[a].0 != #[trigger] nf[b].0 by {
                    if a < old_fields.len() && b < old_fields.len() {
                        assert(nf[a] == old_fields[a]);
                        assert(nf[b] == old_fields[b]);
                    }
                }
                assert forall|k: Seq<char>, v: Seq<char>|
                    #[trigger] has_field(nf, k, v) <==> record_get(rv.take(i + 1), k) == Some(v) by {
                    if has_field(nf, k, v) {
                        let a = choose|a: int| 0 <= a < nf.len() && #[trigger] nf[a] == (k, v);
                        if a < old_fields.len() {
                            assert(old_fields[a] == (k, v));
                            assert(has_field(old_fields, k, v));
                            assert(old_fields[a].0 != key@);
                            assert(record_get(rv.take(i as int), k) == Some(v));
                        }
                    }
                    if record_get(rv.take(i + 1), k) == Some(v) {
                        if k == key@ {
                            assert(nf[old_fields.len() as int] == (k, v));
                        } else {
                            assert(record_get(rv.take(i as int), k) == Some(v));
                            assert(has_field(old_fields, k, v));
                            let a = choose|a: int| 0 <= a < old_fields.len() && #[trigger] old_fields[a] == (k, v);
                            assert(nf[a] == (k, v));
                        }
                    }
                    if k == key@ && has_field(old_fields, k, v) {
                        let a = choose|a: int| 0 <= a < old_fields.len() && #[trigger] old_fields[a] == (k, v);
                        assert(old_fields[a].0 == key@);
                    }
                }
            }
            },
        }
        i = i + 1;
    }
    assert(rv.take(i as int) =~= rv);
    fields
}

impl LogEntry {
    /// The entry that a journal record gives: the record's fields, each name
    /// once with its last value, and the common fields read out of them.
    pub fn from_record(record: Vec<(String, String)>) -> (r: LogEntry)
        ensures
            entry_of_record(r, pairs_view(record@)),
    {
        let fields = collect_fields(&record);
        let message = match record_lookup(&record, "MESSAGE") {
            Some(m) => m.clone(),
            None => String::from_str("<no message>"),
        };
        let priority = match record_lookup(&record, "PRIORITY") {
            Some(p) => match parse_i32(p.as_str()) {
                Some(n) => LogPriority::from(n),
                None => LogPriority::Info,
            },
            None => LogPriority::Info,
        };
        let unit = match record_lookup(&record, "_SYSTEMD_UNIT") {
            Some(u) => Some(u.clone()),
            None => None,
        };
        let pid = match record_lookup(&record, "_PID") {
            Some(p) => parse_u32(p.as_str()),
            None => None,
        };
        let hostname = match record_lookup(&record, "_HOSTNAME") {
            Some(h) => Some(h.clone()),
            None => None,
        };
        let syslog_identifier = match record_lookup(&record, "SYSLOG_IDENTIFIER") {
            Some(s) => Some(s.clone()),
            None => None,
        };
        let timestamp = match record_lookup(&record, "__REALTIME_TIMESTAMP") {
            Some(t) => match parse_u64(t.as_str()) {
                Some(v) => v,
                None => 0,
            },
            None => 0,
        };
        LogEntry { timestamp, priority, message, unit, pid, hostname, syslog_identifier, fields }
    }
}

/// The bracketed unit part of the formatted form (empty where there is no unit).
pub open spec fn unit_part(unit: Option<String>) -> Seq<char> {
    match unit {
        Some(u) => "["@ + u@ + "]"@,
        None => Seq::empty(),
    }
}

/// The human-readable form of an entry: timestamp, priority label, unit and
/// message, separated by single spaces.
pub open spec fn format_spec(e: LogEntry) -> Seq<char> {
    decimal(e.timestamp as nat) + " "@ + e.priority.label_spec() + " "@ + unit_part(e.unit) + " "@
        + e.message@
}

impl LogEntry {
    /// Format as human-readable string.
    pub fn format(&self) -> (r: String)
        ensures
            r@ == format_spec(*self),
    {
        let mut out = String::new();
        push_decimal(&mut out, self.timestamp);
        out.append(" ");
        out.append(self.priority.label());
        out.append(" ");
        match &self.unit {
            Some(u) => {
                out.append("[");
                out.append(u.as_str());
                out.append("]");
            },
            None => {},
        }
        out.append(" ");
        out.append(self.message.as_str());
        proof {
            assert(out@ =~= format_spec(*self));
        }
        out
    }

    /// Whether the entry has priority `Error` or a more severe one.
    pub fn is_error(&self) -> (r: bool)
        ensures
            r == (self.priority.rank() <= LogPriority::Error.rank()),
    {
        self.priority.value() <= LogPriority::Error.value()
    }

    /// Whether the entry has priority `Warning` or a more severe one.
    pub fn is_warning(&self) -> (r: bool)
        ensures
            r == (self.priority.rank() <= LogPriority::Warning.rank()),
    {
        self.priority.value() <= LogPriority::Warning.value()
    }

    /// The entries of records read newest first, put in time order (oldest first).
    pub fn entries_oldest_first(records_newest_first: Vec<Vec<(String, String)>>) -> (r: Vec<
        LogEntry,
    >)
        ensures
            r@.len() == records_newest_first@.len(),
            forall|i: int|
                0 <= i < r@.len() ==> entry_of_record(
                    #[trigger] r@[i],
                    pairs_view(records_newest_first@[records_newest_first@.len() - 1 - i]@),
                ),
    {
        let ghost orig = records_newest_first@;
        let mut rest = records_newest_first;
        let mut out: Vec<LogEntry> = Vec::new();
        while rest.len() > 0
            invariant
                rest@ == orig.take(rest@.len() as int),
                rest@.len() <= orig.len(),
                out@.len() + rest@.len() == orig.len(),
                forall|i: int|
                    0 <= i < out@.len() ==> entry_of_record(
                        #[trigger] out@[i],
                        pairs_view(orig[orig.len() - 1 - i]@),
                    ),
            decreases rest@.len(),
        {
            let ghost before = rest@;
            let rec = rest.pop().unwrap();
            proof {
                assert(rest@ =~= orig.take(rest@.len() as int));
                assert(rec == orig[rest@.len() as int]);
            }
            let e = LogEntry::from_record(rec);
            out.push(e);
        }
        out
    }
}

/// Log filter criteria.
#[derive(Debug, Clone)]
pub struct LogFilter {
    pub unit: Option<String>,
    pub priority: Option<LogPriority>,
    pub since: Option<u64>,
    pub until: Option<u64>,
    pub identifier: Option<String>,
}

impl Default for LogFilter {
    fn default() -> (r: Self)
        ensures
            r.unit is None,
            r.priority is None,
            r.since is None,
            r.until is None,
            r.identifier is None,
    {
        LogFilter { unit: None, priority: None, since: None, until: None, identifier: None }
    }
}

/// The journal field that holds a priority: its syslog number in decimal.
pub open spec fn priority_field_value(p: LogPriority) -> Seq<char> {
    decimal(p.rank() as nat)
}

/// One `PRIORITY` match for each syslog number from 0 (most severe) up to `n`.
pub open spec fn priority_matches(n: nat) -> Seq<(Seq<char>, Seq<char>)> {
    Seq::new(n + 1, |k: int| ("PRIORITY"@, decimal(k as nat)))
}

/// The matches for the filter's unit and syslog identifier, each where set.
pub open spec fn identity_matches_spec(f: LogFilter) -> Seq<(Seq<char>, Seq<char>)> {
    (match f.unit {
        Some(u) => seq![("_SYSTEMD_UNIT"@, u@)],
        None => Seq::empty(),
    }) + (match f.identifier {
        Some(i) => seq![("SYSLOG_IDENTIFIER"@, i@)],
        None => Seq::empty(),
    })
}

/// The field matches that a filter puts on the journal, in the order they are
/// added: the unit, the syslog identifier and the priority, each where set.
/// The journal joins matches of different fields by "and", so the matches
/// select the unit, the identifier and exactly the filter's priority.
pub open spec fn journal_matches_spec(f: LogFilter) -> Seq<(Seq<char>, Seq<char>)> {
    identity_matches_spec(f) + (match f.priority {
        Some(p) => seq![("PRIORITY"@, priority_field_value(p))],
        None => Seq::empty(),
    })
}

/// The matches that select the filter's priority and every more severe one:
/// the unit and identifier matches, then one `PRIORITY` match for each
/// syslog number from 0 up to the filter's.  The journal joins matches of
/// one field by "or", so these select a priority at least as severe as the
/// filter's.
pub open spec fn journal_matches_at_or_above_spec(f: LogFilter) -> Seq<(Seq<char>, Seq<char>)> {
    identity_matches_spec(f) + (match f.priority {
        Some(p) => priority_matches(p.rank() as nat),
        None => Seq::empty(),
    })
}

/// A realtime timestamp (microseconds) lies in the filter's time window,
/// whose bounds are whole seconds and inclusive.
pub open spec fn in_window(f: LogFilter, ts_usec: u64) -> bool {
    &&& f.since matches Some(s) ==> ts_usec / 1_000_000 >= s
    &&& f.until matches Some(u) ==> ts_usec / 1_000_000 <= u
}

/// The filter, read as "this priority or worse", selects the entry: same
/// unit and identifier where set, a priority at least as severe as the
/// filter's, and a time in its window (what `journal_matches_at_or_above`
/// and `start_position` select, checked entry by entry).
pub open spec fn admits_spec(f: LogFilter, e: LogEntry) -> bool {
    &&& f.unit matches Some(u) ==> opt_view(e.unit) == Some(u@)
    &&& f.identifier matches Some(i) ==> opt_view(e.syslog_identifier) == Some(i@)
    &&& f.priority matches Some(p) ==> e.priority.rank() <= p.rank()
    &&& in_window(f, e.timestamp)
}

/// Where reading the journal starts for a filter.
#[derive(Debug, Clone, Copy, PartialEq, Eq)]
pub enum JournalStart {
    /// At the oldest entry.
    Head,
    /// At the first entry at or after this realtime timestamp (microseconds).
    Realtime { usec: u64 },
}

/// Two optional strings hold the same text.
fn same_opt(a: &Option<String>, b: &Option<String>) -> (r: bool)
    ensures
        r == (opt_view(*a) == opt_view(*b)),
{
    match (a, b) {
        (Some(x), Some(y)) => *x == *y,
        (None, None) => true,
        _ => false,
    }
}

impl LogFilter {
    /// The unit and identifier matches of the filter.
    fn identity_matches(&self) -> (r: Vec<(String, String)>)
        ensures
            pairs_view(r@) == identity_matches_spec(*self),
    {
        let mut out: Vec<(String, String)> = Vec::new();
        match &self.unit {
            Some(u) => out.push((String::from_str("_SYSTEMD_UNIT"), u.clone())),
            None => {},
        }
        match &self.identifier {
            Some(i) => out.push((String::from_str("SYSLOG_IDENTIFIER"), i.clone())),
            None => {},
        }
        proof {
            assert(pairs_view(out@) =~= identity_matches_spec(*self));
        }
        out
    }

    /// The field matches to add to the journal for this filter: unit,
    /// identifier and exactly the filter's priority.  The time window is not
    /// a match; it is applied by where reading starts (`start_position`) and
    /// by `admits`.
    pub fn journal_matches(&self) -> (r: Vec<(String, String)>)
        ensures
            pairs_view(r@) == journal_matches_spec(*self),
    {
        let mut out = self.identity_matches();
        let ghost before = pairs_view(out@);
        match &self.priority {
            Some(p) => {
                let mut value = String::new();
                push_decimal(&mut value, p.value() as u64);
                out.push((String::from_str("PRIORITY"), value));
                proof {
                    assert(pairs_view(out@) =~= before.push(("PRIORITY"@, priority_field_value(*p))));
                }
            },
            None => {},
        }
        proof {
            assert(pairs_view(out@) =~= journal_matches_spec(*self));
        }
        out
    }

    /// The field matches that select the filter's unit and identifier and
    /// its priority or any more severe one.
    pub fn journal_matches_at_or_above(&self) -> (r: Vec<(String, String)>)
        ensures
            pairs_view(r@) == journal_matches_at_or_above_spec(*self),
    {
        let mut out = self.identity_matches();
        let ghost after_ident = pairs_view(out@);
        match &self.priority {
            Some(p) => {
                let v = p.value();
                let mut k: i32 = 0;
                while k <= v
                    invariant
                        0 <= k <= v + 1,
                        v as int == p.rank(),
                        0 <= v <= 7,
                        pairs_view(out@) =~= after_ident + priority_matches(v as nat).take(k as int),
                    decreases v + 1 - k,
                {
                    let mut value = String::new();
                    push_decimal(&mut value, k as u64);
                    let ghost before = pairs_view(out@);
                    out.push((String::from_str("PRIORITY"), value));
                    proof {
                        assert(priority_matches(v as nat).take(k + 1) =~= priority_matches(
                            v as nat,
                        ).take(k as int).push(("PRIORITY"@, decimal(k as nat))));
                        assert(pairs_view(out@) =~= before.push(("PRIORITY"@, decimal(k as nat))));
                    }
                    k = k + 1;
                }
                proof {
                    assert(priority_matches(v as nat).take(v + 1) =~= priority_matches(v as nat));
                }
            },
            None => {},
        }
        proof {
            assert(pairs_view(out@) =~= journal_matches_at_or_above_spec(*self));
        }
        out
    }

    /// Where reading starts: at the start of the window (`since`, in
    /// seconds, as microseconds; the latest timestamp where that does not
    /// fit) or, without a lower bound, at the oldest entry.
    pub fn start_position(&self) -> (r: JournalStart)
        ensures
            match self.since {
                Some(s) => r == JournalStart::Realtime {
                    usec: if s <= u64::MAX / 1_000_000 {
                        (s * 1_000_000) as u64
                    } else {
                        u64::MAX
                    },
                },
                None => r == JournalStart::Head,
            },
    {
        match self.since {
            Some(s) => {
                let usec = if s <= u64::MAX / 1_000_000 {
                    s * 1_000_000
                } else {
                    u64::MAX
                };
                JournalStart::Realtime { usec }
            },
            None => JournalStart::Head,
        }
    }

    /// Whether the filter, read as "this priority or worse", selects an entry.
    pub fn admits(&self, e: &LogEntry) -> (r: bool)
        ensures
            r == admits_spec(*self, *e),
            r <==> {
                &&& self.unit matches Some(u) ==> (e.unit matches Some(x) && x@ == u@)
                &&& self.identifier matches Some(i) ==> (e.syslog_identifier matches Some(x)
                    && x@ == i@)
                &&& self.priority matches Some(p) ==> e.priority.rank() <= p.rank()
                &&& self.since matches Some(s) ==> e.timestamp / 1_000_000 >= s
                &&& self.until matches Some(u) ==> e.timestamp / 1_000_000 <= u
            },
    {
        let unit_ok = match &self.unit {
            Some(_) => same_opt(&self.unit, &e.unit),
            None => true,
        };
        let ident_ok = match &self.identifier {
            Some(_) => same_opt(&self.identifier, &e.syslog_identifier),
            None => true,
        };
        let prio_ok = match &self.priority {
            Some(p) => e.priority.value() <= p.value(),
            None => true,
        };
        let secs = e.timestamp / 1_000_000;
        let since_ok = match self.since {
            Some(s) => secs >= s,
            None => true,
        };
        let until_ok = match self.until {
            Some(u) => secs <= u,
            None => true,
        };
        unit_ok && ident_ok && prio_ok && since_ok && until_ok
    }

    /// The filter that selects the entries of one unit.
    pub fn for_unit(unit: &str) -> (r: LogFilter)
        ensures
            r.unit matches Some(u) && u@ == unit@,
            r.priority is None,
            r.since is None,
            r.until is None,
            r.identifier is None,
    {
        LogFilter {
            unit: Some(String::from_str(unit)),
            priority: None,
            since: None,
            until: None,
            identifier: None,
        }
    }

    /// The filter for entries of priority `Critical` or more severe in the
    /// last `lookback_minutes` minutes before `now` (seconds since the epoch).
    pub fn critical_since(now: u64, lookback_minutes: u64) -> (r: LogFilter)
        requires
            lookback_minutes * 60 <= now,
        ensures
            r.priority == Some(LogPriority::Critical),
            r.since == Some((now - lookback_minutes * 60) as u64),
            r.unit is None,
            r.until is None,
            r.identifier is None,
    {
        LogFilter {
            unit: None,
            priority: Some(LogPriority::Critical),
            since: Some(now - lookback_minutes * 60),
            until: None,
            identifier: None,
        }
    }
}

/// The filter for recent critical entries selects exactly the entries of
/// priority `Critical`, `Alert` or `Emergency` logged at or after the start
/// of the lookback window; its matches at or above its priority are one
/// `PRIORITY` match for each of these three levels.
pub proof fn lemma_critical_filter_selects(now: u64, lookback_minutes: u64, f: LogFilter, e: LogEntry)
    requires
        lookback_minutes * 60 <= now,
        f.priority == Some(LogPriority::Critical),
        f.since == Some((now - lookback_minutes * 60) as u64),
        f.unit is None,
        f.until is None,
        f.identifier is None,
    ensures
        admits_spec(f, e) <==> (e.priority.rank() <= LogPriority::Critical.rank() && e.timestamp
            / 1_000_000 >= now - lookback_minutes * 60),
        journal_matches_at_or_above_spec(f) == priority_matches(2),
{
    assert(journal_matches_at_or_above_spec(f) =~= priority_matches(2));
}

/// What a filter selects, field by field: an entry it admits has the
/// filter's unit and syslog identifier (each where the filter sets one), a
/// priority at least as severe as the filter's, and a time (in whole
/// seconds) within the filter's bounds; an entry that has all of these is
/// admitted.
pub proof fn lemma_admits_fields(f: LogFilter, e: LogEntry)
    ensures
        admits_spec(f, e) ==> (f.unit matches Some(u) ==> (e.unit matches Some(x) && x@ == u@)),
        admits_spec(f, e) ==> (f.identifier matches Some(i) ==> (
        e.syslog_identifier matches Some(x) && x@ == i@)),
        admits_spec(f, e) ==> (f.priority matches Some(p) ==> e.priority.rank() <= p.rank()),
        admits_spec(f, e) ==> (f.since matches Some(s) ==> e.timestamp >= s * 1_000_000),
        admits_spec(f, e) ==> (f.until matches Some(u) ==> e.timestamp < (u + 1) * 1_000_000),
        (f.unit matches Some(u) ==> (e.unit matches Some(x) && x@ == u@)) && (
        f.identifier matches Some(i) ==> (e.syslog_identifier matches Some(x) && x@ == i@)) && (
        f.priority matches Some(p) ==> e.priority.rank() <= p.rank()) && (f.since matches Some(s)
            ==> e.timestamp >= s * 1_000_000) && (f.until matches Some(u) ==> e.timestamp < (u + 1)
            * 1_000_000) ==> admits_spec(f, e),
{
}

/// A priority that a filter writes into the journal reads back as the same
/// priority when a record carrying it is turned into an entry.
pub proof fn lemma_priority_field_round_trip(p: LogPriority)
    ensures
        parse_i32_spec(priority_field_value(p)) == Some(p.rank()),
        LogPriority::from_number(p.rank()) == p,
{
    lemma_parse_decimal(p.rank() as nat, 0x7fff_ffff);
    crate::text::lemma_decimal(p.rank() as nat);
    assert(crate::text::is_digit(priority_field_value(p)[0]));
}

/// An error entry is also a warning entry.
pub proof fn lemma_error_is_warning(e: LogEntry)
    ensures
        e.priority.rank() <= LogPriority::Error.rank() ==> e.priority.rank()
            <= LogPriority::Warning.rank(),
{
}

} // verus!
