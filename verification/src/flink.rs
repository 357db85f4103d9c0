//! Tolerant decoder for a job-status record.
//!
//! The input is one semi-structured record: a sequence of key/value
//! pairs whose values carry a tag for their base representation, as a
//! general-purpose structured-data parser hands them over.  A single
//! pass over the pairs produces a strongly typed [`Flink`] record, or
//! the first structural violation as a typed [`DecodeError`].  Fields
//! whose upstream producers disagree on representation (string versus
//! number) go through explicit flexible coercions.

use crate::numeral::{dec_digits, i64_to_string, int_text, lemma_parse_int_text_roundtrip, parse_i64, parse_i64_spec, u64_to_string};
use vstd::prelude::*;
use vstd::string::*;

verus! {

/// A tagged dynamic value as a general-purpose parser hands it over.
///
/// A floating-point source value is carried as its decimal rendering:
/// the decoder never computes with such a value, it either rejects it
/// (integer fields) or keeps its text (string fields).
#[derive(Debug)]
pub enum Value {
    Str(String),
    Int(i64),
    UInt(u64),
    Float(String),
    Bool(bool),
    Array(Vec<Value>),
    Object(Vec<(String, Value)>),
    Null,
}

/// A schema field, either of the record itself or of its nested
/// counters object.
#[derive(Debug, Clone, Copy, PartialEq, Eq, Structural)]
pub enum FieldName {
    Jid,
    Name,
    State,
    StartTime,
    EndTime,
    Duration,
    LastModification,
    Tasks,
    Total,
    Created,
    Scheduled,
    Deploying,
    Running,
    Finished,
    Canceling,
    Canceled,
    Failed,
    Reconciling,
    Initializing,
}

impl FieldName {
    /// The key under which this field appears in the input.
    pub open spec fn spec_text(self) -> Seq<char> {
        match self {
            FieldName::Jid => "jid"@,
            FieldName::Name => "name"@,
            FieldName::State => "state"@,
            FieldName::StartTime => "start-time"@,
            FieldName::EndTime => "end-time"@,
            FieldName::Duration => "duration"@,
            FieldName::LastModification => "last-modification"@,
            FieldName::Tasks => "tasks"@,
            FieldName::Total => "total"@,
            FieldName::Created => "created"@,
            FieldName::Scheduled => "scheduled"@,
            FieldName::Deploying => "deploying"@,
            FieldName::Running => "running"@,
            FieldName::Finished => "finished"@,
            FieldName::Canceling => "canceling"@,
            FieldName::Canceled => "canceled"@,
            FieldName::Failed => "failed"@,
            FieldName::Reconciling => "reconciling"@,
            FieldName::Initializing => "initializing"@,
        }
    }

    /// The key under which this field appears in the input.
    pub fn text(&self) -> (r: String)
        ensures
            r@ == self.spec_text(),
    {
        match self {
            FieldName::Jid => String::from_str("jid"),
            FieldName::Name => String::from_str("name"),
            FieldName::State => String::from_str("state"),
            FieldName::StartTime => String::from_str("start-time"),
            FieldName::EndTime => String::from_str("end-time"),
            FieldName::Duration => String::from_str("duration"),
            FieldName::LastModification => String::from_str("last-modification"),
            FieldName::Tasks => String::from_str("tasks"),
            FieldName::Total => String::from_str("total"),
            FieldName::Created => String::from_str("created"),
            FieldName::Scheduled => String::from_str("scheduled"),
            FieldName::Deploying => String::from_str("deploying"),
            FieldName::Running => String::from_str("running"),
            FieldName::Finished => String::from_str("finished"),
            FieldName::Canceling => String::from_str("canceling"),
            FieldName::Canceled => String::from_str("canceled"),
            FieldName::Failed => String::from_str("failed"),
            FieldName::Reconciling => String::from_str("reconciling"),
            FieldName::Initializing => String::from_str("initializing"),
        }
    }
}

/// Why a value's representation was not accepted for a field.
#[derive(Debug, Clone, Copy, PartialEq, Eq, Structural)]
pub enum CoercionReason {
    /// A required string field got a non-string scalar.
    ExpectedString,
    /// An integer field got a float, boolean or null.
    ExpectedInteger,
    /// A flexible string field got a boolean.
    ExpectedText,
    /// The counters object was expected but a scalar came.
    ExpectedObject,
    /// An integer value does not fit the field's range.
    IntegerOutOfRange,
    /// A string did not read as a base-10 signed integer.
    BadDigits,
}

/// The first structural violation met while decoding one record.
#[derive(Debug, Clone, Copy, PartialEq, Eq, Structural)]
pub enum DecodeError {
    /// The same schema field appeared more than once.
    DuplicateField(FieldName),
    /// A required field was never assigned.
    MissingField(FieldName),
    /// A value's representation did not match any accepted form.
    CoercionError(FieldName, CoercionReason),
    /// A nested object or array stood where a scalar is expected.
    UnsupportedRepresentation,
}

/// The nested counters object: a fixed mapping from counter name to
/// count, with every field required.
#[derive(Debug, Clone, Copy, PartialEq, Eq, Structural)]
pub struct TaskInfo {
    pub total: i32,
    pub created: i32,
    pub scheduled: i32,
    pub deploying: i32,
    pub running: i32,
    pub finished: i32,
    pub canceling: i32,
    pub canceled: i32,
    pub failed: i32,
    pub reconciling: i32,
    pub initializing: i32,
}

/// The decoded record.
#[derive(Debug, PartialEq)]
pub struct Flink {
    pub jid: String,
    pub name: String,
    pub state: String,
    pub start_time: Option<i64>,
    pub end_time: Option<String>,
    pub duration: Option<String>,
    pub last_modification: Option<String>,
    pub tasks: TaskInfo,
}

/// Mathematical model of a decoded record: each string as its
/// character sequence.
pub struct FlinkView {
    pub jid: Seq<char>,
    pub name: Seq<char>,
    pub state: Seq<char>,
    pub start_time: Option<i64>,
    pub end_time: Option<Seq<char>>,
    pub duration: Option<Seq<char>>,
    pub last_modification: Option<Seq<char>>,
    pub tasks: TaskInfo,
}

/// The character sequence behind an optional string.
pub open spec fn view_opt_string(o: Option<String>) -> Option<Seq<char>> {
    match o {
        Some(s) => Some(s@),
        None => None,
    }
}

impl View for Flink {
    type V = FlinkView;

    open spec fn view(&self) -> FlinkView {
        FlinkView {
            jid: self.jid@,
            name: self.name@,
            state: self.state@,
            start_time: self.start_time,
            end_time: view_opt_string(self.end_time),
            duration: view_opt_string(self.duration),
            last_modification: view_opt_string(self.last_modification),
            tasks: self.tasks,
        }
    }
}

// ---------------------------------------------------------------------------
// Coercions
// ---------------------------------------------------------------------------

/// Accepted forms for a required string field: a string, verbatim.
pub open spec fn required_string_of(f: FieldName, v: Value) -> Result<Seq<char>, DecodeError> {
    match v {
        Value::Str(s) => Ok(s@),
        Value::Object(_) => Err(DecodeError::UnsupportedRepresentation),
        Value::Array(_) => Err(DecodeError::UnsupportedRepresentation),
        _ => Err(DecodeError::CoercionError(f, CoercionReason::ExpectedString)),
    }
}

/// Accepted forms for an optional flexible integer field: a string
/// holding a base-10 signed 64-bit numeral, a signed integer, an
/// unsigned integer within the signed range, or null for absent.
pub open spec fn flex_int_of(f: FieldName, v: Value) -> Result<Option<i64>, DecodeError> {
    match v {
        Value::Str(s) => match parse_i64_spec(s@) {
            Some(i) => Ok(Some(i)),
            None => Err(DecodeError::CoercionError(f, CoercionReason::BadDigits)),
        },
        Value::Int(i) => Ok(Some(i)),
        Value::UInt(u) => if u <= i64::MAX as u64 {
            Ok(Some(u as i64))
        } else {
            Err(DecodeError::CoercionError(f, CoercionReason::IntegerOutOfRange))
        },
        Value::Null => Ok(None),
        Value::Float(_) => Err(DecodeError::CoercionError(f, CoercionReason::ExpectedInteger)),
        Value::Bool(_) => Err(DecodeError::CoercionError(f, CoercionReason::ExpectedInteger)),
        Value::Array(_) => Err(DecodeError::UnsupportedRepresentation),
        Value::Object(_) => Err(DecodeError::UnsupportedRepresentation),
    }
}

/// Accepted forms for an optional flexible string field: a string
/// verbatim, a number as its decimal text, or null for absent.
/// Numeric text is kept as it stands: no range check is made.
pub open spec fn flex_string_of(f: FieldName, v: Value) -> Result<
    Option<Seq<char>>,
    DecodeError,
> {
    match v {
        Value::Str(s) => Ok(Some(s@)),
        Value::Int(i) => Ok(Some(int_text(i as int))),
        Value::UInt(u) => Ok(Some(dec_digits(u as nat))),
        Value::Float(t) => Ok(Some(t@)),
        Value::Null => Ok(None),
        Value::Bool(_) => Err(DecodeError::CoercionError(f, CoercionReason::ExpectedText)),
        Value::Array(_) => Err(DecodeError::UnsupportedRepresentation),
        Value::Object(_) => Err(DecodeError::UnsupportedRepresentation),
    }
}

/// Accepted forms for a counter field: a native integer within the
/// signed 32-bit range.  No string flexibility here.
pub open spec fn counter_of(f: FieldName, v: Value) -> Result<i32, DecodeError> {
    match v {
        Value::Int(i) => if i32::MIN as i64 <= i <= i32::MAX as i64 {
            Ok(i as i32)
        } else {
            Err(DecodeError::CoercionError(f, CoercionReason::IntegerOutOfRange))
        },
        Value::UInt(u) => if u <= i32::MAX as u64 {
            Ok(u as i32)
        } else {
            Err(DecodeError::CoercionError(f, CoercionReason::IntegerOutOfRange))
        },
        Value::Array(_) => Err(DecodeError::UnsupportedRepresentation),
        Value::Object(_) => Err(DecodeError::UnsupportedRepresentation),
        _ => Err(DecodeError::CoercionError(f, CoercionReason::ExpectedInteger)),
    }
}

/// Coerces a required string field.
pub fn coerce_required_string(f: FieldName, v: &Value) -> (r: Result<String, DecodeError>)
    ensures
        match r {
            Ok(s) => required_string_of(f, *v) == Ok::<Seq<char>, DecodeError>(s@),
            Err(e) => required_string_of(f, *v) == Err::<Seq<char>, DecodeError>(e),
        },
{
    match v {
        Value::Str(s) => Ok(s.clone()),
        Value::Object(_) => Err(DecodeError::UnsupportedRepresentation),
        Value::Array(_) => Err(DecodeError::UnsupportedRepresentation),
        _ => Err(DecodeError::CoercionError(f, CoercionReason::ExpectedString)),
    }
}

/// Coerces an optional flexible integer field.
pub fn coerce_flex_int(f: FieldName, v: &Value) -> (r: Result<Option<i64>, DecodeError>)
    ensures
        r == flex_int_of(f, *v),
{
    match v {
        Value::Str(s) => match parse_i64(s.as_str()) {
            Some(i) => Ok(Some(i)),
            None => Err(DecodeError::CoercionError(f, CoercionReason::BadDigits)),
        },
        Value::Int(i) => Ok(Some(*i)),
        Value::UInt(u) => if *u <= 9223372036854775807u64 {
            Ok(Some(*u as i64))
        } else {
            Err(DecodeError::CoercionError(f, CoercionReason::IntegerOutOfRange))
        },
        Value::Null => Ok(None),
        Value::Float(_) => Err(DecodeError::CoercionError(f, CoercionReason::ExpectedInteger)),
        Value::Bool(_) => Err(DecodeError::CoercionError(f, CoercionReason::ExpectedInteger)),
        Value::Array(_) => Err(DecodeError::UnsupportedRepresentation),
        Value::Object(_) => Err(DecodeError::UnsupportedRepresentation),
    }
}

/// Coerces an optional flexible string field.
pub fn coerce_flex_string(f: FieldName, v: &Value) -> (r: Result<Option<String>, DecodeError>)
    ensures
        match r {
            Ok(o) => flex_string_of(f, *v) == Ok::<Option<Seq<char>>, DecodeError>(
                view_opt_string(o),
            ),
            Err(e) => flex_string_of(f, *v) == Err::<Option<Seq<char>>, DecodeError>(e),
        },
{
    match v {
        Value::Str(s) => Ok(Some(s.clone())),
        Value::Int(i) => Ok(Some(i64_to_string(*i))),
        Value::UInt(u) => Ok(Some(u64_to_string(*u))),
        Value::Float(t) => Ok(Some(t.clone())),
        Value::Null => Ok(None),
        Value::Bool(_) => Err(DecodeError::CoercionError(f, CoercionReason::ExpectedText)),
        Value::Array(_) => Err(DecodeError::UnsupportedRepresentation),
        Value::Object(_) => Err(DecodeError::UnsupportedRepresentation),
    }
}

/// Coerces a counter field.
pub fn coerce_counter(f: FieldName, v: &Value) -> (r: Result<i32, DecodeError>)
    ensures
        r == counter_of(f, *v),
{
    match v {
        Value::Int(i) => if -2147483648i64 <= *i && *i <= 2147483647i64 {
            Ok(*i as i32)
        } else {
            Err(DecodeError::CoercionError(f, CoercionReason::IntegerOutOfRange))
        },
        Value::UInt(u) => if *u <= 2147483647u64 {
            Ok(*u as i32)
        } else {
            Err(DecodeError::CoercionError(f, CoercionReason::IntegerOutOfRange))
        },
        Value::Array(_) => Err(DecodeError::UnsupportedRepresentation),
        Value::Object(_) => Err(DecodeError::UnsupportedRepresentation),
        _ => Err(DecodeError::CoercionError(f, CoercionReason::ExpectedInteger)),
    }
}

/// Do the characters of `a` and `b` agree?
fn str_eq(a: &str, b: &str) -> (r: bool)
    ensures
        r == (a@ == b@),
{
    let sa = a.to_owned();
    let sb = b.to_owned();
    sa == sb
}

// ---------------------------------------------------------------------------
// The counters object
// ---------------------------------------------------------------------------

/// The counter field a key of the counters object names, if any.
pub open spec fn counter_field_of(k: Seq<char>) -> Option<FieldName> {
    if k == "total"@ {
        Some(FieldName::Total)
    } else if k == "created"@ {
        Some(FieldName::Created)
    } else if k == "scheduled"@ {
        Some(FieldName::Scheduled)
    } else if k == "deploying"@ {
        Some(FieldName::Deploying)
    } else if k == "running"@ {
        Some(FieldName::Running)
    } else if k == "finished"@ {
        Some(FieldName::Finished)
    } else if k == "canceling"@ {
        Some(FieldName::Canceling)
    } else if k == "canceled"@ {
        Some(FieldName::Canceled)
    } else if k == "failed"@ {
        Some(FieldName::Failed)
    } else if k == "reconciling"@ {
        Some(FieldName::Reconciling)
    } else if k == "initializing"@ {
        Some(FieldName::Initializing)
    } else {
        None
    }
}

/// Partially decoded counters: each counter at most once assigned.
#[derive(Clone, Copy)]
pub struct CounterSet {
    pub total: Option<i32>,
    pub created: Option<i32>,
    pub scheduled: Option<i32>,
    pub deploying: Option<i32>,
    pub running: Option<i32>,
    pub finished: Option<i32>,
    pub canceling: Option<i32>,
    pub canceled: Option<i32>,
    pub failed: Option<i32>,
    pub reconciling: Option<i32>,
    pub initializing: Option<i32>,
}

/// The state before any pair was folded in.
pub open spec fn counters_init() -> CounterSet {
    CounterSet {
        total: None,
        created: None,
        scheduled: None,
        deploying: None,
        running: None,
        finished: None,
        canceling: None,
        canceled: None,
        failed: None,
        reconciling: None,
        initializing: None,
    }
}

/// Has this counter already been assigned?
pub open spec fn counter_seen(st: CounterSet, f: FieldName) -> bool {
    match f {
        FieldName::Total => st.total is Some,
        FieldName::Created => st.created is Some,
        FieldName::Scheduled => st.scheduled is Some,
        FieldName::Deploying => st.deploying is Some,
        FieldName::Running => st.running is Some,
        FieldName::Finished => st.finished is Some,
        FieldName::Canceling => st.canceling is Some,
        FieldName::Canceled => st.canceled is Some,
        FieldName::Failed => st.failed is Some,
        FieldName::Reconciling => st.reconciling is Some,
        FieldName::Initializing => st.initializing is Some,
        _ => false,
    }
}

/// One key/value pair folded into the partial counters: an unknown
/// key is skipped, a repeated counter is a duplicate-field error, and
/// an accepted value is assigned, in that order.
pub open spec fn counters_step(st: CounterSet, k: Seq<char>, v: Value) -> Result<
    CounterSet,
    DecodeError,
> {
    match counter_field_of(k) {
        None => Ok(st),
        Some(f) => if counter_seen(st, f) {
            Err(DecodeError::DuplicateField(f))
        } else {
            match counter_of(f, v) {
                Err(e) => Err(e),
                Ok(n) => Ok(
                    match f {
                        FieldName::Total => CounterSet { total: Some(n), ..st },
                        FieldName::Created => CounterSet { created: Some(n), ..st },
                        FieldName::Scheduled => CounterSet { scheduled: Some(n), ..st },
                        FieldName::Deploying => CounterSet { deploying: Some(n), ..st },
                        FieldName::Running => CounterSet { running: Some(n), ..st },
                        FieldName::Finished => CounterSet { finished: Some(n), ..st },
                        FieldName::Canceling => CounterSet { canceling: Some(n), ..st },
                        FieldName::Canceled => CounterSet { canceled: Some(n), ..st },
                        FieldName::Failed => CounterSet { failed: Some(n), ..st },
                        FieldName::Reconciling => CounterSet { reconciling: Some(n), ..st },
                        FieldName::Initializing => CounterSet { initializing: Some(n), ..st },
                        _ => st,
                    },
                ),
            }
        },
    }
}

/// The partial counters after folding every pair in order, or the
/// first violation.
pub open spec fn counters_fold(pairs: Seq<(String, Value)>, st: CounterSet) -> Result<
    CounterSet,
    DecodeError,
>
    decreases pairs.len(),
{
    if pairs.len() == 0 {
        Ok(st)
    } else {
        match counters_step(st, pairs[0].0@, pairs[0].1) {
            Ok(st2) => counters_fold(pairs.drop_first(), st2),
            Err(e) => Err(e),
        }
    }
}

/// Every counter must have been assigned; the first missing one, in
/// schema order, is reported.
pub open spec fn counters_finish(st: CounterSet) -> Result<TaskInfo, DecodeError> {
    if st.total is None {
        Err(DecodeError::MissingField(FieldName::Total))
    } else if st.created is None {
        Err(DecodeError::MissingField(FieldName::Created))
    } else if st.scheduled is None {
        Err(DecodeError::MissingField(FieldName::Scheduled))
    } else if st.deploying is None {
        Err(DecodeError::MissingField(FieldName::Deploying))
    } else if st.running is None {
        Err(DecodeError::MissingField(FieldName::Running))
    } else if st.finished is None {
        Err(DecodeError::MissingField(FieldName::Finished))
    } else if st.canceling is None {
        Err(DecodeError::MissingField(FieldName::Canceling))
    } else if st.canceled is None {
        Err(DecodeError::MissingField(FieldName::Canceled))
    } else if st.failed is None {
        Err(DecodeError::MissingField(FieldName::Failed))
    } else if st.reconciling is None {
        Err(DecodeError::MissingField(FieldName::Reconciling))
    } else if st.initializing is None {
        Err(DecodeError::MissingField(FieldName::Initializing))
    } else {
        Ok(
            TaskInfo {
                total: st.total->0,
                created: st.created->0,
                scheduled: st.scheduled->0,
                deploying: st.deploying->0,
                running: st.running->0,
                finished: st.finished->0,
                canceling: st.canceling->0,
                canceled: st.canceled->0,
                failed: st.failed->0,
                reconciling: st.reconciling->0,
                initializing: st.initializing->0,
            },
        )
    }
}

/// What the counters object decodes to.
pub open spec fn counters_of(pairs: Seq<(String, Value)>) -> Result<TaskInfo, DecodeError> {
    match counters_fold(pairs, counters_init()) {
        Ok(st) => counters_finish(st),
        Err(e) => Err(e),
    }
}

/// Accepted form for the `tasks` field: the counters object.
pub open spec fn tasks_of(f: FieldName, v: Value) -> Result<TaskInfo, DecodeError> {
    match v {
        Value::Object(m) => counters_of(m@),
        Value::Array(_) => Err(DecodeError::UnsupportedRepresentation),
        _ => Err(DecodeError::CoercionError(f, CoercionReason::ExpectedObject)),
    }
}

fn apply_counters_step(st: CounterSet, key: &String, v: &Value) -> (r: Result<
    CounterSet,
    DecodeError,
>)
    ensures
        match r {
            Ok(st2) => counters_step(st, key@, *v) == Ok::<CounterSet, DecodeError>(st2),
            Err(e) => counters_step(st, key@, *v) == Err::<CounterSet, DecodeError>(e),
        },
{
    let k = key.as_str();
    if str_eq(k, "total") {
        if st.total.is_some() {
            Err(DecodeError::DuplicateField(FieldName::Total))
        } else {
            match coerce_counter(FieldName::Total, v) {
                Ok(n) => Ok(CounterSet { total: Some(n), ..st }),
                Err(e) => Err(e),
            }
        }
    } else if str_eq(k, "created") {
        if st.created.is_some() {
            Err(DecodeError::DuplicateField(FieldName::Created))
        } else {
            match coerce_counter(FieldName::Created, v) {
                Ok(n) => Ok(CounterSet { created: Some(n), ..st }),
                Err(e) => Err(e),
            }
        }
    } else if str_eq(k, "scheduled") {
        if st.scheduled.is_some() {
            Err(DecodeError::DuplicateField(FieldName::Scheduled))
        } else {
            match coerce_counter(FieldName::Scheduled, v) {
                Ok(n) => Ok(CounterSet { scheduled: Some(n), ..st }),
                Err(e) => Err(e),
            }
        }
    } else if str_eq(k, "deploying") {
        if st.deploying.is_some() {
            Err(DecodeError::DuplicateField(FieldName::Deploying))
        } else {
            match coerce_counter(FieldName::Deploying, v) {
                Ok(n) => Ok(CounterSet { deploying: Some(n), ..st }),
                Err(e) => Err(e),
            }
        }
    } else if str_eq(k, "running") {
        if st.running.is_some() {
            Err(DecodeError::DuplicateField(FieldName::Running))
        } else {
            match coerce_counter(FieldName::Running, v) {
                Ok(n) => Ok(CounterSet { running: Some(n), ..st }),
                Err(e) => Err(e),
            }
        }
    } else if str_eq(k, "finished") {
        if st.finished.is_some() {
            Err(DecodeError::DuplicateField(FieldName::Finished))
        } else {
            match coerce_counter(FieldName::Finished, v) {
                Ok(n) => Ok(CounterSet { finished: Some(n), ..st }),
                Err(e) => Err(e),
            }
        }
    } else if str_eq(k, "canceling") {
        if st.canceling.is_some() {
            Err(DecodeError::DuplicateField(FieldName::Canceling))
        } else {
            match coerce_counter(FieldName::Canceling, v) {
                Ok(n) => Ok(CounterSet { canceling: Some(n), ..st }),
                Err(e) => Err(e),
            }
        }
    } else if str_eq(k, "canceled") {
        if st.canceled.is_some() {
            Err(DecodeError::DuplicateField(FieldName::Canceled))
        } else {
            match coerce_counter(FieldName::Canceled, v) {
                Ok(n) => Ok(CounterSet { canceled: Some(n), ..st }),
                Err(e) => Err(e),
            }
        }
    } else if str_eq(k, "failed") {
        if st.failed.is_some() {
            Err(DecodeError::DuplicateField(FieldName::Failed))
        } else {
            match coerce_counter(FieldName::Failed, v) {
                Ok(n) => Ok(CounterSet { failed: Some(n), ..st }),
                Err(e) => Err(e),
            }
        }
    } else if str_eq(k, "reconciling") {
        if st.reconciling.is_some() {
            Err(DecodeError::DuplicateField(FieldName::Reconciling))
        } else {
            match coerce_counter(FieldName::Reconciling, v) {
                Ok(n) => Ok(CounterSet { reconciling: Some(n), ..st }),
                Err(e) => Err(e),
            }
        }
    } else if str_eq(k, "initializing") {
        if st.initializing.is_some() {
            Err(DecodeError::DuplicateField(FieldName::Initializing))
        } else {
            match coerce_counter(FieldName::Initializing, v) {
                Ok(n) => Ok(CounterSet { initializing: Some(n), ..st }),
                Err(e) => Err(e),
            }
        }
    } else {
        Ok(st)
    }
}

proof fn lemma_counters_fold_snoc(pairs: Seq<(String, Value)>, p: (String, Value), st: CounterSet)
    ensures
        counters_fold(pairs.push(p), st) == (match counters_fold(pairs, st) {
            Ok(m) => counters_step(m, p.0@, p.1),
            Err(e) => Err(e),
        }),
    decreases pairs.len(),
{
    reveal_with_fuel(counters_fold, 3);
    if pairs.len() == 0 {
        assert(pairs.push(p)[0] == p);
        assert(pairs.push(p).drop_first() =~= Seq::<(String, Value)>::empty());
    } else {
        assert(pairs.push(p)[0] == pairs[0]);
        assert(pairs.push(p).drop_first() =~= pairs.drop_first().push(p));
        match counters_step(st, pairs[0].0@, pairs[0].1) {
            Ok(st2) => {
                lemma_counters_fold_snoc(pairs.drop_first(), p, st2);
            },
            Err(_) => {},
        }
    }
}

proof fn lemma_counters_fold_err_extend(pairs: Seq<(String, Value)>, i: int, st: CounterSet)
    requires
        0 <= i <= pairs.len(),
        counters_fold(pairs.take(i), st) is Err,
    ensures
        counters_fold(pairs, st) == counters_fold(pairs.take(i), st),
    decreases pairs.len() - i,
{
    if i < pairs.len() {
        assert(pairs.take(i + 1) =~= pairs.take(i).push(pairs[i]));
        lemma_counters_fold_snoc(pairs.take(i), pairs[i], st);
        lemma_counters_fold_err_extend(pairs, i + 1, st);
    } else {
        assert(pairs.take(i) =~= pairs);
    }
}

/// Decodes the counters object: one pass over its pairs, all eleven
/// counters required, native integers only.
pub fn decode_counters(pairs: &Vec<(String, Value)>) -> (r: Result<TaskInfo, DecodeError>)
    ensures
        match r {
            Ok(t) => counters_of(pairs@) == Ok::<TaskInfo, DecodeError>(t),
            Err(e) => counters_of(pairs@) == Err::<TaskInfo, DecodeError>(e),
        },
{
    let mut st = CounterSet {
        total: None,
        created: None,
        scheduled: None,
        deploying: None,
        running: None,
        finished: None,
        canceling: None,
        canceled: None,
        failed: None,
        reconciling: None,
        initializing: None,
    };
    let n = pairs.len();
    for i in 0..n
        invariant
            n == pairs@.len(),
            counters_fold(pairs@.take(i as int), counters_init()) == Ok::<
                CounterSet,
                DecodeError,
            >(st),
    {
        let pair = &pairs[i];
        let res = apply_counters_step(st, &pair.0, &pair.1);
        proof {
            assert(pairs@.take(i + 1) =~= pairs@.take(i as int).push(pairs@[i as int]));
            lemma_counters_fold_snoc(pairs@.take(i as int), pairs@[i as int], counters_init());
        }
        match res {
            Ok(st2) => {
                st = st2;
            },
            Err(e) => {
                proof {
                    lemma_counters_fold_err_extend(pairs@, i + 1, counters_init());
                }
                return Err(e);
            },
        }
    }
    proof {
        assert(pairs@.take(n as int) =~= pairs@);
    }
    if st.total.is_none() {
        return Err(DecodeError::MissingField(FieldName::Total));
    }
    if st.created.is_none() {
        return Err(DecodeError::MissingField(FieldName::Created));
    }
    if st.scheduled.is_none() {
        return Err(DecodeError::MissingField(FieldName::Scheduled));
    }
    if st.deploying.is_none() {
        return Err(DecodeError::MissingField(FieldName::Deploying));
    }
    if st.running.is_none() {
        return Err(DecodeError::MissingField(FieldName::Running));
    }
    if st.finished.is_none() {
        return Err(DecodeError::MissingField(FieldName::Finished));
    }
    if st.canceling.is_none() {
        return Err(DecodeError::MissingField(FieldName::Canceling));
    }
    if st.canceled.is_none() {
        return Err(DecodeError::MissingField(FieldName::Canceled));
    }
    if st.failed.is_none() {
        return Err(DecodeError::MissingField(FieldName::Failed));
    }
    if st.reconciling.is_none() {
        return Err(DecodeError::MissingField(FieldName::Reconciling));
    }
    if st.initializing.is_none() {
        return Err(DecodeError::MissingField(FieldName::Initializing));
    }
    Ok(
        TaskInfo {
            total: st.total.unwrap(),
            created: st.created.unwrap(),
            scheduled: st.scheduled.unwrap(),
            deploying: st.deploying.unwrap(),
            running: st.running.unwrap(),
            finished: st.finished.unwrap(),
            canceling: st.canceling.unwrap(),
            canceled: st.canceled.unwrap(),
            failed: st.failed.unwrap(),
            reconciling: st.reconciling.unwrap(),
            initializing: st.initializing.unwrap(),
        },
    )
}

// ---------------------------------------------------------------------------
// The record itself
// ---------------------------------------------------------------------------

/// The record field a top-level key names, if any.
pub open spec fn field_of(k: Seq<char>) -> Option<FieldName> {
    if k == "jid"@ {
        Some(FieldName::Jid)
    } else if k == "name"@ {
        Some(FieldName::Name)
    } else if k == "state"@ {
        Some(FieldName::State)
    } else if k == "start-time"@ {
        Some(FieldName::StartTime)
    } else if k == "end-time"@ {
        Some(FieldName::EndTime)
    } else if k == "duration"@ {
        Some(FieldName::Duration)
    } else if k == "last-modification"@ {
        Some(FieldName::LastModification)
    } else if k == "tasks"@ {
        Some(FieldName::Tasks)
    } else {
        None
    }
}

/// A partially decoded record, during the single pass over the pairs.
/// A field may be seen and still absent: a null assigns nothing, yet a
/// later occurrence of the same key is a duplicate.
pub struct FieldSet {
    pub jid: Option<String>,
    pub name: Option<String>,
    pub state: Option<String>,
    pub start_time: Option<i64>,
    pub end_time: Option<String>,
    pub duration: Option<String>,
    pub last_modification: Option<String>,
    pub tasks: Option<TaskInfo>,
    pub seen_jid: bool,
    pub seen_name: bool,
    pub seen_state: bool,
    pub seen_start_time: bool,
    pub seen_end_time: bool,
    pub seen_duration: bool,
    pub seen_last_modification: bool,
    pub seen_tasks: bool,
}

/// Mathematical model of a partially decoded record.
pub struct FieldsView {
    pub jid: Option<Seq<char>>,
    pub name: Option<Seq<char>>,
    pub state: Option<Seq<char>>,
    pub start_time: Option<i64>,
    pub end_time: Option<Seq<char>>,
    pub duration: Option<Seq<char>>,
    pub last_modification: Option<Seq<char>>,
    pub tasks: Option<TaskInfo>,
    pub seen_jid: bool,
    pub seen_name: bool,
    pub seen_state: bool,
    pub seen_start_time: bool,
    pub seen_end_time: bool,
    pub seen_duration: bool,
    pub seen_last_modification: bool,
    pub seen_tasks: bool,
}

impl View for FieldSet {
    type V = FieldsView;

    open spec fn view(&self) -> FieldsView {
        FieldsView {
            jid: view_opt_string(self.jid),
            name: view_opt_string(self.name),
            state: view_opt_string(self.state),
            start_time: self.start_time,
            end_time: view_opt_string(self.end_time),
            duration: view_opt_string(self.duration),
            last_modification: view_opt_string(self.last_modification),
            tasks: self.tasks,
            seen_jid: self.seen_jid,
            seen_name: self.seen_name,
            seen_state: self.seen_state,
            seen_start_time: self.seen_start_time,
            seen_end_time: self.seen_end_time,
            seen_duration: self.seen_duration,
            seen_last_modification: self.seen_last_modification,
            seen_tasks: self.seen_tasks,
        }
    }
}

/// The state before any pair was folded in.
pub open spec fn fields_init() -> FieldsView {
    FieldsView {
        jid: None,
        name: None,
        state: None,
        start_time: None,
        end_time: None,
        duration: None,
        last_modification: None,
        tasks: None,
        seen_jid: false,
        seen_name: false,
        seen_state: false,
        seen_start_time: false,
        seen_end_time: false,
        seen_duration: false,
        seen_last_modification: false,
        seen_tasks: false,
    }
}

/// Has this record field already occurred?
pub open spec fn field_seen(st: FieldsView, f: FieldName) -> bool {
    match f {
        FieldName::Jid => st.seen_jid,
        FieldName::Name => st.seen_name,
        FieldName::State => st.seen_state,
        FieldName::StartTime => st.seen_start_time,
        FieldName::EndTime => st.seen_end_time,
        FieldName::Duration => st.seen_duration,
        FieldName::LastModification => st.seen_last_modification,
        FieldName::Tasks => st.seen_tasks,
        _ => false,
    }
}

/// One key/value pair folded into the partial record: an unknown key
/// is skipped, a repeated field is a duplicate-field error whatever
/// its value, and otherwise the value goes through the field's
/// coercion.
pub open spec fn decode_step(st: FieldsView, k: Seq<char>, v: Value) -> Result<
    FieldsView,
    DecodeError,
> {
    match field_of(k) {
        None => Ok(st),
        Some(f) => if field_seen(st, f) {
            Err(DecodeError::DuplicateField(f))
        } else {
            match f {
                FieldName::Jid => match required_string_of(f, v) {
                    Ok(s) => Ok(FieldsView { jid: Some(s), seen_jid: true, ..st }),
                    Err(e) => Err(e),
                },
                FieldName::Name => match required_string_of(f, v) {
                    Ok(s) => Ok(FieldsView { name: Some(s), seen_name: true, ..st }),
                    Err(e) => Err(e),
                },
                FieldName::State => match required_string_of(f, v) {
                    Ok(s) => Ok(FieldsView { state: Some(s), seen_state: true, ..st }),
                    Err(e) => Err(e),
                },
                FieldName::StartTime => match flex_int_of(f, v) {
                    Ok(o) => Ok(FieldsView { start_time: o, seen_start_time: true, ..st }),
                    Err(e) => Err(e),
                },
                FieldName::EndTime => match flex_string_of(f, v) {
                    Ok(o) => Ok(FieldsView { end_time: o, seen_end_time: true, ..st }),
                    Err(e) => Err(e),
                },
                FieldName::Duration => match flex_string_of(f, v) {
                    Ok(o) => Ok(FieldsView { duration: o, seen_duration: true, ..st }),
                    Err(e) => Err(e),
                },
                FieldName::LastModification => match flex_string_of(f, v) {
                    Ok(o) => Ok(
                        FieldsView { last_modification: o, seen_last_modification: true, ..st },
                    ),
                    Err(e) => Err(e),
                },
                FieldName::Tasks => match tasks_of(f, v) {
                    Ok(t) => Ok(FieldsView { tasks: Some(t), seen_tasks: true, ..st }),
                    Err(e) => Err(e),
                },
                _ => Ok(st),
            }
        },
    }
}

/// The partial record after folding every pair in order, or the first
/// violation.
pub open spec fn decode_fields(pairs: Seq<(String, Value)>, st: FieldsView) -> Result<
    FieldsView,
    DecodeError,
>
    decreases pairs.len(),
{
    if pairs.len() == 0 {
        Ok(st)
    } else {
        match decode_step(st, pairs[0].0@, pairs[0].1) {
            Ok(st2) => decode_fields(pairs.drop_first(), st2),
            Err(e) => Err(e),
        }
    }
}

/// Every required field must have been assigned; the first missing
/// one, in schema order, is reported.  Optional fields default to
/// absent.
pub open spec fn finish_fields(st: FieldsView) -> Result<FlinkView, DecodeError> {
    if st.jid is None {
        Err(DecodeError::MissingField(FieldName::Jid))
    } else if st.name is None {
        Err(DecodeError::MissingField(FieldName::Name))
    } else if st.state is None {
        Err(DecodeError::MissingField(FieldName::State))
    } else if st.tasks is None {
        Err(DecodeError::MissingField(FieldName::Tasks))
    } else {
        Ok(
            FlinkView {
                jid: st.jid->0,
                name: st.name->0,
                state: st.state->0,
                start_time: st.start_time,
                end_time: st.end_time,
                duration: st.duration,
                last_modification: st.last_modification,
                tasks: st.tasks->0,
            },
        )
    }
}

/// What one record decodes to: the result of the single pass and the
/// required-field check, or the first structural violation met.
pub open spec fn decode_spec(pairs: Seq<(String, Value)>) -> Result<FlinkView, DecodeError> {
    match decode_fields(pairs, fields_init()) {
        Ok(st) => finish_fields(st),
        Err(e) => Err(e),
    }
}

fn apply_decode_step(st: FieldSet, key: &String, v: &Value) -> (r: Result<FieldSet, DecodeError>)
    ensures
        match r {
            Ok(st2) => decode_step(st@, key@, *v) == Ok::<FieldsView, DecodeError>(st2@),
            Err(e) => decode_step(st@, key@, *v) == Err::<FieldsView, DecodeError>(e),
        },
{
    let k = key.as_str();
    if str_eq(k, "jid") {
        if st.seen_jid {
            Err(DecodeError::DuplicateField(FieldName::Jid))
        } else {
            match coerce_required_string(FieldName::Jid, v) {
                Ok(s) => Ok(FieldSet { jid: Some(s), seen_jid: true, ..st }),
                Err(e) => Err(e),
            }
        }
    } else if str_eq(k, "name") {
        if st.seen_name {
            Err(DecodeError::DuplicateField(FieldName::Name))
        } else {
            match coerce_required_string(FieldName::Name, v) {
                Ok(s) => Ok(FieldSet { name: Some(s), seen_name: true, ..st }),
                Err(e) => Err(e),
            }
        }
    } else if str_eq(k, "state") {
        if st.seen_state {
            Err(DecodeError::DuplicateField(FieldName::State))
        } else {
            match coerce_required_string(FieldName::State, v) {
                Ok(s) => Ok(FieldSet { state: Some(s), seen_state: true, ..st }),
                Err(e) => Err(e),
            }
        }
    } else if str_eq(k, "start-time") {
        if st.seen_start_time {
            Err(DecodeError::DuplicateField(FieldName::StartTime))
        } else {
            match coerce_flex_int(FieldName::StartTime, v) {
                Ok(o) => Ok(FieldSet { start_time: o, seen_start_time: true, ..st }),
                Err(e) => Err(e),
            }
        }
    } else if str_eq(k, "end-time") {
        if st.seen_end_time {
            Err(DecodeError::DuplicateField(FieldName::EndTime))
        } else {
            match coerce_flex_string(FieldName::EndTime, v) {
                Ok(o) => Ok(FieldSet { end_time: o, seen_end_time: true, ..st }),
                Err(e) => Err(e),
            }
        }
    } else if str_eq(k, "duration") {
        if st.seen_duration {
            Err(DecodeError::DuplicateField(FieldName::Duration))
        } else {
            match coerce_flex_string(FieldName::Duration, v) {
                Ok(o) => Ok(FieldSet { duration: o, seen_duration: true, ..st }),
                Err(e) => Err(e),
            }
        }
    } else if str_eq(k, "last-modification") {
        if st.seen_last_modification {
            Err(DecodeError::DuplicateField(FieldName::LastModification))
        } else {
            match coerce_flex_string(FieldName::LastModification, v) {
                Ok(o) => Ok(
                    FieldSet { last_modification: o, seen_last_modification: true, ..st },
                ),
                Err(e) => Err(e),
            }
        }
    } else if str_eq(k, "tasks") {
        if st.seen_tasks {
            Err(DecodeError::DuplicateField(FieldName::Tasks))
        } else {
            match v {
                Value::Object(m) => match decode_counters(m) {
                    Ok(t) => Ok(FieldSet { tasks: Some(t), seen_tasks: true, ..st }),
                    Err(e) => Err(e),
                },
                Value::Array(_) => Err(DecodeError::UnsupportedRepresentation),
                _ => Err(
                    DecodeError::CoercionError(FieldName::Tasks, CoercionReason::ExpectedObject),
                ),
            }
        }
    } else {
        Ok(st)
    }
}

proof fn lemma_decode_fields_snoc(pairs: Seq<(String, Value)>, p: (String, Value), st: FieldsView)
    ensures
        decode_fields(pairs.push(p), st) == (match decode_fields(pairs, st) {
            Ok(m) => decode_step(m, p.0@, p.1),
            Err(e) => Err(e),
        }),
    decreases pairs.len(),
{
    reveal_with_fuel(decode_fields, 3);
    if pairs.len() == 0 {
        assert(pairs.push(p)[0] == p);
        assert(pairs.push(p).drop_first() =~= Seq::<(String, Value)>::empty());
    } else {
        assert(pairs.push(p)[0] == pairs[0]);
        assert(pairs.push(p).drop_first() =~= pairs.drop_first().push(p));
        match decode_step(st, pairs[0].0@, pairs[0].1) {
            Ok(st2) => {
                lemma_decode_fields_snoc(pairs.drop_first(), p, st2);
            },
            Err(_) => {},
        }
    }
}

proof fn lemma_decode_fields_err_extend(pairs: Seq<(String, Value)>, i: int, st: FieldsView)
    requires
        0 <= i <= pairs.len(),
        decode_fields(pairs.take(i), st) is Err,
    ensures
        decode_fields(pairs, st) == decode_fields(pairs.take(i), st),
    decreases pairs.len() - i,
{
    if i < pairs.len() {
        assert(pairs.take(i + 1) =~= pairs.take(i).push(pairs[i]));
        lemma_decode_fields_snoc(pairs.take(i), pairs[i], st);
        lemma_decode_fields_err_extend(pairs, i + 1, st);
    } else {
        assert(pairs.take(i) =~= pairs);
    }
}

/// Decodes one record from its key/value pairs.
///
/// A single pass over the pairs, in the order presented: unknown keys
/// are skipped, a repeated schema field is a duplicate-field error
/// whatever its values, and each recognized value goes through its
/// field's coercion.  After the pass, every required field must have
/// been assigned.  The result is exactly what [`decode_spec`] says of
/// the input.
pub fn decode(input: &Vec<(String, Value)>) -> (r: Result<Flink, DecodeError>)
    ensures
        match r {
            Ok(rec) => decode_spec(input@) == Ok::<FlinkView, DecodeError>(rec@),
            Err(e) => decode_spec(input@) == Err::<FlinkView, DecodeError>(e),
        },
{
    let mut st = FieldSet {
        jid: None,
        name: None,
        state: None,
        start_time: None,
        end_time: None,
        duration: None,
        last_modification: None,
        tasks: None,
        seen_jid: false,
        seen_name: false,
        seen_state: false,
        seen_start_time: false,
        seen_end_time: false,
        seen_duration: false,
        seen_last_modification: false,
        seen_tasks: false,
    };
    let n = input.len();
    let mut i: usize = 0;
    while i < n
        invariant
            i <= n,
            n == input@.len(),
            decode_fields(input@.take(i as int), fields_init()) == Ok::<
                FieldsView,
                DecodeError,
            >(st@),
        decreases n - i,
    {
        let pair = &input[i];
        let res = apply_decode_step(st, &pair.0, &pair.1);
        proof {
            assert(input@.take(i + 1) =~= input@.take(i as int).push(input@[i as int]));
            lemma_decode_fields_snoc(input@.take(i as int), input@[i as int], fields_init());
        }
        match res {
            Ok(st2) => {
                st = st2;
            },
            Err(e) => {
                proof {
                    lemma_decode_fields_err_extend(input@, i + 1, fields_init());
                }
                return Err(e);
            },
        }
        i += 1;
    }
    proof {
        assert(input@.take(n as int) =~= input@);
    }
    let FieldSet { jid, name, state, start_time, end_time, duration, last_modification, tasks, .. } =
        st;
    let jid = match jid {
        Some(s) => s,
        None => {
            return Err(DecodeError::MissingField(FieldName::Jid));
        },
    };
    let name = match name {
        Some(s) => s,
        None => {
            return Err(DecodeError::MissingField(FieldName::Name));
        },
    };
    let state = match state {
        Some(s) => s,
        None => {
            return Err(DecodeError::MissingField(FieldName::State));
        },
    };
    let tasks = match tasks {
        Some(t) => t,
        None => {
            return Err(DecodeError::MissingField(FieldName::Tasks));
        },
    };
    Ok(Flink { jid, name, state, start_time, end_time, duration, last_modification, tasks })
}

// ---------------------------------------------------------------------------
// Laws
// ---------------------------------------------------------------------------

/// Does some pair name this record field?
pub open spec fn has_field(pairs: Seq<(String, Value)>, f: FieldName) -> bool
    decreases pairs.len(),
{
    pairs.len() > 0 && (field_of(pairs[0].0@) == Some(f) || has_field(pairs.drop_first(), f))
}

/// The value of the first pair naming this field.
pub open spec fn first_value(pairs: Seq<(String, Value)>, f: FieldName) -> Value
    decreases pairs.len(),
{
    if pairs.len() == 0 {
        Value::Null
    } else if field_of(pairs[0].0@) == Some(f) {
        pairs[0].1
    } else {
        first_value(pairs.drop_first(), f)
    }
}

/// No record field is named by two pairs.
pub open spec fn no_repeated_field(pairs: Seq<(String, Value)>) -> bool
    decreases pairs.len(),
{
    pairs.len() == 0 || ({
        &&& match field_of(pairs[0].0@) {
            Some(f) => !has_field(pairs.drop_first(), f),
            None => true,
        }
        &&& no_repeated_field(pairs.drop_first())
    })
}

/// The error this field's coercion raises on this value, if any.
pub open spec fn coercion_error(f: FieldName, v: Value) -> Option<DecodeError> {
    match f {
        FieldName::Jid | FieldName::Name | FieldName::State => match required_string_of(f, v) {
            Ok(_) => None,
            Err(e) => Some(e),
        },
        FieldName::StartTime => match flex_int_of(f, v) {
            Ok(_) => None,
            Err(e) => Some(e),
        },
        FieldName::EndTime | FieldName::Duration | FieldName::LastModification => match flex_string_of(
            f,
            v,
        ) {
            Ok(_) => None,
            Err(e) => Some(e),
        },
        FieldName::Tasks => match tasks_of(f, v) {
            Ok(_) => None,
            Err(e) => Some(e),
        },
        _ => None,
    }
}

/// Does this field's coercion accept the value?
pub open spec fn coercion_ok(f: FieldName, v: Value) -> bool {
    coercion_error(f, v) is None
}

/// Every recognized pair carries an accepted value.
pub open spec fn all_values_coerce(pairs: Seq<(String, Value)>) -> bool
    decreases pairs.len(),
{
    pairs.len() == 0 || ({
        &&& match field_of(pairs[0].0@) {
            Some(f) => coercion_ok(f, pairs[0].1),
            None => true,
        }
        &&& all_values_coerce(pairs.drop_first())
    })
}

/// What a required string field is assigned.
pub open spec fn req_str_val(f: FieldName, v: Value) -> Seq<char> {
    match required_string_of(f, v) {
        Ok(s) => s,
        Err(_) => Seq::<char>::empty(),
    }
}

/// What a flexible integer field is assigned.
pub open spec fn flex_int_val(f: FieldName, v: Value) -> Option<i64> {
    match flex_int_of(f, v) {
        Ok(o) => o,
        Err(_) => None,
    }
}

/// What a flexible string field is assigned.
pub open spec fn flex_string_val(f: FieldName, v: Value) -> Option<Seq<char>> {
    match flex_string_of(f, v) {
        Ok(o) => o,
        Err(_) => None,
    }
}

/// What the counters field is assigned.
pub open spec fn tasks_val(f: FieldName, v: Value) -> TaskInfo {
    match tasks_of(f, v) {
        Ok(t) => t,
        Err(_) => TaskInfo {
            total: 0,
            created: 0,
            scheduled: 0,
            deploying: 0,
            running: 0,
            finished: 0,
            canceling: 0,
            canceled: 0,
            failed: 0,
            reconciling: 0,
            initializing: 0,
        },
    }
}

/// After a clean fold over `pairs` from state `st`, each field of the
/// final state `st2` holds the coerced value of the first pair naming
/// it, or stays as it began; its seen flag records whether any pair
/// named it.
pub open spec fn folds_clean(pairs: Seq<(String, Value)>, st: FieldsView, st2: FieldsView) -> bool {
    &&& st2.jid == (if has_field(pairs, FieldName::Jid) {
        Some(req_str_val(FieldName::Jid, first_value(pairs, FieldName::Jid)))
    } else {
        st.jid
    })
    &&& st2.seen_jid == (st.seen_jid || has_field(pairs, FieldName::Jid))
    &&& st2.name == (if has_field(pairs, FieldName::Name) {
        Some(req_str_val(FieldName::Name, first_value(pairs, FieldName::Name)))
    } else {
        st.name
    })
    &&& st2.seen_name == (st.seen_name || has_field(pairs, FieldName::Name))
    &&& st2.state == (if has_field(pairs, FieldName::State) {
        Some(req_str_val(FieldName::State, first_value(pairs, FieldName::State)))
    } else {
        st.state
    })
    &&& st2.seen_state == (st.seen_state || has_field(pairs, FieldName::State))
    &&& st2.start_time == (if has_field(pairs, FieldName::StartTime) {
        flex_int_val(FieldName::StartTime, first_value(pairs, FieldName::StartTime))
    } else {
        st.start_time
    })
    &&& st2.seen_start_time == (st.seen_start_time || has_field(pairs, FieldName::StartTime))
    &&& st2.end_time == (if has_field(pairs, FieldName::EndTime) {
        flex_string_val(FieldName::EndTime, first_value(pairs, FieldName::EndTime))
    } else {
        st.end_time
    })
    &&& st2.seen_end_time == (st.seen_end_time || has_field(pairs, FieldName::EndTime))
    &&& st2.duration == (if has_field(pairs, FieldName::Duration) {
        flex_string_val(FieldName::Duration, first_value(pairs, FieldName::Duration))
    } else {
        st.duration
    })
    &&& st2.seen_duration == (st.seen_duration || has_field(pairs, FieldName::Duration))
    &&& st2.last_modification == (if has_field(pairs, FieldName::LastModification) {
        flex_string_val(FieldName::LastModification, first_value(pairs, FieldName::LastModification))
    } else {
        st.last_modification
    })
    &&& st2.seen_last_modification == (st.seen_last_modification || has_field(pairs, FieldName::LastModification))
    &&& st2.tasks == (if has_field(pairs, FieldName::Tasks) {
        Some(tasks_val(FieldName::Tasks, first_value(pairs, FieldName::Tasks)))
    } else {
        st.tasks
    })
    &&& st2.seen_tasks == (st.seen_tasks || has_field(pairs, FieldName::Tasks))
}

#[verifier::rlimit(60)]
proof fn lemma_decode_fields_clean(pairs: Seq<(String, Value)>, st: FieldsView)
    requires
        no_repeated_field(pairs),
        all_values_coerce(pairs),
        forall|f: FieldName| has_field(pairs, f) ==> !field_seen(st, f),
    ensures
        decode_fields(pairs, st) is Ok,
        folds_clean(pairs, st, decode_fields(pairs, st)->Ok_0),
    decreases pairs.len(),
{
    if pairs.len() > 0 {
        let k0 = pairs[0].0@;
        let v0 = pairs[0].1;
        let rest = pairs.drop_first();
        match field_of(k0) {
            None => {
                assert(forall|f: FieldName| has_field(rest, f) ==> has_field(pairs, f));
                lemma_decode_fields_clean(rest, st);
            },
            Some(f0) => {
                assert(has_field(pairs, f0));
                assert(!field_seen(st, f0));
                assert(coercion_ok(f0, v0));
                let stepped = decode_step(st, k0, v0);
                assert(stepped is Ok);
                let st2 = stepped->Ok_0;
                assert(forall|f: FieldName| has_field(rest, f) ==> has_field(pairs, f));
                assert(forall|f: FieldName| has_field(rest, f) ==> !field_seen(st2, f));
                lemma_decode_fields_clean(rest, st2);
            },
        }
    }
}

/// For every input that holds each required field, repeats no schema
/// field, and carries no rejected representation, decoding succeeds,
/// and every field of the record is exactly the coerced value of the
/// one pair naming it; optional fields never named stay absent.
pub proof fn lemma_decode_complete_input_ok(pairs: Seq<(String, Value)>)
    requires
        no_repeated_field(pairs),
        all_values_coerce(pairs),
        has_field(pairs, FieldName::Jid),
        has_field(pairs, FieldName::Name),
        has_field(pairs, FieldName::State),
        has_field(pairs, FieldName::Tasks),
    ensures
        decode_spec(pairs) is Ok,
        decode_spec(pairs)->Ok_0.jid == req_str_val(
            FieldName::Jid,
            first_value(pairs, FieldName::Jid),
        ),
        decode_spec(pairs)->Ok_0.name == req_str_val(
            FieldName::Name,
            first_value(pairs, FieldName::Name),
        ),
        decode_spec(pairs)->Ok_0.state == req_str_val(
            FieldName::State,
            first_value(pairs, FieldName::State),
        ),
        decode_spec(pairs)->Ok_0.tasks == tasks_val(
            FieldName::Tasks,
            first_value(pairs, FieldName::Tasks),
        ),
        decode_spec(pairs)->Ok_0.start_time == (if has_field(pairs, FieldName::StartTime) {
            flex_int_val(FieldName::StartTime, first_value(pairs, FieldName::StartTime))
        } else {
            None
        }),
        decode_spec(pairs)->Ok_0.end_time == (if has_field(pairs, FieldName::EndTime) {
            flex_string_val(FieldName::EndTime, first_value(pairs, FieldName::EndTime))
        } else {
            None
        }),
        decode_spec(pairs)->Ok_0.duration == (if has_field(pairs, FieldName::Duration) {
            flex_string_val(FieldName::Duration, first_value(pairs, FieldName::Duration))
        } else {
            None
        }),
        decode_spec(pairs)->Ok_0.last_modification == (if has_field(
            pairs,
            FieldName::LastModification,
        ) {
            flex_string_val(
                FieldName::LastModification,
                first_value(pairs, FieldName::LastModification),
            )
        } else {
            None
        }),
{
    lemma_decode_fields_clean(pairs, fields_init());
}

/// For an input that repeats no schema field, carries no rejected
/// representation, and misses exactly one required field, decoding
/// fails with `MissingField` naming exactly that field.
pub proof fn lemma_missing_required_field(pairs: Seq<(String, Value)>, f: FieldName)
    requires
        no_repeated_field(pairs),
        all_values_coerce(pairs),
        f == FieldName::Jid || f == FieldName::Name || f == FieldName::State || f
            == FieldName::Tasks,
        !has_field(pairs, f),
        f != FieldName::Jid ==> has_field(pairs, FieldName::Jid),
        f != FieldName::Name ==> has_field(pairs, FieldName::Name),
        f != FieldName::State ==> has_field(pairs, FieldName::State),
        f != FieldName::Tasks ==> has_field(pairs, FieldName::Tasks),
    ensures
        decode_spec(pairs) == Err::<FlinkView, DecodeError>(DecodeError::MissingField(f)),
{
    lemma_decode_fields_clean(pairs, fields_init());
}

proof fn lemma_step_seen_monotone(st: FieldsView, k: Seq<char>, v: Value, f: FieldName)
    requires
        decode_step(st, k, v) is Ok,
        field_seen(st, f),
    ensures
        field_seen(decode_step(st, k, v)->Ok_0, f),
{
}

proof fn lemma_seen_field_fails(pairs: Seq<(String, Value)>, st: FieldsView, f: FieldName)
    requires
        has_field(pairs, f),
        field_seen(st, f),
    ensures
        decode_fields(pairs, st) is Err,
    decreases pairs.len(),
{
    let k0 = pairs[0].0@;
    let v0 = pairs[0].1;
    let rest = pairs.drop_first();
    match decode_fields(pairs, st) {
        Err(_) => {},
        Ok(_) => {
            let stepped = decode_step(st, k0, v0);
            assert(stepped is Ok);
            if field_of(k0) == Some(f) {
                assert(stepped is Err);
            } else {
                lemma_step_seen_monotone(st, k0, v0, f);
                lemma_seen_field_fails(rest, stepped->Ok_0, f);
            }
        },
    }
}

proof fn lemma_has_field_at(pairs: Seq<(String, Value)>, j: int, f: FieldName)
    requires
        0 <= j < pairs.len(),
        field_of(pairs[j].0@) == Some(f),
    ensures
        has_field(pairs, f),
    decreases j,
{
    if j > 0 {
        lemma_has_field_at(pairs.drop_first(), j - 1, f);
    }
}

proof fn lemma_dup_any(pairs: Seq<(String, Value)>, st: FieldsView, i: int, j: int, f: FieldName)
    requires
        0 <= i < j < pairs.len(),
        field_of(pairs[i].0@) == Some(f),
        field_of(pairs[j].0@) == Some(f),
    ensures
        decode_fields(pairs, st) is Err,
    decreases i,
{
    let k0 = pairs[0].0@;
    let v0 = pairs[0].1;
    let rest = pairs.drop_first();
    match decode_step(st, k0, v0) {
        Err(_) => {},
        Ok(st2) => {
            if i == 0 {
                assert(field_seen(st2, f));
                lemma_has_field_at(rest, j - 1, f);
                lemma_seen_field_fails(rest, st2, f);
            } else {
                lemma_dup_any(rest, st2, i - 1, j - 1, f);
            }
        },
    }
}

/// An input that names the same schema field at two positions never
/// decodes, whatever the two values hold.
pub proof fn lemma_duplicate_field_fails(pairs: Seq<(String, Value)>, i: int, j: int)
    requires
        0 <= i < j < pairs.len(),
        field_of(pairs[i].0@) is Some,
        field_of(pairs[i].0@) == field_of(pairs[j].0@),
    ensures
        decode_spec(pairs) is Err,
{
    let f = field_of(pairs[i].0@)->0;
    lemma_dup_any(pairs, fields_init(), i, j, f);
}

proof fn lemma_all_values_coerce_take(pairs: Seq<(String, Value)>, j: int)
    requires
        all_values_coerce(pairs),
        0 <= j <= pairs.len(),
    ensures
        all_values_coerce(pairs.take(j)),
    decreases pairs.len(),
{
    if j > 0 && pairs.len() > 0 {
        assert(pairs.take(j)[0] == pairs[0]);
        lemma_all_values_coerce_take(pairs.drop_first(), j - 1);
        assert(pairs.take(j).drop_first() =~= pairs.drop_first().take(j - 1));
    } else {
        assert(pairs.take(j) =~= Seq::<(String, Value)>::empty());
    }
}

/// When every supplied value is acceptable, an input whose first
/// repetition of a schema field stands at position `j` fails with
/// `DuplicateField` naming that very field, even though both
/// occurrences are individually well-typed.
pub proof fn lemma_duplicate_field_named(pairs: Seq<(String, Value)>, j: int, f: FieldName)
    requires
        all_values_coerce(pairs),
        0 <= j < pairs.len(),
        field_of(pairs[j].0@) == Some(f),
        no_repeated_field(pairs.take(j)),
        has_field(pairs.take(j), f),
    ensures
        decode_spec(pairs) == Err::<FlinkView, DecodeError>(DecodeError::DuplicateField(f)),
{
    lemma_all_values_coerce_take(pairs, j);
    lemma_decode_fields_clean(pairs.take(j), fields_init());
    let st = decode_fields(pairs.take(j), fields_init())->Ok_0;
    assert(field_seen(st, f));
    assert(decode_step(st, pairs[j].0@, pairs[j].1) == Err::<FieldsView, DecodeError>(
        DecodeError::DuplicateField(f),
    ));
    assert(pairs.take(j + 1) =~= pairs.take(j).push(pairs[j]));
    lemma_decode_fields_snoc(pairs.take(j), pairs[j], fields_init());
    lemma_decode_fields_err_extend(pairs, j + 1, fields_init());
}

/// When every value before position `j` is acceptable and no field
/// repeats up to there, a rejected value at `j` decides the outcome:
/// decoding fails with exactly that pair's coercion error.
pub proof fn lemma_first_rejected_value(pairs: Seq<(String, Value)>, j: int, f: FieldName)
    requires
        0 <= j < pairs.len(),
        no_repeated_field(pairs.take(j)),
        all_values_coerce(pairs.take(j)),
        field_of(pairs[j].0@) == Some(f),
        !has_field(pairs.take(j), f),
        coercion_error(f, pairs[j].1) is Some,
    ensures
        decode_spec(pairs) == Err::<FlinkView, DecodeError>(coercion_error(f, pairs[j].1)->0),
{
    lemma_decode_fields_clean(pairs.take(j), fields_init());
    let st = decode_fields(pairs.take(j), fields_init())->Ok_0;
    assert(!field_seen(st, f));
    assert(decode_step(st, pairs[j].0@, pairs[j].1) == Err::<FieldsView, DecodeError>(
        coercion_error(f, pairs[j].1)->0,
    ));
    assert(pairs.take(j + 1) =~= pairs.take(j).push(pairs[j]));
    lemma_decode_fields_snoc(pairs.take(j), pairs[j], fields_init());
    lemma_decode_fields_err_extend(pairs, j + 1, fields_init());
}

/// A flexible integer field reads the decimal text of an integer and
/// the integer itself to the same normalized value.
pub proof fn lemma_flex_int_string_or_number(f: FieldName, i: i64, s: String)
    requires
        s@ == int_text(i as int),
    ensures
        flex_int_of(f, Value::Str(s)) == flex_int_of(f, Value::Int(i)),
        flex_int_of(f, Value::Int(i)) == Ok::<Option<i64>, DecodeError>(Some(i)),
{
    lemma_parse_int_text_roundtrip(i);
}

/// A flexible integer field rejects unsigned values over the signed
/// 64-bit range, floats and booleans with a coercion error naming the
/// field, and text that denotes no signed 64-bit integer likewise.
pub proof fn lemma_flex_int_rejects(f: FieldName, v: Value)
    requires
        ({
            ||| v matches Value::UInt(u) && u > i64::MAX as u64
            ||| v is Float
            ||| v is Bool
            ||| v matches Value::Str(s) && parse_i64_spec(s@) is None
        }),
    ensures
        flex_int_of(f, v) matches Err(e) && e matches DecodeError::CoercionError(g, _) && g == f,
{
}

/// Does some pair of the counters object name this counter?
pub open spec fn has_counter(pairs: Seq<(String, Value)>, f: FieldName) -> bool
    decreases pairs.len(),
{
    pairs.len() > 0 && (counter_field_of(pairs[0].0@) == Some(f) || has_counter(
        pairs.drop_first(),
        f,
    ))
}

/// The value of the first pair naming this counter.
pub open spec fn first_counter_value(pairs: Seq<(String, Value)>, f: FieldName) -> Value
    decreases pairs.len(),
{
    if pairs.len() == 0 {
        Value::Null
    } else if counter_field_of(pairs[0].0@) == Some(f) {
        pairs[0].1
    } else {
        first_counter_value(pairs.drop_first(), f)
    }
}

/// No counter is named by two pairs.
pub open spec fn no_repeated_counter(pairs: Seq<(String, Value)>) -> bool
    decreases pairs.len(),
{
    pairs.len() == 0 || ({
        &&& match counter_field_of(pairs[0].0@) {
            Some(f) => !has_counter(pairs.drop_first(), f),
            None => true,
        }
        &&& no_repeated_counter(pairs.drop_first())
    })
}

/// Every recognized counter pair carries an accepted integer.
pub open spec fn all_counters_coerce(pairs: Seq<(String, Value)>) -> bool
    decreases pairs.len(),
{
    pairs.len() == 0 || ({
        &&& match counter_field_of(pairs[0].0@) {
            Some(f) => counter_of(f, pairs[0].1) is Ok,
            None => true,
        }
        &&& all_counters_coerce(pairs.drop_first())
    })
}

/// What a counter field is assigned.
pub open spec fn counter_val(f: FieldName, v: Value) -> i32 {
    match counter_of(f, v) {
        Ok(n) => n,
        Err(_) => 0,
    }
}

/// After a clean fold over the counters object, each counter holds
/// the value of the one pair naming it, or stays as it began.
pub open spec fn counters_fold_clean(
    pairs: Seq<(String, Value)>,
    st: CounterSet,
    st2: CounterSet,
) -> bool {
    &&& st2.total == (if has_counter(pairs, FieldName::Total) {
        Some(counter_val(FieldName::Total, first_counter_value(pairs, FieldName::Total)))
    } else {
        st.total
    })
    &&& st2.created == (if has_counter(pairs, FieldName::Created) {
        Some(counter_val(FieldName::Created, first_counter_value(pairs, FieldName::Created)))
    } else {
        st.created
    })
    &&& st2.scheduled == (if has_counter(pairs, FieldName::Scheduled) {
        Some(counter_val(FieldName::Scheduled, first_counter_value(pairs, FieldName::Scheduled)))
    } else {
        st.scheduled
    })
    &&& st2.deploying == (if has_counter(pairs, FieldName::Deploying) {
        Some(counter_val(FieldName::Deploying, first_counter_value(pairs, FieldName::Deploying)))
    } else {
        st.deploying
    })
    &&& st2.running == (if has_counter(pairs, FieldName::Running) {
        Some(counter_val(FieldName::Running, first_counter_value(pairs, FieldName::Running)))
    } else {
        st.running
    })
    &&& st2.finished == (if has_counter(pairs, FieldName::Finished) {
        Some(counter_val(FieldName::Finished, first_counter_value(pairs, FieldName::Finished)))
    } else {
        st.finished
    })
    &&& st2.canceling == (if has_counter(pairs, FieldName::Canceling) {
        Some(counter_val(FieldName::Canceling, first_counter_value(pairs, FieldName::Canceling)))
    } else {
        st.canceling
    })
    &&& st2.canceled == (if has_counter(pairs, FieldName::Canceled) {
        Some(counter_val(FieldName::Canceled, first_counter_value(pairs, FieldName::Canceled)))
    } else {
        st.canceled
    })
    &&& st2.failed == (if has_counter(pairs, FieldName::Failed) {
        Some(counter_val(FieldName::Failed, first_counter_value(pairs, FieldName::Failed)))
    } else {
        st.failed
    })
    &&& st2.reconciling == (if has_counter(pairs, FieldName::Reconciling) {
        Some(counter_val(FieldName::Reconciling, first_counter_value(pairs, FieldName::Reconciling)))
    } else {
        st.reconciling
    })
    &&& st2.initializing == (if has_counter(pairs, FieldName::Initializing) {
        Some(counter_val(FieldName::Initializing, first_counter_value(pairs, FieldName::Initializing)))
    } else {
        st.initializing
    })
}

#[verifier::rlimit(60)]
proof fn lemma_counters_fold_is_clean(pairs: Seq<(String, Value)>, st: CounterSet)
    requires
        no_repeated_counter(pairs),
        all_counters_coerce(pairs),
        forall|f: FieldName| has_counter(pairs, f) ==> !counter_seen(st, f),
    ensures
        counters_fold(pairs, st) is Ok,
        counters_fold_clean(pairs, st, counters_fold(pairs, st)->Ok_0),
    decreases pairs.len(),
{
    if pairs.len() > 0 {
        let k0 = pairs[0].0@;
        let v0 = pairs[0].1;
        let rest = pairs.drop_first();
        match counter_field_of(k0) {
            None => {
                assert(forall|f: FieldName| has_counter(rest, f) ==> has_counter(pairs, f));
                lemma_counters_fold_is_clean(rest, st);
            },
            Some(f0) => {
                assert(has_counter(pairs, f0));
                assert(!counter_seen(st, f0));
                let stepped = counters_step(st, k0, v0);
                assert(stepped is Ok);
                let st2 = stepped->Ok_0;
                assert(forall|f: FieldName| has_counter(rest, f) ==> has_counter(pairs, f));
                assert(forall|f: FieldName| has_counter(rest, f) ==> !counter_seen(st2, f));
                lemma_counters_fold_is_clean(rest, st2);
            },
        }
    }
}

/// For a counters object that names every counter, repeats none, and
/// carries only native integers in range, decoding succeeds, and each
/// counter of the result is exactly the value supplied for it.
pub proof fn lemma_counters_complete_ok(pairs: Seq<(String, Value)>)
    requires
        no_repeated_counter(pairs),
        all_counters_coerce(pairs),
        has_counter(pairs, FieldName::Total),
        has_counter(pairs, FieldName::Created),
        has_counter(pairs, FieldName::Scheduled),
        has_counter(pairs, FieldName::Deploying),
        has_counter(pairs, FieldName::Running),
        has_counter(pairs, FieldName::Finished),
        has_counter(pairs, FieldName::Canceling),
        has_counter(pairs, FieldName::Canceled),
        has_counter(pairs, FieldName::Failed),
        has_counter(pairs, FieldName::Reconciling),
        has_counter(pairs, FieldName::Initializing),
    ensures
        counters_of(pairs) is Ok,
        counters_of(pairs)->Ok_0.total == counter_val(
            FieldName::Total,
            first_counter_value(pairs, FieldName::Total),
        ),
        counters_of(pairs)->Ok_0.created == counter_val(
            FieldName::Created,
            first_counter_value(pairs, FieldName::Created),
        ),
        counters_of(pairs)->Ok_0.scheduled == counter_val(
            FieldName::Scheduled,
            first_counter_value(pairs, FieldName::Scheduled),
        ),
        counters_of(pairs)->Ok_0.deploying == counter_val(
            FieldName::Deploying,
            first_counter_value(pairs, FieldName::Deploying),
        ),
        counters_of(pairs)->Ok_0.running == counter_val(
            FieldName::Running,
            first_counter_value(pairs, FieldName::Running),
        ),
        counters_of(pairs)->Ok_0.finished == counter_val(
            FieldName::Finished,
            first_counter_value(pairs, FieldName::Finished),
        ),
        counters_of(pairs)->Ok_0.canceling == counter_val(
            FieldName::Canceling,
            first_counter_value(pairs, FieldName::Canceling),
        ),
        counters_of(pairs)->Ok_0.canceled == counter_val(
            FieldName::Canceled,
            first_counter_value(pairs, FieldName::Canceled),
        ),
        counters_of(pairs)->Ok_0.failed == counter_val(
            FieldName::Failed,
            first_counter_value(pairs, FieldName::Failed),
        ),
        counters_of(pairs)->Ok_0.reconciling == counter_val(
            FieldName::Reconciling,
            first_counter_value(pairs, FieldName::Reconciling),
        ),
        counters_of(pairs)->Ok_0.initializing == counter_val(
            FieldName::Initializing,
            first_counter_value(pairs, FieldName::Initializing),
        ),
{
    lemma_counters_fold_is_clean(pairs, counters_init());
}

/// For a counters object that repeats no counter and carries only
/// acceptable integers, a missing counter makes decoding fail with
/// `MissingField` naming the first missing counter in schema order.
pub proof fn lemma_counters_missing_named(pairs: Seq<(String, Value)>, f: FieldName)
    requires
        no_repeated_counter(pairs),
        all_counters_coerce(pairs),
        f == FieldName::Total || f == FieldName::Created || f == FieldName::Scheduled || f == FieldName::Deploying || f == FieldName::Running || f == FieldName::Finished || f == FieldName::Canceling || f == FieldName::Canceled || f == FieldName::Failed || f == FieldName::Reconciling || f == FieldName::Initializing,
        !has_counter(pairs, f),
        f != FieldName::Total ==> has_counter(pairs, FieldName::Total),
        f != FieldName::Created ==> has_counter(pairs, FieldName::Created),
        f != FieldName::Scheduled ==> has_counter(pairs, FieldName::Scheduled),
        f != FieldName::Deploying ==> has_counter(pairs, FieldName::Deploying),
        f != FieldName::Running ==> has_counter(pairs, FieldName::Running),
        f != FieldName::Finished ==> has_counter(pairs, FieldName::Finished),
        f != FieldName::Canceling ==> has_counter(pairs, FieldName::Canceling),
        f != FieldName::Canceled ==> has_counter(pairs, FieldName::Canceled),
        f != FieldName::Failed ==> has_counter(pairs, FieldName::Failed),
        f != FieldName::Reconciling ==> has_counter(pairs, FieldName::Reconciling),
        f != FieldName::Initializing ==> has_counter(pairs, FieldName::Initializing),
    ensures
        counters_of(pairs) == Err::<TaskInfo, DecodeError>(DecodeError::MissingField(f)),
{
    lemma_counters_fold_is_clean(pairs, counters_init());
}

} // verus!
