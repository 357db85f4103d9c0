use rust_project::flink::{decode, decode_counters, CoercionReason, DecodeError, FieldName, Value};

fn pair(k: &str, v: Value) -> (String, Value) {
    (String::from(k), v)
}

fn all_counters() -> Vec<(String, Value)> {
    vec![
        pair("total", Value::Int(10)),
        pair("created", Value::Int(1)),
        pair("scheduled", Value::Int(2)),
        pair("deploying", Value::Int(0)),
        pair("running", Value::Int(3)),
        pair("finished", Value::Int(1)),
        pair("canceling", Value::Int(0)),
        pair("canceled", Value::Int(1)),
        pair("failed", Value::Int(2)),
        pair("reconciling", Value::Int(0)),
        pair("initializing", Value::Int(0)),
    ]
}

fn complete_input() -> Vec<(String, Value)> {
    vec![
        pair("jid", Value::Str(String::from("j1"))),
        pair("name", Value::Str(String::from("job-a"))),
        pair("state", Value::Str(String::from("RUNNING"))),
        pair("start-time", Value::Str(String::from("1000"))),
        pair("tasks", Value::Object(all_counters())),
    ]
}

#[test]
fn decodes_complete_record_with_string_start_time() {
    let rec = decode(&complete_input()).expect("decodes");
    assert_eq!(rec.jid, "j1");
    assert_eq!(rec.name, "job-a");
    assert_eq!(rec.state, "RUNNING");
    assert_eq!(rec.start_time, Some(1000));
    assert_eq!(rec.end_time, None);
    assert_eq!(rec.duration, None);
    assert_eq!(rec.last_modification, None);
    assert_eq!(rec.tasks.total, 10);
    assert_eq!(rec.tasks.running, 3);
    assert_eq!(rec.tasks.failed, 2);
    assert_eq!(rec.tasks.initializing, 0);
}

#[test]
fn native_int_start_time_decodes_to_same_value() {
    let mut input = complete_input();
    input[3] = pair("start-time", Value::Int(1000));
    let rec = decode(&input).expect("decodes");
    assert_eq!(rec.start_time, Some(1000));

    let mut unsigned = complete_input();
    unsigned[3] = pair("start-time", Value::UInt(1000));
    let rec2 = decode(&unsigned).expect("decodes");
    assert_eq!(rec2.start_time, Some(1000));
}

#[test]
fn duplicate_jid_fails_whatever_the_values() {
    let mut input = complete_input();
    input.push(pair("jid", Value::Str(String::from("j2"))));
    assert_eq!(
        decode(&input),
        Err(DecodeError::DuplicateField(FieldName::Jid))
    );
}

#[test]
fn missing_tasks_fails() {
    let mut input = complete_input();
    input.truncate(4);
    assert_eq!(
        decode(&input),
        Err(DecodeError::MissingField(FieldName::Tasks))
    );
}

#[test]
fn missing_each_required_field_is_named() {
    for (idx, field) in [
        (0, FieldName::Jid),
        (1, FieldName::Name),
        (2, FieldName::State),
    ] {
        let mut input = complete_input();
        input.remove(idx);
        assert_eq!(decode(&input), Err(DecodeError::MissingField(field)));
    }
}

#[test]
fn unsigned_overflow_start_time_is_a_coercion_error() {
    let mut input = complete_input();
    input[3] = pair("start-time", Value::UInt(9223372036854775808));
    assert_eq!(
        decode(&input),
        Err(DecodeError::CoercionError(
            FieldName::StartTime,
            CoercionReason::IntegerOutOfRange
        ))
    );
}

#[test]
fn float_and_bool_start_time_are_coercion_errors() {
    let mut input = complete_input();
    input[3] = pair("start-time", Value::Float(String::from("1.5")));
    assert_eq!(
        decode(&input),
        Err(DecodeError::CoercionError(
            FieldName::StartTime,
            CoercionReason::ExpectedInteger
        ))
    );

    let mut input2 = complete_input();
    input2[3] = pair("start-time", Value::Bool(true));
    assert_eq!(
        decode(&input2),
        Err(DecodeError::CoercionError(
            FieldName::StartTime,
            CoercionReason::ExpectedInteger
        ))
    );
}

#[test]
fn unparsable_start_time_text_is_a_coercion_error() {
    let mut input = complete_input();
    input[3] = pair("start-time", Value::Str(String::from("12a")));
    assert_eq!(
        decode(&input),
        Err(DecodeError::CoercionError(
            FieldName::StartTime,
            CoercionReason::BadDigits
        ))
    );
}

#[test]
fn flexible_string_fields_take_numbers_as_text() {
    let mut input = complete_input();
    input.push(pair("end-time", Value::Int(-42)));
    input.push(pair("duration", Value::UInt(90)));
    input.push(pair("last-modification", Value::Float(String::from("3.25"))));
    let rec = decode(&input).expect("decodes");
    assert_eq!(rec.end_time, Some(String::from("-42")));
    assert_eq!(rec.duration, Some(String::from("90")));
    assert_eq!(rec.last_modification, Some(String::from("3.25")));
}

#[test]
fn null_optional_field_stays_absent_but_counts_as_seen() {
    let mut input = complete_input();
    input[3] = pair("start-time", Value::Null);
    let rec = decode(&input).expect("decodes");
    assert_eq!(rec.start_time, None);

    let mut twice = complete_input();
    twice[3] = pair("start-time", Value::Null);
    twice.push(pair("start-time", Value::Int(7)));
    assert_eq!(
        decode(&twice),
        Err(DecodeError::DuplicateField(FieldName::StartTime))
    );
}

#[test]
fn unknown_keys_are_skipped_even_when_repeated() {
    let mut input = complete_input();
    input.push(pair("web-ui", Value::Str(String::from("x"))));
    input.push(pair("web-ui", Value::Bool(false)));
    let rec = decode(&input).expect("decodes");
    assert_eq!(rec.jid, "j1");
}

#[test]
fn non_string_jid_is_a_coercion_error() {
    let mut input = complete_input();
    input[0] = pair("jid", Value::Int(5));
    assert_eq!(
        decode(&input),
        Err(DecodeError::CoercionError(
            FieldName::Jid,
            CoercionReason::ExpectedString
        ))
    );
}

#[test]
fn nested_object_in_place_of_scalar_is_unsupported() {
    let mut input = complete_input();
    input[0] = pair("jid", Value::Object(vec![]));
    assert_eq!(decode(&input), Err(DecodeError::UnsupportedRepresentation));
}

#[test]
fn scalar_tasks_is_a_coercion_error() {
    let mut input = complete_input();
    input[4] = pair("tasks", Value::Int(3));
    assert_eq!(
        decode(&input),
        Err(DecodeError::CoercionError(
            FieldName::Tasks,
            CoercionReason::ExpectedObject
        ))
    );
}

#[test]
fn counters_reject_strings_and_track_duplicates_and_missing() {
    let mut counters = all_counters();
    counters[0] = pair("total", Value::Str(String::from("10")));
    assert_eq!(
        decode_counters(&counters),
        Err(DecodeError::CoercionError(
            FieldName::Total,
            CoercionReason::ExpectedInteger
        ))
    );

    let mut doubled = all_counters();
    doubled.push(pair("failed", Value::Int(2)));
    assert_eq!(
        decode_counters(&doubled),
        Err(DecodeError::DuplicateField(FieldName::Failed))
    );

    let mut short = all_counters();
    short.remove(0);
    assert_eq!(
        decode_counters(&short),
        Err(DecodeError::MissingField(FieldName::Total))
    );

    let info = decode_counters(&all_counters()).expect("decodes");
    assert_eq!(info.total, 10);
    assert_eq!(info.canceled, 1);
}

#[test]
fn counter_out_of_range_is_rejected() {
    let mut counters = all_counters();
    counters[1] = pair("created", Value::Int(2147483648));
    assert_eq!(
        decode_counters(&counters),
        Err(DecodeError::CoercionError(
            FieldName::Created,
            CoercionReason::IntegerOutOfRange
        ))
    );
}

#[test]
fn first_violation_in_input_order_wins() {
    // A rejected value before the duplicate: the coercion error wins.
    let input = vec![
        pair("jid", Value::Str(String::from("j1"))),
        pair("name", Value::Bool(true)),
        pair("jid", Value::Str(String::from("j2"))),
    ];
    assert_eq!(
        decode(&input),
        Err(DecodeError::CoercionError(
            FieldName::Name,
            CoercionReason::ExpectedString
        ))
    );

    // The duplicate before the rejected value: the duplicate wins.
    let input2 = vec![
        pair("jid", Value::Str(String::from("j1"))),
        pair("jid", Value::Str(String::from("j2"))),
        pair("name", Value::Bool(true)),
    ];
    assert_eq!(
        decode(&input2),
        Err(DecodeError::DuplicateField(FieldName::Jid))
    );
}

#[test]
fn field_names_print_as_their_keys() {
    assert_eq!(FieldName::Jid.text(), "jid");
    assert_eq!(FieldName::StartTime.text(), "start-time");
    assert_eq!(FieldName::LastModification.text(), "last-modification");
    assert_eq!(FieldName::Total.text(), "total");
}

#[test]
fn bool_flexible_string_is_a_coercion_error() {
    let mut input = complete_input();
    input.push(pair("end-time", Value::Bool(true)));
    assert_eq!(
        decode(&input),
        Err(DecodeError::CoercionError(
            FieldName::EndTime,
            CoercionReason::ExpectedText
        ))
    );
}

#[test]
fn array_in_place_of_scalar_or_object_is_unsupported() {
    let mut input = complete_input();
    input[3] = pair("start-time", Value::Array(vec![Value::Int(1)]));
    assert_eq!(decode(&input), Err(DecodeError::UnsupportedRepresentation));

    let mut input2 = complete_input();
    input2[4] = pair("tasks", Value::Array(vec![]));
    assert_eq!(decode(&input2), Err(DecodeError::UnsupportedRepresentation));
}

#[test]
fn start_time_at_the_signed_bounds_is_kept() {
    let mut input = complete_input();
    input[3] = pair("start-time", Value::Str(String::from("-9223372036854775808")));
    assert_eq!(decode(&input).unwrap().start_time, Some(i64::MIN));

    let mut input2 = complete_input();
    input2[3] = pair("start-time", Value::UInt(9223372036854775807));
    assert_eq!(decode(&input2).unwrap().start_time, Some(i64::MAX));
}
