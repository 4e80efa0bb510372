use mavec::error::MavecError;
use mavec::flatten::{to_vec, Number, Value};

fn pairs_of(tokens: &[String]) -> Vec<(String, String)> {
    assert!(tokens.len() % 2 == 0);
    let mut pairs = Vec::new();
    let mut i = 0;
    while i < tokens.len() {
        pairs.push((tokens[i].clone(), tokens[i + 1].clone()));
        i += 2;
    }
    pairs
}

#[test]
fn object_flattening_mixed_types() {
    let value = Value::Object(vec![
        (String::from("Jeff"), Value::Bool(true)),
        (String::from("Rose"), Value::String(String::from("Mary"))),
        (String::from("Miguel"), Value::Number(Number::UInt(17))),
    ]);
    let tokens = to_vec(value).unwrap();
    assert_eq!(tokens.len(), 6);
    let pairs = pairs_of(&tokens);
    assert!(pairs.contains(&(String::from("Jeff"), String::from("true"))));
    assert!(pairs.contains(&(String::from("Rose"), String::from("Mary"))));
    assert!(pairs.contains(&(String::from("Miguel"), String::from("17"))));
}

#[test]
fn array_flattening_mixed_types() {
    let value = Value::Array(vec![
        Value::Number(Number::UInt(1)),
        Value::Bool(true),
        Value::String(String::from("Mavec")),
        Value::Bool(false),
    ]);
    let tokens = to_vec(value).unwrap();
    assert_eq!(
        tokens,
        vec![
            String::from("1"),
            String::from("true"),
            String::from("Mavec"),
            String::from("false"),
        ]
    );
}

#[test]
fn scalar_number_is_rejected() {
    let result = to_vec(Value::Number(Number::UInt(42)));
    assert!(matches!(result, Err(MavecError::JsonStructureParseError(_))));
}

#[test]
fn scalar_string_is_rejected() {
    let result = to_vec(Value::String(String::from("hello")));
    assert!(matches!(result, Err(MavecError::JsonStructureParseError(_))));
}

#[test]
fn scalar_bool_is_rejected() {
    let result = to_vec(Value::Bool(true));
    assert!(matches!(result, Err(MavecError::JsonStructureParseError(_))));
}

#[test]
fn scalar_null_is_rejected() {
    let result = to_vec(Value::Null);
    assert!(matches!(result, Err(MavecError::JsonStructureParseError(_))));
}

#[test]
fn rejection_carries_the_expected_detail() {
    match to_vec(Value::Null) {
        Err(MavecError::JsonStructureParseError(detail)) => {
            assert_eq!(detail, "Value could not be converted to Vec");
        }
        other => panic!("expected a structural parse error, got {:?}", other),
    }
}

#[test]
fn error_message_has_prefix_and_detail() {
    let error = to_vec(Value::Bool(false)).unwrap_err();
    assert_eq!(
        error.message(),
        "Json structure parse error: Value could not be converted to Vec"
    );
}

#[test]
fn empty_object_yields_empty_output() {
    let tokens = to_vec(Value::Object(vec![])).unwrap();
    assert!(tokens.is_empty());
}

#[test]
fn empty_array_yields_empty_output() {
    let tokens = to_vec(Value::Array(vec![])).unwrap();
    assert!(tokens.is_empty());
}

#[test]
fn nested_array_collapses_to_empty_token() {
    let value = Value::Object(vec![(
        String::from("a"),
        Value::Array(vec![
            Value::Number(Number::UInt(1)),
            Value::Number(Number::UInt(2)),
            Value::Number(Number::UInt(3)),
        ]),
    )]);
    let tokens = to_vec(value).unwrap();
    assert_eq!(tokens, vec![String::from("a"), String::from("")]);
}

#[test]
fn nested_object_collapses_to_empty_token() {
    let inner = Value::Object(vec![(String::from("x"), Value::Bool(true))]);
    let value = Value::Array(vec![Value::Bool(true), inner]);
    let tokens = to_vec(value).unwrap();
    assert_eq!(tokens, vec![String::from("true"), String::from("")]);
}

#[test]
fn object_output_has_two_tokens_per_pair() {
    let value = Value::Object(vec![
        (String::from("a"), Value::Null),
        (String::from("b"), Value::Bool(false)),
        (String::from("c"), Value::Number(Number::Int(-3))),
        (String::from("d"), Value::Array(vec![])),
    ]);
    let tokens = to_vec(value).unwrap();
    assert_eq!(tokens.len(), 8);
}

#[test]
fn array_output_has_one_token_per_element() {
    let value = Value::Array(vec![Value::Null, Value::Null, Value::Object(vec![])]);
    let tokens = to_vec(value).unwrap();
    assert_eq!(tokens.len(), 3);
}

#[test]
fn rerun_on_cloned_input_yields_equal_output() {
    let value = Value::Object(vec![
        (String::from("k"), Value::Number(Number::Int(-12))),
        (String::from("nested"), Value::Array(vec![Value::Null])),
        (String::from("s"), Value::String(String::from("text"))),
    ]);
    let again = value.clone();
    let first = to_vec(value).unwrap();
    let second = to_vec(again).unwrap();
    assert_eq!(first, second);
}

#[test]
fn null_and_booleans_render_as_literals() {
    let value = Value::Array(vec![Value::Null, Value::Bool(true), Value::Bool(false)]);
    let tokens = to_vec(value).unwrap();
    assert_eq!(
        tokens,
        vec![String::from("null"), String::from("true"), String::from("false")]
    );
}

#[test]
fn integers_render_in_plain_decimal() {
    let value = Value::Array(vec![
        Value::Number(Number::UInt(0)),
        Value::Number(Number::UInt(10)),
        Value::Number(Number::UInt(u64::MAX)),
        Value::Number(Number::Int(-1)),
        Value::Number(Number::Int(-907)),
        Value::Number(Number::Int(i64::MIN)),
        Value::Number(Number::Int(i64::MAX)),
    ]);
    let tokens = to_vec(value).unwrap();
    assert_eq!(
        tokens,
        vec![
            String::from("0"),
            String::from("10"),
            String::from("18446744073709551615"),
            String::from("-1"),
            String::from("-907"),
            String::from("-9223372036854775808"),
            String::from("9223372036854775807"),
        ]
    );
}

#[test]
fn decimal_text_is_emitted_verbatim() {
    let value = Value::Object(vec![(
        String::from("ratio"),
        Value::Number(Number::Decimal(String::from("2.5"))),
    )]);
    let tokens = to_vec(value).unwrap();
    assert_eq!(tokens, vec![String::from("ratio"), String::from("2.5")]);
}

#[test]
fn string_leaves_are_verbatim_and_unquoted() {
    let value = Value::Array(vec![Value::String(String::from("a \"quoted\" piece"))]);
    let tokens = to_vec(value).unwrap();
    assert_eq!(tokens, vec![String::from("a \"quoted\" piece")]);
}
