use narrative::value::BoxedValue;
use narrative::value::ValueData;

fn s(x: &str) -> String {
    x.to_string()
}

fn boxed(v: ValueData) -> BoxedValue {
    BoxedValue::new(v)
}

#[test]
fn test_integers_render_in_decimal() {
    assert_eq!(boxed(ValueData::Int(0)).debug_string(), "0");
    assert_eq!(boxed(ValueData::Int(7)).debug_string(), "7");
    assert_eq!(boxed(ValueData::Int(120)).debug_string(), "120");
    assert_eq!(boxed(ValueData::Int(-1)).debug_string(), "-1");
    assert_eq!(boxed(ValueData::Int(-9042)).debug_string(), "-9042");
    assert_eq!(
        boxed(ValueData::Int(i64::MAX)).debug_string(),
        "9223372036854775807"
    );
    assert_eq!(
        boxed(ValueData::Int(i64::MIN)).debug_string(),
        "-9223372036854775808"
    );
}

#[test]
fn test_text_debug_is_quoted_and_escaped() {
    assert_eq!(boxed(ValueData::Text(s("ryo"))).debug_string(), r#""ryo""#);
    assert_eq!(boxed(ValueData::Text(s(""))).debug_string(), r#""""#);
    assert_eq!(
        boxed(ValueData::Text(s("say \"hi\""))).debug_string(),
        r#""say \"hi\"""#
    );
    assert_eq!(
        boxed(ValueData::Text(s("a\\b"))).debug_string(),
        r#""a\\b""#
    );
    assert_eq!(
        boxed(ValueData::Text(s("line\nbreak\ttab\rret"))).debug_string(),
        r#""line\nbreak\ttab\rret""#
    );
}

#[test]
fn test_text_display_is_verbatim() {
    assert_eq!(boxed(ValueData::Text(s("say \"hi\""))).display_string(), "say \"hi\"");
    assert_eq!(boxed(ValueData::Int(-5)).display_string(), "-5");
    assert_eq!(boxed(ValueData::Bool(true)).display_string(), "true");
}

#[test]
fn test_unit_and_bool_renderings() {
    assert_eq!(boxed(ValueData::Unit).debug_string(), "()");
    assert_eq!(boxed(ValueData::Bool(true)).debug_string(), "true");
    assert_eq!(boxed(ValueData::Bool(false)).debug_string(), "false");
}

#[test]
fn test_list_renderings() {
    assert_eq!(boxed(ValueData::List(Vec::new())).debug_string(), "[]");
    assert_eq!(
        boxed(ValueData::List(vec![ValueData::Int(1)])).debug_string(),
        "[1]"
    );
    assert_eq!(
        boxed(ValueData::List(vec![
            ValueData::Int(1),
            ValueData::Int(2),
            ValueData::Int(3),
        ]))
        .debug_string(),
        "[1, 2, 3]"
    );
    let nested = ValueData::List(vec![
        ValueData::List(vec![ValueData::Text(s("a")), ValueData::Text(s("b"))]),
        ValueData::List(vec![
            ValueData::Text(s("c")),
            ValueData::Text(s("d")),
            ValueData::Text(s("e")),
        ]),
    ]);
    assert_eq!(boxed(nested).debug_string(), r#"[["a", "b"], ["c", "d", "e"]]"#);
}

#[test]
fn test_boxed_value_keeps_its_data() {
    let b = boxed(ValueData::Int(11));
    assert_eq!(b.data(), &ValueData::Int(11));
}
