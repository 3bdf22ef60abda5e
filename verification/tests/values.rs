use absurder_sql::column_value::{integer_of_double, truncate_double, JsInput, WasmColumnValue};
use absurder_sql::types::ColumnValue;

const DOUBLES: [f64; 30] = [
    0.0, -0.0, 0.5, -0.5, 1.0, -1.0, 1.5, -1.5, 42.0, 1e15, 4503599627370495.5,
    4503599627370496.5, 9007199254740993.0, 9.3e18, -9.3e18, 9223372036854775807.0,
    -9223372036854775808.0, -9223372036854777856.0, 9223372036854774784.0, 1.8446744073709552e19,
    1e300, -1e300, f64::MIN_POSITIVE, 5e-324, f64::MAX, f64::MIN, f64::INFINITY,
    f64::NEG_INFINITY, f64::NAN, 1e-300,
];

#[test]
fn doubles_are_truncated_as_rust_casts_them() {
    for d in DOUBLES {
        assert_eq!(truncate_double(d.to_bits()), d as i64, "{}", d);
    }
}

#[test]
fn integral_doubles_become_integers() {
    for d in DOUBLES {
        let fits = d.fract() == 0.0 && d >= i64::MIN as f64 && d <= i64::MAX as f64;
        let expected = if fits { Some(d as i64) } else { None };
        assert_eq!(integer_of_double(d.to_bits()), expected, "{}", d);
    }
}

fn from(input: JsInput) -> ColumnValue {
    WasmColumnValue::from_js_value(&input).inner
}

#[test]
fn values_from_javascript() {
    assert!(matches!(from(JsInput::Missing), ColumnValue::Null));
    assert!(matches!(from(JsInput::Other), ColumnValue::Null));
    assert!(matches!(from(JsInput::Text("42".to_string())), ColumnValue::Integer(42)));
    assert!(matches!(from(JsInput::Text("-7".to_string())), ColumnValue::Integer(-7)));
    match from(JsInput::Text("9223372036854775808".to_string())) {
        ColumnValue::Text(text) => assert_eq!(text, "9223372036854775808"),
        other => panic!("{:?}", other),
    }
    assert!(matches!(from(JsInput::Number(42.0f64.to_bits())), ColumnValue::Integer(42)));
    match from(JsInput::Number(1.5f64.to_bits())) {
        ColumnValue::Real(bits) => assert_eq!(f64::from_bits(bits), 1.5),
        other => panic!("{:?}", other),
    }
    assert!(matches!(
        from(JsInput::Number(9223372036854775808.0f64.to_bits())),
        ColumnValue::Integer(i64::MAX)
    ));
    assert!(matches!(
        from(JsInput::Object { time: 1700000000000.0f64.to_bits(), shown: "x".to_string() }),
        ColumnValue::Date(1700000000000)
    ));
    match from(JsInput::Object { time: f64::NAN.to_bits(), shown: "JsValue({})".to_string() }) {
        ColumnValue::Text(text) => assert_eq!(text, "JsValue({})"),
        other => panic!("{:?}", other),
    }
}

#[test]
fn constructors_of_values() {
    assert!(matches!(WasmColumnValue::create_null().inner, ColumnValue::Null));
    assert!(matches!(WasmColumnValue::null().inner, ColumnValue::Null));
    assert!(matches!(WasmColumnValue::create_integer(-3).inner, ColumnValue::Integer(-3)));
    assert!(matches!(
        WasmColumnValue::integer(42.9f64.to_bits()).inner,
        ColumnValue::Integer(42)
    ));
    assert!(matches!(
        WasmColumnValue::create_real(2.5f64.to_bits()).inner,
        ColumnValue::Real(0x4004_0000_0000_0000)
    ));
    assert!(matches!(
        WasmColumnValue::real_number(2.5f64.to_bits()).inner,
        ColumnValue::Real(0x4004_0000_0000_0000)
    ));
    for value in [
        WasmColumnValue::create_text("t".to_string()),
        WasmColumnValue::text("t".to_string()),
    ] {
        assert!(matches!(value.inner, ColumnValue::Text(text) if text == "t"));
    }
    for value in [WasmColumnValue::create_blob(&vec![1, 2]), WasmColumnValue::blob(vec![1, 2])] {
        assert!(matches!(value.inner, ColumnValue::Blob(data) if data == [1, 2]));
    }
    for value in [
        WasmColumnValue::create_bigint("123"),
        WasmColumnValue::big_int("123".to_string()),
    ] {
        assert!(matches!(value.inner, ColumnValue::BigInt(text) if text == "123"));
    }
    for value in [
        WasmColumnValue::create_date(5.9f64.to_bits()),
        WasmColumnValue::date(5.9f64.to_bits()),
    ] {
        assert!(matches!(value.inner, ColumnValue::Date(5)));
    }
}
