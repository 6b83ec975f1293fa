use peek::decode::{decode, DecodedValue};

fn cell(s: &str) -> Option<Vec<u8>> {
    Some(s.as_bytes().to_vec())
}

#[test]
fn int4_decodes_to_number() {
    assert_eq!(
        decode("INT4", &cell("42")),
        DecodedValue::Number("42".to_string())
    );
}

#[test]
fn bool_t_decodes_to_true() {
    assert_eq!(decode("BOOL", &cell("t")), DecodedValue::Boolean(true));
    assert_eq!(decode("BOOL", &cell("true")), DecodedValue::Boolean(true));
    assert_eq!(decode("BOOL", &cell("f")), DecodedValue::Boolean(false));
    assert_eq!(decode("BOOL", &cell("false")), DecodedValue::Boolean(false));
    assert_eq!(decode("BOOL", &cell("yes")), DecodedValue::Null);
}

#[test]
fn uuid_keeps_canonical_string() {
    let u = "550e8400-e29b-41d4-a716-446655440000";
    assert_eq!(decode("UUID", &cell(u)), DecodedValue::Text(u.to_string()));
}

#[test]
fn uuid_lowers_uppercase_hex() {
    assert_eq!(
        decode("UUID", &cell("550E8400-E29B-41D4-A716-446655440000")),
        DecodedValue::Text("550e8400-e29b-41d4-a716-446655440000".to_string())
    );
}

#[test]
fn uuid_rejects_bad_shapes() {
    assert_eq!(decode("UUID", &cell("not-a-uuid")), DecodedValue::Null);
    assert_eq!(
        decode("UUID", &cell("550e8400e29b41d4a716446655440000ABCD")),
        DecodedValue::Null
    );
}

#[test]
fn unknown_tag_with_invalid_utf8_is_null() {
    assert_eq!(
        decode("UNKNOWNTYPE", &Some(vec![0xff, 0xfe, 0x01])),
        DecodedValue::Null
    );
}

#[test]
fn unknown_tag_with_text_falls_back_to_string() {
    assert_eq!(
        decode("UNKNOWNTYPE", &cell("whatever")),
        DecodedValue::Text("whatever".to_string())
    );
}

#[test]
fn missing_cell_is_null_for_every_tag() {
    for tag in ["INT4", "TEXT", "BOOL", "UUID", "JSON", "MYSTERY"] {
        assert_eq!(decode(tag, &None), DecodedValue::Null);
    }
}

#[test]
fn tags_match_case_insensitively() {
    assert_eq!(
        decode("int4", &cell("7")),
        DecodedValue::Number("7".to_string())
    );
    assert_eq!(decode("Bool", &cell("t")), DecodedValue::Boolean(true));
}

#[test]
fn text_tags_pass_through() {
    assert_eq!(
        decode("TEXT", &cell("héllo wörld")),
        DecodedValue::Text("héllo wörld".to_string())
    );
    assert_eq!(
        decode("VARCHAR", &cell("x")),
        DecodedValue::Text("x".to_string())
    );
    assert_eq!(
        decode("CHAR", &cell("y")),
        DecodedValue::Text("y".to_string())
    );
}

#[test]
fn text_with_invalid_utf8_is_null() {
    assert_eq!(decode("TEXT", &Some(vec![0xc3, 0x28])), DecodedValue::Null);
}

#[test]
fn json_passes_through_as_document() {
    assert_eq!(
        decode("JSONB", &cell("{\"a\": [1, 2]}")),
        DecodedValue::Document("{\"a\": [1, 2]}".to_string())
    );
}

#[test]
fn int_range_edges() {
    assert_eq!(
        decode("INT2", &cell("32767")),
        DecodedValue::Number("32767".to_string())
    );
    assert_eq!(decode("INT2", &cell("32768")), DecodedValue::Null);
    assert_eq!(
        decode("INT2", &cell("-32768")),
        DecodedValue::Number("-32768".to_string())
    );
    assert_eq!(decode("INT2", &cell("-32769")), DecodedValue::Null);
    assert_eq!(
        decode("INT4", &cell("2147483647")),
        DecodedValue::Number("2147483647".to_string())
    );
    assert_eq!(decode("INT4", &cell("2147483648")), DecodedValue::Null);
    assert_eq!(
        decode("INT8", &cell("9223372036854775807")),
        DecodedValue::Number("9223372036854775807".to_string())
    );
    assert_eq!(decode("INT8", &cell("9223372036854775808")), DecodedValue::Null);
    assert_eq!(
        decode("INT8", &cell("-9223372036854775808")),
        DecodedValue::Number("-9223372036854775808".to_string())
    );
}

#[test]
fn int_rejects_non_canonical_text() {
    assert_eq!(decode("INT4", &cell("042")), DecodedValue::Null);
    assert_eq!(decode("INT4", &cell("-0")), DecodedValue::Null);
    assert_eq!(decode("INT4", &cell("4.2")), DecodedValue::Null);
    assert_eq!(decode("INT4", &cell("")), DecodedValue::Null);
    assert_eq!(decode("INT4", &cell("forty")), DecodedValue::Null);
    assert_eq!(
        decode("INT4", &cell("0")),
        DecodedValue::Number("0".to_string())
    );
}

#[test]
fn numeric_preserves_textual_precision() {
    assert_eq!(
        decode("NUMERIC", &cell("42.50")),
        DecodedValue::Number("42.50".to_string())
    );
    assert_eq!(
        decode("FLOAT8", &cell("-0.125")),
        DecodedValue::Number("-0.125".to_string())
    );
    assert_eq!(
        decode("FLOAT4", &cell("3")),
        DecodedValue::Number("3".to_string())
    );
}

#[test]
fn numeric_rejects_non_literals() {
    assert_eq!(decode("NUMERIC", &cell("NaN")), DecodedValue::Null);
    assert_eq!(decode("FLOAT8", &cell("1e5")), DecodedValue::Null);
    assert_eq!(decode("NUMERIC", &cell("1.")), DecodedValue::Null);
    assert_eq!(decode("NUMERIC", &cell(".5")), DecodedValue::Null);
}

#[test]
fn date_validates_the_calendar() {
    assert_eq!(
        decode("DATE", &cell("2024-02-29")),
        DecodedValue::Text("2024-02-29".to_string())
    );
    assert_eq!(decode("DATE", &cell("2023-02-29")), DecodedValue::Null);
    assert_eq!(decode("DATE", &cell("1900-02-29")), DecodedValue::Null);
    assert_eq!(
        decode("DATE", &cell("2000-02-29")),
        DecodedValue::Text("2000-02-29".to_string())
    );
    assert_eq!(decode("DATE", &cell("2024-13-01")), DecodedValue::Null);
    assert_eq!(decode("DATE", &cell("2024-00-10")), DecodedValue::Null);
    assert_eq!(decode("DATE", &cell("2024-04-31")), DecodedValue::Null);
    assert_eq!(decode("DATE", &cell("2024-1-5")), DecodedValue::Null);
}

#[test]
fn timestamp_gets_the_t_separator_and_drops_fractions() {
    assert_eq!(
        decode("TIMESTAMP", &cell("2024-01-02 03:04:05")),
        DecodedValue::Text("2024-01-02T03:04:05".to_string())
    );
    assert_eq!(
        decode("TIMESTAMP", &cell("2024-01-02T03:04:05.123456")),
        DecodedValue::Text("2024-01-02T03:04:05".to_string())
    );
    assert_eq!(decode("TIMESTAMP", &cell("2024-01-02 25:00:00")), DecodedValue::Null);
    assert_eq!(decode("TIMESTAMP", &cell("2024-01-02 03:04")), DecodedValue::Null);
    assert_eq!(decode("TIMESTAMP", &cell("2024-01-02 03:04:05.")), DecodedValue::Null);
}

#[test]
fn timestamptz_normalizes_the_offset() {
    assert_eq!(
        decode("TIMESTAMPTZ", &cell("2024-01-02 03:04:05+02")),
        DecodedValue::Text("2024-01-02T03:04:05+02:00".to_string())
    );
    assert_eq!(
        decode("TIMESTAMPTZ", &cell("2024-01-02 03:04:05Z")),
        DecodedValue::Text("2024-01-02T03:04:05+00:00".to_string())
    );
    assert_eq!(
        decode("TIMESTAMPTZ", &cell("2024-01-02 03:04:05.5-05:30")),
        DecodedValue::Text("2024-01-02T03:04:05-05:30".to_string())
    );
    assert_eq!(
        decode("TIMESTAMPTZ", &cell("2024-01-02 03:04:05")),
        DecodedValue::Null
    );
    assert_eq!(
        decode("TIMESTAMPTZ", &cell("2024-01-02 03:04:05+25")),
        DecodedValue::Null
    );
}
