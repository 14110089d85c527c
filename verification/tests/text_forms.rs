use blockchain::text::{push_decimal, push_json_string, push_signed_decimal};

fn decimal_of(n: u64) -> String {
    let mut out = String::new();
    push_decimal(&mut out, n);
    out
}

fn signed_decimal_of(v: i64) -> String {
    let mut out = String::new();
    push_signed_decimal(&mut out, v);
    out
}

fn json_of(s: &str) -> String {
    let mut out = String::new();
    push_json_string(&mut out, s);
    out
}

#[test]
fn decimal_numerals_have_no_leading_zeros() {
    assert_eq!(decimal_of(0), "0");
    assert_eq!(decimal_of(7), "7");
    assert_eq!(decimal_of(10), "10");
    assert_eq!(decimal_of(120), "120");
    assert_eq!(decimal_of(1_000_000), "1000000");
    assert_eq!(decimal_of(u64::MAX), "18446744073709551615");
}

#[test]
fn decimal_numerals_are_appended_to_what_is_there() {
    let mut out = String::from("n=");
    push_decimal(&mut out, 42);
    push_decimal(&mut out, 0);
    assert_eq!(out, "n=420");
}

#[test]
fn signed_numerals_carry_a_minus_sign() {
    assert_eq!(signed_decimal_of(0), "0");
    assert_eq!(signed_decimal_of(1), "1");
    assert_eq!(signed_decimal_of(-1), "-1");
    assert_eq!(signed_decimal_of(-25), "-25");
    assert_eq!(signed_decimal_of(i64::MAX), "9223372036854775807");
    assert_eq!(signed_decimal_of(i64::MIN), "-9223372036854775808");
}

#[test]
fn numerals_agree_with_the_standard_formatting() {
    let samples: Vec<u64> = vec![0, 1, 9, 10, 11, 99, 100, 101, 65535, 4294967296, u64::MAX - 1];
    for n in samples {
        assert_eq!(decimal_of(n), format!("{}", n));
    }
    let signed: Vec<i64> = vec![0, -1, 1, -9, -10, 1234567, -1234567, i64::MIN + 1];
    for v in signed {
        assert_eq!(signed_decimal_of(v), format!("{}", v));
    }
}

#[test]
fn plain_text_is_quoted_as_it_is() {
    assert_eq!(json_of(""), "\"\"");
    assert_eq!(json_of("alice"), "\"alice\"");
    assert_eq!(json_of("192.168.0.5:5000"), "\"192.168.0.5:5000\"");
    assert_eq!(json_of("a/b"), "\"a/b\"");
}

#[test]
fn quotes_and_backslashes_are_escaped() {
    assert_eq!(json_of("say \"hi\""), "\"say \\\"hi\\\"\"");
    assert_eq!(json_of("a\\b"), "\"a\\\\b\"");
    assert_eq!(json_of("\\\""), "\"\\\\\\\"\"");
}

#[test]
fn control_characters_are_escaped() {
    assert_eq!(json_of("\n"), "\"\\n\"");
    assert_eq!(json_of("\r"), "\"\\r\"");
    assert_eq!(json_of("\t"), "\"\\t\"");
    assert_eq!(json_of("\u{8}"), "\"\\b\"");
    assert_eq!(json_of("\u{c}"), "\"\\f\"");
    assert_eq!(json_of("\u{0}"), "\"\\u0000\"");
    assert_eq!(json_of("\u{1}"), "\"\\u0001\"");
    assert_eq!(json_of("\u{b}"), "\"\\u000b\"");
    assert_eq!(json_of("\u{1a}"), "\"\\u001a\"");
    assert_eq!(json_of("\u{1f}"), "\"\\u001f\"");
}

#[test]
fn other_characters_are_not_escaped() {
    assert_eq!(json_of(" "), "\" \"");
    assert_eq!(json_of("\u{7f}"), "\"\u{7f}\"");
    assert_eq!(json_of("caf\u{e9}"), "\"caf\u{e9}\"");
    assert_eq!(json_of("\u{1f600}"), "\"\u{1f600}\"");
    assert_eq!(json_of("\u{2028}"), "\"\u{2028}\"");
}

#[test]
fn string_literals_agree_with_serde_json() {
    let mut samples: Vec<String> = vec![
        String::new(),
        String::from("alice"),
        String::from("a \"quoted\" word"),
        String::from("back\\slash"),
        String::from("line\nbreak\r\n\ttab"),
        String::from("caf\u{e9} \u{1f600} \u{2028}\u{2029}"),
        String::from("\u{7f}\u{80}\u{ff}"),
    ];
    let mut every_low_character = String::new();
    for code in 0u32..0x30 {
        every_low_character.push(char::from_u32(code).unwrap());
    }
    samples.push(every_low_character);
    for sample in samples {
        assert_eq!(json_of(&sample), serde_json::to_string(&sample).unwrap());
    }
}
