use dialogue_syntax::parse_value;
use dialogue_syntax::parser::value::infer_value;
use dialogue_syntax::parser::value::is_numeral;
use dialogue_syntax::DialogueValue;

fn chars(text: &str) -> Vec<char> {
    text.chars().collect()
}

fn array(items: &[&str]) -> DialogueValue {
    DialogueValue::Array(items.iter().map(|item| item.to_string()).collect())
}

#[test]
fn value_inference_examples() {
    assert_eq!(parse_value("true"), DialogueValue::Boolean(true));
    assert_eq!(parse_value("26"), DialogueValue::Number("26".to_string()));
    assert_eq!("26".parse::<f64>().unwrap(), 26.0);
    assert_eq!(parse_value("[a, b]"), array(&["a", "b"]));
    assert_eq!(parse_value("hello"), DialogueValue::Text("hello".to_string()));
    assert_eq!(parse_value("[true, 2]"), array(&["true", "2"]));
}

#[test]
fn truth_values_are_case_sensitive() {
    assert_eq!(parse_value("false"), DialogueValue::Boolean(false));
    assert_eq!(parse_value("True"), DialogueValue::Text("True".to_string()));
    assert_eq!(parse_value("FALSE"), DialogueValue::Text("FALSE".to_string()));
    assert_eq!(parse_value("true "), DialogueValue::Text("true ".to_string()));
}

#[test]
fn lists_drop_empty_items_and_trim() {
    assert_eq!(parse_value("[]"), array(&[]));
    assert_eq!(parse_value("[ , a ,, b , ]"), array(&["a", "b"]));
    assert_eq!(parse_value("[a]"), array(&["a"]));
    assert_eq!(parse_value("[[a], b]"), array(&["[a]", "b"]));
    assert_eq!(parse_value("["), DialogueValue::Text("[".to_string()));
    assert_eq!(parse_value("]"), DialogueValue::Text("]".to_string()));
    assert_eq!(parse_value("[a] "), DialogueValue::Text("[a] ".to_string()));
    assert_eq!(parse_value("[a"), DialogueValue::Text("[a".to_string()));
}

#[test]
fn empty_text_is_text() {
    assert_eq!(parse_value(""), DialogueValue::Text(String::new()));
}

#[test]
fn numbers_come_before_lists_and_text() {
    assert_eq!(parse_value("3.14"), DialogueValue::Number("3.14".to_string()));
    assert_eq!(parse_value("-1.5"), DialogueValue::Number("-1.5".to_string()));
    assert_eq!(parse_value("1e3"), DialogueValue::Number("1e3".to_string()));
    assert_eq!(parse_value("inf"), DialogueValue::Number("inf".to_string()));
    assert_eq!(parse_value("NaN"), DialogueValue::Number("NaN".to_string()));
    assert_eq!(parse_value("1,5"), DialogueValue::Text("1,5".to_string()));
    assert_eq!(parse_value("0x10"), DialogueValue::Text("0x10".to_string()));
}

#[test]
fn infer_value_reads_characters() {
    assert_eq!(infer_value(&chars("[x, y]")), array(&["x", "y"]));
    assert_eq!(infer_value(&chars("7")), DialogueValue::Number("7".to_string()));
}

/// What is written as a number is what the machine reads as a 64-bit float.
#[test]
fn numerals_are_what_floats_parse() {
    let samples = [
        "", "0", "7", "26", "007", "123.456", "-1.5", "+1.5", "5.", ".5", ".", "-", "+", "+.", "-.5",
        "1e5", "1E5", "1e+5", "1e-5", "1e", "1e+", "e5", ".e5", "1.e5", "1.5e10", "1.5e1.0", "1e5.",
        "--1", "+-1", "-+1", "1-", "1+1", "1 ", " 1", "1_000", "1,000", "0x10", "1f", "1.2.3", "..1",
        "inf", "Inf", "INF", "-inf", "+inf", "infinity", "Infinity", "INFINITY", "-Infinity",
        "infinit", "infinityy", "in", "nan", "NaN", "NAN", "-nan", "+NaN", "nann", "na", "i", "n",
        "true", "hello", "1e400", "1e-400", "123456789012345678901234567890", "0.0000000000000000001",
        "１２", "٣", "1\u{0660}", "e", "E", "1E", "1E-", "1e--5", "1e+-5", "١", "ınf", "İNF", "ＩＮＦ",
        "1.0e0", "00.00", "-0", "+0.e-0", "9e99999999999999999999", ".e", "1..", "1.e", "+e1",
        "infinitY", "iNfInItY", "nAn", "inf ", " nan", "in f", "-", "+inf1", "1inf",
    ];
    for sample in samples {
        assert_eq!(
            is_numeral(&chars(sample)),
            sample.parse::<f64>().is_ok(),
            "numeral {:?}",
            sample
        );
    }
}
