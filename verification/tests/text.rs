use dialogue_syntax::is_new_step;
use dialogue_syntax::strings::from_chars;
use dialogue_syntax::strings::lowercase;
use dialogue_syntax::strings::push_decimal;
use dialogue_syntax::strings::to_chars;
use dialogue_syntax::text::cut_once;
use dialogue_syntax::text::find;
use dialogue_syntax::text::is_whitespace;
use dialogue_syntax::text::is_word;
use dialogue_syntax::text::pieces;
use dialogue_syntax::text::split_trimmed_lines;
use dialogue_syntax::text::starts_with;
use dialogue_syntax::text::trimmed;
use dialogue_syntax::text::without_last;
use dialogue_syntax::text::without_prefix;
use dialogue_syntax::text::without_trailing;
use dialogue_syntax::Table;
use dialogue_syntax::DialogueValue;

fn chars(text: &str) -> Vec<char> {
    text.chars().collect()
}

fn string(chars: &[char]) -> String {
    chars.iter().collect()
}

#[test]
fn white_space_is_what_unicode_says() {
    let mut code: u32 = 0;
    while code <= 0x11000 {
        if let Some(c) = char::from_u32(code) {
            assert_eq!(is_whitespace(c), c.is_whitespace(), "code point {:x}", code);
        }
        code += 1;
    }
}

#[test]
fn trimming_agrees_with_std() {
    let samples = [
        "", " ", "   ", "a", " a", "a ", "  a b  ", "\t\r\n x \u{a0}\u{2003}", "\u{3000}y\u{85}",
        "x\u{200b}", "\u{feff}x", " - item ", "a\tb",
    ];
    for sample in samples {
        assert_eq!(string(trimmed(&chars(sample))), sample.trim(), "sample {:?}", sample);
    }
}

#[test]
fn finding_and_cutting() {
    let line = chars("name: Oscar: Robin");
    assert_eq!(find(&line, ':'), 4);
    assert_eq!(find(&line, '#'), line.len());
    let (before, after) = cut_once(&line, ':').unwrap();
    assert_eq!(string(before), "name");
    assert_eq!(string(after), " Oscar: Robin");
    assert!(cut_once(&line, '=').is_none());
    let edge = chars(":");
    let (before, after) = cut_once(&edge, ':').unwrap();
    assert!(before.is_empty());
    assert!(after.is_empty());
}

#[test]
fn pieces_agree_with_std_split() {
    let samples = ["", ",", "a", "a,b", "a,,b", ",a,", "a, b ,c", ",,"];
    for sample in samples {
        let line = chars(sample);
        let got: Vec<String> = pieces(&line, ',').into_iter().map(string).collect();
        let expected: Vec<String> = sample.split(',').map(|piece| piece.to_string()).collect();
        assert_eq!(got, expected, "sample {:?}", sample);
    }
}

#[test]
fn lines_agree_with_std_lines() {
    let samples = [
        "", "\n", "a", "a\n", "a\nb", "a\n\nb", "\na", "a\r\nb\r\n", "  a  \n\t\n b", "\n\n",
        "a\rb\n", "x\n ", " \n",
    ];
    for sample in samples {
        let text = chars(sample);
        let got: Vec<String> =
            split_trimmed_lines(&text).into_iter().map(|row| string(&row)).collect();
        let expected: Vec<String> = sample.lines().map(|line| line.trim().to_string()).collect();
        assert_eq!(got, expected, "sample {:?}", sample);
    }
}

#[test]
fn prefixes_and_suffixes() {
    let line = chars("=><= shop");
    assert!(starts_with(&line, "=>"));
    assert!(starts_with(&line, "=><="));
    assert!(starts_with(&line, ""));
    assert!(!starts_with(&line, "=><=  "));
    assert!(!starts_with(&chars("="), "=>"));
    assert_eq!(string(without_prefix(&line, "=><=").unwrap()), " shop");
    assert!(without_prefix(&line, "#").is_none());
    assert!(is_word(&chars("end"), "end"));
    assert!(!is_word(&chars("end "), "end"));
    assert!(!is_word(&chars("en"), "end"));
    assert!(!is_word(&chars("enx"), "end"));
    assert_eq!(string(without_last(&chars("a]"), ']').unwrap()), "a");
    assert!(without_last(&chars("a] "), ']').is_none());
    assert!(without_last(&chars(""), ']').is_none());
    assert_eq!(string(without_trailing(&chars("a=1))"), ')')), "a=1");
    assert_eq!(string(without_trailing(&chars(")))"), ')')), "");
    assert_eq!(string(without_trailing(&chars("a)b"), ')')), "a)b");
}

#[test]
fn strings_and_characters() {
    assert_eq!(to_chars("héllo"), chars("héllo"));
    assert_eq!(from_chars(&chars("héllo")), "héllo");
    assert_eq!(from_chars(&[]), "");
    assert_eq!(lowercase(&chars("ÉRIC The 3rd")), "éric the 3rd");
    assert_eq!(lowercase(&chars("ΣΑΣ")), "ΣΑΣ".to_lowercase());
}

#[test]
fn decimal_numerals() {
    for (number, numeral) in [(0usize, "0"), (7, "7"), (10, "10"), (99, "99"), (100, "100"), (12345, "12345")] {
        let mut text = String::from("n=");
        push_decimal(&mut text, number);
        assert_eq!(text, format!("n={}", numeral));
    }
    let mut text = String::new();
    push_decimal(&mut text, usize::MAX);
    assert_eq!(text, format!("{}", usize::MAX));
}

#[test]
fn new_steps() {
    for line in ["", "// c", "/// i", "//? w", "//! e", "@a", "@a: hi", "#s", "!f", "$v", "=> x", "=><= x"] {
        assert!(is_new_step(line), "line {:?}", line);
    }
    for line in ["hello", "- answer", "a: b", " ", " #s", "/ /", "=", "= >", "[x]", "~"] {
        assert!(!is_new_step(line), "line {:?}", line);
    }
}

#[test]
fn table_keeps_first_insertion_order_and_replaces_in_place() {
    let mut table: Table<DialogueValue> = Table::new();
    assert!(table.is_empty());
    assert_eq!(table.len(), 0);
    assert!(table.get("a").is_none());
    assert!(table.entry(0).is_none());
    table.insert("a".to_string(), DialogueValue::Boolean(true));
    table.insert("b".to_string(), DialogueValue::Boolean(false));
    table.insert("a".to_string(), DialogueValue::Text("again".to_string()));
    assert_eq!(table.len(), 2);
    assert!(!table.is_empty());
    assert!(table.contains_key("a"));
    assert!(table.contains_key("b"));
    assert!(!table.contains_key("A"));
    assert_eq!(table.get("a"), Some(&DialogueValue::Text("again".to_string())));
    assert_eq!(table.get("b"), Some(&DialogueValue::Boolean(false)));
    assert_eq!(table.entry(0), Some((&"a".to_string(), &DialogueValue::Text("again".to_string()))));
    assert_eq!(table.entry(1), Some((&"b".to_string(), &DialogueValue::Boolean(false))));
    assert!(table.entry(2).is_none());
}

#[test]
fn tables_are_equal_whatever_the_order() {
    let mut first: Table<DialogueValue> = Table::new();
    first.insert("a".to_string(), DialogueValue::Boolean(true));
    first.insert("b".to_string(), DialogueValue::Text("x".to_string()));
    let mut second: Table<DialogueValue> = Table::new();
    second.insert("b".to_string(), DialogueValue::Text("x".to_string()));
    second.insert("a".to_string(), DialogueValue::Boolean(true));
    assert_eq!(first, second);
    assert_eq!(first.clone(), first);
    let mut third = second.clone();
    third.insert("a".to_string(), DialogueValue::Boolean(false));
    assert_ne!(first, third);
    let mut fourth = second.clone();
    fourth.insert("c".to_string(), DialogueValue::Boolean(false));
    assert_ne!(first, fourth);
    assert_ne!(fourth, first);
    let empty: Table<DialogueValue> = Table::new();
    assert_ne!(first, empty);
    assert_eq!(empty, Table::new());
}
