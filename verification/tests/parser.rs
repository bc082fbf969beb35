use dialogue_syntax::parse;
use dialogue_syntax::parse_test_helper;
use dialogue_syntax::Dialogue;
use dialogue_syntax::DialogueActor;
use dialogue_syntax::DialogueFunction;
use dialogue_syntax::DialogueLine;
use dialogue_syntax::DialogueSection;
use dialogue_syntax::DialogueStep;
use dialogue_syntax::DialogueValue;
use dialogue_syntax::Table;
use dialogue_syntax::META_SECTION_NAME;

/// Parses `input` and fails the test where parsing gave a warning.
fn parsed_without_warnings(input: &str) -> Dialogue {
    parse_test_helper(input).expect("Unexpected warnings")
}

/// A number: the numeral as the document holds it, which must read as
/// `value`.
fn number(numeral: &str, value: f64) -> DialogueValue {
    assert_eq!(numeral.parse::<f64>().unwrap(), value);
    DialogueValue::Number(numeral.to_string())
}

fn text(value: &str) -> DialogueValue {
    DialogueValue::Text(value.to_string())
}

fn values(entries: Vec<(&str, DialogueValue)>) -> Table<DialogueValue> {
    let mut table = Table::new();
    for (name, value) in entries {
        table.insert(name.to_string(), value);
    }
    table
}

fn actors(entries: Vec<(&str, DialogueActor)>) -> Table<DialogueActor> {
    let mut table = Table::new();
    for (name, actor) in entries {
        table.insert(name.to_string(), actor);
    }
    table
}

fn functions(entries: Vec<(&str, DialogueFunction)>) -> Table<DialogueFunction> {
    let mut table = Table::new();
    for (name, function) in entries {
        table.insert(name.to_string(), function);
    }
    table
}

fn meta(steps: Vec<DialogueStep>) -> DialogueSection {
    DialogueSection { name: META_SECTION_NAME.to_string(), steps }
}

fn plain(line: &str) -> DialogueLine {
    DialogueLine::Text(line.to_string())
}

fn response(line: &str) -> DialogueLine {
    DialogueLine::Response { text: line.to_string(), pages: vec![] }
}

fn spoken(speaker: &str, line: &str) -> DialogueLine {
    DialogueLine::SpeakerText { speaker: speaker.to_string(), text: line.to_string() }
}

fn document(sections: Vec<DialogueSection>) -> Dialogue {
    Dialogue { sections, ..Default::default() }
}

#[test]
fn test_actor_definitions() {
    let input = r"
@Oscar
name: Oscar Robin
age: 26";

    let expected = Dialogue {
        actors: actors(vec![(
            "oscar",
            DialogueActor {
                name: "Oscar Robin".to_string(),
                properties: values(vec![("name", text("Oscar Robin")), ("age", number("26", 26.0))]),
            },
        )]),
        ..Default::default()
    };

    let result = parsed_without_warnings(input);

    assert_eq!(result.actors, expected.actors);
}

#[test]
fn test_variable_definitions() {
    let input = r"
$example_text: This is some text
$example_boolean: true
$example_number: 123.456
$example_array: [This is an entry, This is also an entry]";

    let expected = Dialogue {
        variables: values(vec![
            ("example_text", text("This is some text")),
            ("example_boolean", DialogueValue::Boolean(true)),
            ("example_number", number("123.456", 123.456)),
            (
                "example_array",
                DialogueValue::Array(vec![
                    "This is an entry".to_string(),
                    "This is also an entry".to_string(),
                ]),
            ),
        ]),
        ..Default::default()
    };

    let result = parsed_without_warnings(input);

    assert_eq!(result.variables, expected.variables);
}

#[test]
fn test_variable_assignment() {
    let input = r"
$foo: 1
$foo = 2";

    let expected = Dialogue {
        variables: values(vec![("foo", number("1", 1.0))]),
        sections: vec![DialogueSection {
            name: META_SECTION_NAME.to_string(),
            steps: vec![DialogueStep::VariableAssign {
                name: "foo".to_string(),
                value: number("2", 2.0),
            }],
        }],

        ..Default::default()
    };

    let result = parsed_without_warnings(input);

    assert_eq!(result.variables, expected.variables);
    assert_eq!(result.sections, expected.sections);
}

#[test]
fn test_function_definitions() {
    let input = r"
!example_function
!example_function_result: Default return value
!example_function_args(arg_1=Some value, arg_2=123.456)
!example_function_args_result(arg_1=Some value, arg_2=123.456): Default return value";

    let expected = Dialogue {
        functions: functions(vec![
            ("example_function", DialogueFunction { args: None, result: None }),
            (
                "example_function_result",
                DialogueFunction { args: None, result: Some(text("Default return value")) },
            ),
            (
                "example_function_args",
                DialogueFunction {
                    args: Some(values(vec![
                        ("arg_1", text("Some value")),
                        ("arg_2", number("123.456", 123.456)),
                    ])),
                    result: None,
                },
            ),
            (
                "example_function_args_result",
                DialogueFunction {
                    args: Some(values(vec![
                        ("arg_1", text("Some value")),
                        ("arg_2", number("123.456", 123.456)),
                    ])),
                    result: Some(text("Default return value")),
                },
            ),
        ]),
        ..Default::default()
    };

    let result = parsed_without_warnings(input);

    assert_eq!(result.functions, expected.functions);
}

#[test]
fn test_section_definitons() {
    let input = r"
#Intro
Hello
#Outro
Goodbye";

    let expected = Dialogue {
        sections: vec![
            DialogueSection {
                name: "Intro".to_string(),
                steps: vec![DialogueStep::Page(vec![DialogueLine::Text("Hello".to_string())])],
            },
            DialogueSection {
                name: "Outro".to_string(),
                steps: vec![DialogueStep::Page(vec![DialogueLine::Text("Goodbye".to_string())])],
            },
        ],
        ..Default::default()
    };

    let result = parsed_without_warnings(input);

    assert_eq!(result.sections, expected.sections);
}

#[test]
fn test_comments_and_logs() {
    let input = r"
// Comment
/// Info
//? Warning
//! Error";

    let expected = Dialogue {
        sections: vec![DialogueSection {
            name: META_SECTION_NAME.to_string(),
            steps: vec![
                DialogueStep::Comment("Comment".to_string()),
                DialogueStep::LogInfo("Info".to_string()),
                DialogueStep::LogWarning("Warning".to_string()),
                DialogueStep::LogError("Error".to_string()),
            ],
        }],
        ..Default::default()
    };

    let result = parsed_without_warnings(input);

    assert_eq!(result, expected);
}

#[test]
fn test_spoken_dialogue() {
    let input = r"
@Oscar
name: Oscar Robin

@Oscar: Hello
Other Oscar: Hi";

    let expected = Dialogue {
        actors: actors(vec![(
            "oscar",
            DialogueActor {
                name: "Oscar Robin".to_string(),
                properties: values(vec![("name", text("Oscar Robin"))]),
            },
        )]),
        sections: vec![DialogueSection {
            name: META_SECTION_NAME.to_string(),
            steps: vec![DialogueStep::Page(vec![
                DialogueLine::SpeakerText {
                    speaker: "oscar".to_string(),
                    text: "Hello".to_string(),
                },
                DialogueLine::SpeakerText {
                    speaker: "Other Oscar".to_string(),
                    text: "Hi".to_string(),
                },
            ])],
        }],
        ..Default::default()
    };

    let result = parsed_without_warnings(input);

    assert_eq!(result, expected);
}

#[test]
fn test_responses_and_nesting() {
    let input = r"
- Response 1
    - Nested Response";

    let expected = Dialogue {
        sections: vec![DialogueSection {
            name: META_SECTION_NAME.to_string(),
            steps: vec![DialogueStep::Page(vec![
                DialogueLine::Response { text: "Response 1".to_string(), pages: vec![] },
                DialogueLine::Response { text: "Nested Response".to_string(), pages: vec![] },
            ])],
        }],
        ..Default::default()
    };

    let result = parsed_without_warnings(input);

    assert_eq!(result.sections, expected.sections);
}

// The six inputs below use marks that the language does not have. Each of
// their lines is therefore a line of text in a page.

#[test]
fn test_manual_page_extensions() {
    let input = r"
| This is a single page
|
| - Wow!
| - More!";

    let expected = document(vec![meta(vec![DialogueStep::Page(vec![
        plain("| This is a single page"),
        plain("|"),
        plain("| - Wow!"),
        plain("| - More!"),
    ])])]);

    let result = parsed_without_warnings(input);

    assert_eq!(result, expected);
}

#[test]
fn test_annotated_dialogue() {
    let input = r"
[mood=info]
This is annotated.";

    let expected = document(vec![meta(vec![DialogueStep::Page(vec![
        plain("[mood=info]"),
        plain("This is annotated."),
    ])])]);

    let result = parsed_without_warnings(input);

    assert_eq!(result, expected);
}

#[test]
fn test_conditional_blocks() {
    let input = r"
[if=$var]
Text
~ ELSE
Other
~";

    let expected = document(vec![meta(vec![DialogueStep::Page(vec![
        plain("[if=$var]"),
        plain("Text"),
        plain("~ ELSE"),
        plain("Other"),
        plain("~"),
    ])])]);

    let result = parsed_without_warnings(input);

    assert_eq!(result, expected);
}

#[test]
fn test_branching_repeat_while_each() {
    let input = r"
~ REPEAT 3
Repeat
~
~ WHILE $var < 10
While
~
~ EACH $arr as $item
Each
~";

    let expected = document(vec![meta(vec![DialogueStep::Page(vec![
        plain("~ REPEAT 3"),
        plain("Repeat"),
        plain("~"),
        plain("~ WHILE $var < 10"),
        plain("While"),
        plain("~"),
        plain("~ EACH $arr as $item"),
        plain("Each"),
        plain("~"),
    ])])]);

    let result = parsed_without_warnings(input);

    assert_eq!(result, expected);
}

#[test]
fn test_jumps_and_bounces() {
    let input = r"
=> #Outro
=><= #Outro
=> END
=> TERMINATE";

    let expected = Dialogue {
        sections: vec![DialogueSection {
            name: META_SECTION_NAME.to_string(),
            steps: vec![
                DialogueStep::SectionJump("#Outro".to_string()),
                DialogueStep::SectionBounce("#Outro".to_string()),
                DialogueStep::EndJump,
                DialogueStep::TerminateJump,
            ],
        }],
        ..Default::default()
    };

    let result = parsed_without_warnings(input);

    assert_eq!(result, expected);
}

#[test]
fn test_data_references() {
    let input = "This is a variable: {$var}. This is a property: {@actor.prop}.";

    let expected = document(vec![meta(vec![DialogueStep::Page(vec![spoken(
        "This is a variable",
        "{$var}. This is a property: {@actor.prop}.",
    )])])]);

    let result = parsed_without_warnings(input);

    assert_eq!(result, expected);
}

#[test]
fn test_rich_text() {
    let input = "This is **bold** and *italic*";

    let expected = document(vec![meta(vec![DialogueStep::Page(vec![plain(
        "This is **bold** and *italic*",
    )])])]);

    let result = parsed_without_warnings(input);

    assert_eq!(result, expected);
}

#[test]
fn empty_input_gives_one_empty_section() {
    let result = parse(String::new());
    assert!(result.warnings.is_empty());
    assert_eq!(result.dialogue, document(vec![meta(vec![])]));
}

#[test]
fn last_section_joins_even_when_empty() {
    let result = parsed_without_warnings("#A\nHello\n#B");
    assert_eq!(
        result.sections,
        vec![
            DialogueSection {
                name: "A".to_string(),
                steps: vec![DialogueStep::Page(vec![plain("Hello")])],
            },
            DialogueSection { name: "B".to_string(), steps: vec![] },
        ]
    );
}

#[test]
fn empty_section_in_the_middle_is_dropped() {
    let result = parsed_without_warnings("#A\n#B\nHello");
    assert_eq!(
        result.sections,
        vec![DialogueSection {
            name: "B".to_string(),
            steps: vec![DialogueStep::Page(vec![plain("Hello")])],
        }]
    );
}

#[test]
fn names_are_held_in_lower_case() {
    let result = parsed_without_warnings("@OSCAR\n$Health: 3\n!Save_Game(Slot=1)");
    assert!(result.actors.contains_key("oscar"));
    assert!(!result.actors.contains_key("OSCAR"));
    assert_eq!(result.actors.get("oscar").unwrap().name, "OSCAR");
    assert_eq!(result.variables.get("health"), Some(&number("3", 3.0)));
    let function = result.functions.get("save_game").unwrap();
    assert_eq!(function.args, Some(values(vec![("Slot", number("1", 1.0))])));
}

#[test]
fn actor_name_property_must_be_text() {
    let result = parsed_without_warnings("@Bob\nname: 42\nmood: happy");
    let bob = result.actors.get("bob").unwrap();
    assert_eq!(bob.name, "Bob");
    assert_eq!(bob.properties, values(vec![("name", number("42", 42.0)), ("mood", text("happy"))]));
}

#[test]
fn actor_block_stops_at_blank_line() {
    let result = parsed_without_warnings("@Bob\nage: 3\n\nmood: happy");
    let bob = result.actors.get("bob").unwrap();
    assert_eq!(bob.properties, values(vec![("age", number("3", 3.0))]));
    assert_eq!(
        result.sections,
        vec![meta(vec![DialogueStep::Page(vec![spoken("mood", "happy")])])]
    );
}

#[test]
fn actor_block_stops_at_new_header() {
    let result = parsed_without_warnings("@Bob\nage: 3\n@Ann\nage: 4\n#Start\nmood: happy");
    assert_eq!(result.actors.get("bob").unwrap().properties, values(vec![("age", number("3", 3.0))]));
    assert_eq!(result.actors.get("ann").unwrap().properties, values(vec![("age", number("4", 4.0))]));
    assert_eq!(result.actors.len(), 2);
    assert_eq!(
        result.sections,
        vec![DialogueSection {
            name: "Start".to_string(),
            steps: vec![DialogueStep::Page(vec![spoken("mood", "happy")])],
        }]
    );
}

#[test]
fn actor_block_stops_at_line_without_separator() {
    let result = parsed_without_warnings("@Bob\nage: 3\nHello there\nmood: happy");
    let bob = result.actors.get("bob").unwrap();
    assert_eq!(bob.properties, values(vec![("age", number("3", 3.0))]));
    assert_eq!(
        result.sections,
        vec![meta(vec![DialogueStep::Page(vec![plain("Hello there"), spoken("mood", "happy")])])]
    );
}

#[test]
fn later_property_replaces_earlier() {
    let result = parsed_without_warnings("@Bob\nAge: 3\nage: 4");
    let bob = result.actors.get("bob").unwrap();
    assert_eq!(bob.properties, values(vec![("age", number("4", 4.0))]));
}

#[test]
fn assignment_to_undefined_variable_warns_and_stands() {
    let result = parse("$x = 2".to_string());
    assert_eq!(result.warnings, vec!["Line 1: Static variable definition not found [x]".to_string()]);
    assert!(result.dialogue.variables.is_empty());
    assert_eq!(
        result.dialogue.sections,
        vec![meta(vec![DialogueStep::VariableAssign {
            name: "x".to_string(),
            value: number("2", 2.0),
        }])]
    );
}

#[test]
fn assignment_is_checked_by_the_name_in_lower_case() {
    let result = parse("$Foo: 1\n$Foo = 2\n$foo = 3\n$FOO = 4".to_string());
    assert!(result.warnings.is_empty());
    assert_eq!(result.dialogue.variables, values(vec![("foo", number("1", 1.0))]));
    assert_eq!(
        result.dialogue.sections,
        vec![meta(vec![
            DialogueStep::VariableAssign { name: "foo".to_string(), value: number("2", 2.0) },
            DialogueStep::VariableAssign { name: "foo".to_string(), value: number("3", 3.0) },
            DialogueStep::VariableAssign { name: "foo".to_string(), value: number("4", 4.0) },
        ])]
    );
}

#[test]
fn warning_shows_the_name_as_written() {
    let result = parse("$foo: 1\n$Bar = 2".to_string());
    assert_eq!(
        result.warnings,
        vec!["Line 2: Static variable definition not found [Bar]".to_string()]
    );
    assert_eq!(
        result.dialogue.sections,
        vec![meta(vec![DialogueStep::VariableAssign {
            name: "bar".to_string(),
            value: number("2", 2.0),
        }])]
    );
}

#[test]
fn undefined_speaker_warns_and_keeps_the_line() {
    let result = parse("@Ghost: Boo".to_string());
    assert_eq!(result.warnings, vec!["Line 1: Actor definition not found (ghost)".to_string()]);
    assert_eq!(
        result.dialogue.sections,
        vec![meta(vec![DialogueStep::Page(vec![spoken("ghost", "Boo")])])]
    );
}

#[test]
fn warnings_count_constructs_and_blank_lines() {
    let mut input = String::new();
    for _ in 0..9 {
        input.push_str("// note\n");
    }
    input.push_str("\n");
    input.push_str("Hello\nAnd more\n@nobody: hi\n");
    input.push_str("$y = 1\n");
    let result = parse(input);
    assert_eq!(
        result.warnings,
        vec![
            "Line 12: Actor definition not found (nobody)".to_string(),
            "Line 13: Static variable definition not found [y]".to_string(),
        ]
    );
}

#[test]
fn page_ends_at_construct_and_speaker_reference_starts_a_page() {
    let result = parsed_without_warnings("@Ann\nHello\nWorld\n@Ann: Hi\nBye\n// done");
    assert_eq!(
        result.sections,
        vec![meta(vec![
            DialogueStep::Page(vec![plain("Hello"), plain("World")]),
            DialogueStep::Page(vec![spoken("ann", "Hi"), plain("Bye")]),
            DialogueStep::Comment("done".to_string()),
        ])]
    );
}

#[test]
fn lines_are_trimmed_and_blank_lines_separate_pages() {
    let result = parsed_without_warnings("  Hello  \r\n   \r\n\tWorld\r\n");
    assert_eq!(
        result.sections,
        vec![meta(vec![
            DialogueStep::Page(vec![plain("Hello")]),
            DialogueStep::Page(vec![plain("World")]),
        ])]
    );
}

#[test]
fn variable_mark_without_separator_is_text() {
    let result = parsed_without_warnings("$lonely");
    assert_eq!(result.sections, vec![meta(vec![DialogueStep::Page(vec![plain("$lonely")])])]);
}

#[test]
fn spoken_line_without_text_is_text() {
    let result = parsed_without_warnings("Bob:   ");
    assert_eq!(result.sections, vec![meta(vec![DialogueStep::Page(vec![plain("Bob:")])])]);
}

#[test]
fn function_forms() {
    let result = parsed_without_warnings("!a()\n!b(x)\n!c(x=1, x=2, y = [p, q]): [1, 2]\n!D : true");
    assert_eq!(result.functions.get("a"), Some(&DialogueFunction { args: None, result: None }));
    assert_eq!(
        result.functions.get("b"),
        Some(&DialogueFunction { args: Some(values(vec![("x", text(""))])), result: None })
    );
    assert_eq!(
        result.functions.get("c"),
        Some(&DialogueFunction {
            args: Some(values(vec![
                ("x", number("2", 2.0)),
                ("y", DialogueValue::Text("[p".to_string())),
                ("q]", text("")),
            ])),
            result: Some(DialogueValue::Array(vec!["1".to_string(), "2".to_string()])),
        })
    );
    assert_eq!(
        result.functions.get("d"),
        Some(&DialogueFunction { args: None, result: Some(DialogueValue::Boolean(true)) })
    );
}

#[test]
fn jump_keywords_are_matched_in_any_case() {
    let result = parsed_without_warnings("=> End\n=>terminate\n=> Ending\n=><= end");
    assert_eq!(
        result.sections,
        vec![meta(vec![
            DialogueStep::EndJump,
            DialogueStep::TerminateJump,
            DialogueStep::SectionJump("Ending".to_string()),
            DialogueStep::SectionBounce("end".to_string()),
        ])]
    );
}

#[test]
fn step_count_matches_constructs() {
    let input = "// a\nHello\nWorld\n\n$x: 1\n$x = 2\n#Next\n=> end\n@Ann\nage: 3\n- yes\n- no";
    let result = parsed_without_warnings(input);
    let steps: usize = result.sections.iter().map(|section| section.steps.len()).sum();
    // A comment, a page, an assignment, a jump and a page.
    assert_eq!(steps, 5);
}

#[test]
fn helper_hands_out_nothing_on_warnings() {
    assert!(parse_test_helper("$x = 2").is_none());
    assert!(parse_test_helper("@Ghost: Boo").is_none());
    assert!(parse_test_helper("$x: 1\n$x = 2").is_some());
}

#[test]
fn documents_are_equal_whatever_the_order_of_definitions() {
    let first = parsed_without_warnings("$a: 1\n$b: 2\n@X\np: 1\nq: 2\nHello");
    let second = parsed_without_warnings("@X\nq: 2\np: 1\n$b: 2\n$a: 1\nHello");
    assert_eq!(first, second);
    let third = parsed_without_warnings("@X\nq: 2\np: 1\n$b: 2\n$a: 3\nHello");
    assert_ne!(first, third);
}

#[test]
fn documents_can_be_copied() {
    let script = "@Ann\nname: Ann Lee\n$x: [a, b]\n!f(a=1): true\n#S\n@Ann: Hi\n- Yes\n$x = 2\n=><= S\n=> end";
    let document = parse(script.to_string()).dialogue;
    assert_eq!(document.clone(), document);
    let step = document.sections[0].steps[0].clone();
    assert_eq!(step, DialogueStep::Page(vec![spoken("ann", "Hi"), response("Yes")]));
}
