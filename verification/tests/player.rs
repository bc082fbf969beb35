use dialogue_syntax::parse;
use dialogue_syntax::play;
use dialogue_syntax::player::engine::find_next_state;
use dialogue_syntax::player::engine::next_step_in_section;
use dialogue_syntax::player::engine::render_line;
use dialogue_syntax::player::engine::render_page;
use dialogue_syntax::Dialogue;
use dialogue_syntax::DialogueLine;
use dialogue_syntax::DialogueSection;
use dialogue_syntax::DialogueState;
use dialogue_syntax::DialogueStep;
use dialogue_syntax::DialogueValue;
use dialogue_syntax::Output;
use dialogue_syntax::Session;
use dialogue_syntax::StartError;

fn document(script: &str) -> Dialogue {
    parse(script.to_string()).dialogue
}

fn standard(text: &str) -> Output {
    Output::Standard(text.to_string())
}

fn error(text: &str) -> Output {
    Output::Error(text.to_string())
}

fn at(section: usize, step: usize) -> DialogueState {
    DialogueState { section, step }
}

/// Plays `script` to its end and gives what it put out.
fn transcript(script: &str) -> Vec<Output> {
    let playback = play(document(script), 1000).unwrap();
    assert!(playback.session.is_over());
    playback.outputs
}

#[test]
fn fall_through_keeps_the_order_of_sections() {
    let dialogue = document("#Intro\nHello\n#Outro\nGoodbye");
    assert_eq!(find_next_state(&at(0, 0), &dialogue), Some(at(1, 0)));
    assert_eq!(find_next_state(&at(1, 0), &dialogue), None);
    assert_eq!(transcript("#Intro\nHello\n#Outro\nGoodbye"), vec![standard("Hello"), standard("Goodbye")]);
}

#[test]
fn fall_through_within_a_section() {
    let dialogue = document("// a\n// b\n#Next\n// c");
    assert_eq!(find_next_state(&at(0, 0), &dialogue), Some(at(0, 1)));
    assert_eq!(find_next_state(&at(0, 1), &dialogue), Some(at(1, 0)));
    assert_eq!(find_next_state(&at(1, 0), &dialogue), None);
    assert_eq!(find_next_state(&at(7, 0), &dialogue), None);
    assert_eq!(find_next_state(&at(0, 9), &dialogue), Some(at(1, 0)));
}

#[test]
fn fall_through_stops_before_an_empty_last_section() {
    let dialogue = document("Hello\n#Empty");
    assert_eq!(dialogue.sections.len(), 2);
    assert_eq!(find_next_state(&at(0, 0), &dialogue), None);
    assert_eq!(transcript("Hello\n#Empty"), vec![standard("Hello")]);
}

#[test]
fn documents_without_a_first_step_are_refused() {
    assert_eq!(play(Dialogue::default(), 10).err(), Some(StartError::NoSections));
    assert_eq!(play(document(""), 10).err(), Some(StartError::NoSteps));
    assert_eq!(play(document("$x: 1"), 10).err(), Some(StartError::NoSteps));
    assert!(Session::start(Dialogue::default()).is_err());
    assert_eq!(StartError::NoSections.message(), "No sections found in dialogue");
    assert_eq!(StartError::NoSteps.message(), "No pages found in section");
}

#[test]
fn logs_go_to_their_sinks_and_comments_nowhere() {
    assert_eq!(
        transcript("// quiet\n/// info\n//? careful\n//! broken"),
        vec![standard("info"), standard("careful"), error("broken")]
    );
}

#[test]
fn pages_are_rendered_row_by_row() {
    let script = "@Oscar\nname: Oscar Robin\n\n@Oscar: Hello\nOther Oscar: Hi\nPlain\n- Yes";
    assert_eq!(
        transcript(script),
        vec![standard("Oscar Robin: Hello\nOther Oscar: Hi\nPlain\n- Yes")]
    );
}

#[test]
fn unknown_speaker_is_shown_by_its_key() {
    let result = parse("@Ghost: Boo".to_string());
    assert_eq!(result.warnings.len(), 1);
    let playback = play(result.dialogue, 10).unwrap();
    assert_eq!(playback.outputs, vec![standard("ghost: Boo")]);
}

#[test]
fn rendering_single_lines() {
    let dialogue = document("@Ann\nname: Ann Lee");
    let spoken = DialogueLine::SpeakerText { speaker: "ann".to_string(), text: "Hi".to_string() };
    let unknown = DialogueLine::SpeakerText { speaker: "bob".to_string(), text: "Hi".to_string() };
    let reply = DialogueLine::Response { text: "Sure".to_string(), pages: vec![] };
    assert_eq!(render_line(&dialogue, &spoken), "Ann Lee: Hi");
    assert_eq!(render_line(&dialogue, &unknown), "bob: Hi");
    assert_eq!(render_line(&dialogue, &reply), "- Sure");
    assert_eq!(render_line(&dialogue, &DialogueLine::Text("As is".to_string())), "As is");
    assert_eq!(render_page(&dialogue, &vec![]), "");
    assert_eq!(render_page(&dialogue, &vec![reply]), "- Sure");
}

#[test]
fn assignments_overwrite_variables() {
    let script = "$x: 1\n$x = 2\n$y = [a, b]\n$x = hello";
    let result = parse(script.to_string());
    let playback = play(result.dialogue, 100).unwrap();
    assert!(playback.session.is_over());
    assert_eq!(playback.outputs, vec![error("Variable assignment not pre-existing: y")]);
    let variables = &playback.session.dialogue().variables;
    assert_eq!(variables.get("x"), Some(&DialogueValue::Text("hello".to_string())));
    assert_eq!(
        variables.get("y"),
        Some(&DialogueValue::Array(vec!["a".to_string(), "b".to_string()]))
    );
    assert_eq!(variables.len(), 2);
}

#[test]
fn jump_redirects_for_good() {
    let script = "#A\nOne\n=> C\nSkipped\n#B\nAlso skipped\n#C\nThree";
    assert_eq!(transcript(script), vec![standard("One"), standard("Three")]);
}

#[test]
fn jump_to_a_missing_section_is_a_dead_end() {
    let script = "One\n=> Nowhere\nNever";
    assert_eq!(transcript(script), vec![standard("One"), error("Section not found: Nowhere")]);
}

#[test]
fn jump_to_an_empty_section_is_a_dead_end() {
    let script = "#A\nOne\n=> B\nNever\n#B";
    assert_eq!(transcript(script), vec![standard("One"), error("Section has no pages: B")]);
}

#[test]
fn jump_targets_match_case_sensitively() {
    let script = "#Shop\n=> shop\nNever";
    assert_eq!(transcript(script), vec![error("Section not found: shop")]);
}

#[test]
fn bounce_returns_when_the_last_section_is_exhausted() {
    let script = "#Main\nBefore\n=><= Shop\nAfter\n=> end\n#Shop\nWelcome\nBye";
    assert_eq!(
        transcript(script),
        vec![standard("Before"), standard("Welcome\nBye"), standard("After")]
    );
}

#[test]
fn bounce_returns_when_end_fires() {
    let script = "#Main\nBefore\n=><= Shop\nAfter\n=> end\n#Shop\nWelcome\n=> END\nNever\n#Other\nNever either";
    assert_eq!(
        transcript(script),
        vec![standard("Before"), standard("Welcome"), standard("After")]
    );
}

#[test]
fn bounce_returns_when_a_followed_section_is_exhausted() {
    let script = "#Main\n=><= Shop\nAfter\n=> end\n#Shop\nWelcome\n#Yard\nGrass";
    assert_eq!(transcript(script), vec![standard("Welcome"), standard("After")]);
    let script = "#Main\n=><= Shop\nBack\n=> END\n#Shop\nBuy\n#Other\nOther";
    assert_eq!(transcript(script), vec![standard("Buy"), standard("Back")]);
}

#[test]
fn without_a_place_to_come_back_to_sections_follow_one_another() {
    let script = "#Main\n=><= Shop\nBack\n#Shop\nBuy\n#Other\nOther";
    assert_eq!(
        transcript(script),
        vec![standard("Buy"), standard("Back"), standard("Buy"), standard("Other")]
    );
}

#[test]
fn bounce_as_last_step_of_a_bounced_section_returns_to_the_outer_place() {
    let script = "#Main\n=><= A\nBack in main\n=> end\n#A\nIn a\n=><= B\n#B\nIn b\n#C\nNever";
    assert_eq!(
        transcript(script),
        vec![standard("In a"), standard("In b"), standard("Back in main")]
    );
}

#[test]
fn unresolved_bounce_at_the_end_of_a_bounced_section_returns() {
    let script = "#Main\n=><= A\nBack\n=> end\n#A\nIn a\n=><= Nowhere\n#B\nNever";
    assert_eq!(
        transcript(script),
        vec![standard("In a"), error("Section not found: Nowhere"), standard("Back")]
    );
}

#[test]
fn steps_within_a_section() {
    let dialogue = document("// a\n// b\n#Next\n// c");
    assert_eq!(next_step_in_section(&at(0, 0), &dialogue), Some(at(0, 1)));
    assert_eq!(next_step_in_section(&at(0, 1), &dialogue), None);
    assert_eq!(next_step_in_section(&at(1, 0), &dialogue), None);
    assert_eq!(next_step_in_section(&at(5, 0), &dialogue), None);
}

#[test]
fn terminate_inside_a_bounce_ends_everything() {
    let script = "#Main\nBefore\n=><= Shop\nAfter\n#Shop\nWelcome\n=> terminate\nNever";
    assert_eq!(transcript(script), vec![standard("Before"), standard("Welcome")]);
}

#[test]
fn bounce_to_a_missing_section_falls_through() {
    let script = "Before\n=><= Nowhere\nAfter";
    assert_eq!(
        transcript(script),
        vec![standard("Before"), error("Section not found: Nowhere"), standard("After")]
    );
}

#[test]
fn nested_bounces_return_in_turn() {
    let script = "#Main\n=><= A\nBack in main\n=> end\n#A\nIn a\n=><= B\nBack in a\n=> end\n#B\nIn b\n=> end";
    assert_eq!(
        transcript(script),
        vec![standard("In a"), standard("In b"), standard("Back in a"), standard("Back in main")]
    );
}

#[test]
fn bounce_as_last_step_keeps_nothing_to_return_to() {
    let script = "#Shop\nWelcome\n=> end\n#Main\n=><= Shop";
    let dialogue = document(script);
    let mut session = Session::start(dialogue).unwrap();
    let mut seen = Vec::new();
    while let Some(place) = session.current() {
        seen.push(place);
        let (next, _) = session.tick();
        session = next;
        assert!(seen.len() < 20);
    }
    assert_eq!(seen, vec![at(0, 0), at(0, 1)]);
}

#[test]
fn ticks_move_one_step_at_a_time() {
    let dialogue = document("#Main\nBefore\n=><= Shop\nAfter\n#Shop\nWelcome\n=> end");
    let mut session = Session::start(dialogue).unwrap();
    let mut places = Vec::new();
    let mut outputs = Vec::new();
    while !session.is_over() {
        places.push(session.current().unwrap());
        let (next, mut more) = session.tick();
        outputs.append(&mut more);
        session = next;
    }
    assert_eq!(session.current(), None);
    assert_eq!(places, vec![at(0, 0), at(0, 1), at(1, 0), at(1, 1), at(0, 2), at(1, 0), at(1, 1)]);
    assert_eq!(
        outputs,
        vec![standard("Before"), standard("Welcome"), standard("After"), standard("Welcome")]
    );
    let (session, outputs) = session.tick();
    assert!(session.is_over());
    assert!(outputs.is_empty());
}

#[test]
fn play_stops_at_its_limit() {
    let script = "#Loop\nAgain\n=> Loop";
    let playback = play(document(script), 5).unwrap();
    assert!(!playback.session.is_over());
    assert_eq!(playback.outputs, vec![standard("Again"), standard("Again"), standard("Again")]);
    assert_eq!(playback.session.current(), Some(at(0, 1)));
    let nothing = play(document(script), 0).unwrap();
    assert!(nothing.outputs.is_empty());
    assert_eq!(nothing.session.current(), Some(at(0, 0)));
}

#[test]
fn hand_built_documents_play_too() {
    let dialogue = Dialogue {
        sections: vec![
            DialogueSection { name: "a".to_string(), steps: vec![DialogueStep::EndJump] },
            DialogueSection {
                name: "b".to_string(),
                steps: vec![DialogueStep::LogInfo("unreached".to_string())],
            },
        ],
        ..Default::default()
    };
    let playback = play(dialogue, 10).unwrap();
    assert!(playback.session.is_over());
    assert!(playback.outputs.is_empty());
}
