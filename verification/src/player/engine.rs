//! The engine: a session over a document, moved one tick at a time.

use crate::parser::types::views;
use crate::parser::types::Dialogue;
use crate::parser::types::DialogueLine;
use crate::parser::types::DialogueStep;
use crate::parser::types::DialogueView;
use crate::parser::types::LineView;
use crate::parser::types::StepView;
use crate::parser::types::lemma_page_view;
use crate::player::model::advanced;
use crate::player::model::ended;
use crate::player::model::entrance;
use crate::player::model::is_over;
use crate::player::model::is_place;
use crate::player::model::is_session;
use crate::player::model::next_in_section;
use crate::player::model::next_position;
use crate::player::model::refusal;
use crate::player::model::rendered_line;
use crate::player::model::rendered_page;
use crate::player::model::run;
use crate::player::model::section_names;
use crate::player::model::started;
use crate::player::model::step_at;
use crate::player::model::target_index;
use crate::player::model::tick;
use crate::player::model::OutputView;
use crate::player::model::PlayView;
use crate::player::model::Position;
use crate::player::model::StartError;
use crate::table::lemma_first_index_is;
use vstd::prelude::*;
use vstd::string::StringExecFns;

verus! {

/// A place in a document: a section and a step of it, both by index.
#[derive(Debug, Clone, Copy, PartialEq, Eq)]
pub struct DialogueState {
    pub section: usize,
    pub step: usize,
}

impl View for DialogueState {
    type V = Position;

    open spec fn view(&self) -> Position {
        Position { section: self.section as int, step: self.step as int }
    }
}

/// What a tick puts out, and to which of the two sinks.
#[derive(Debug, Clone, PartialEq, Eq)]
pub enum Output {
    /// For the standard output.
    Standard(String),
    /// For the error stream.
    Error(String),
}

impl View for Output {
    type V = OutputView;

    open spec fn view(&self) -> OutputView {
        match self {
            Output::Standard(text) => OutputView::Standard(text@),
            Output::Error(text) => OutputView::Error(text@),
        }
    }
}

impl StartError {
    /// The words in which the refusal is put.
    pub fn message(&self) -> (text: String)
        ensures
            text@ == match self {
                StartError::NoSections => "No sections found in dialogue"@,
                StartError::NoSteps => "No pages found in section"@,
            },
    {
        match self {
            StartError::NoSections => String::from_str("No sections found in dialogue"),
            StartError::NoSteps => String::from_str("No pages found in section"),
        }
    }
}

/// The step after `current_state` in its section, where there is one.
pub fn next_step_in_section(current_state: &DialogueState, dialogue: &Dialogue) -> (r: Option<
    DialogueState,
>)
    ensures
        match r {
            Some(next) => next_in_section(dialogue@, current_state@) == Some(next@),
            None => next_in_section(dialogue@, current_state@) is None,
        },
{
    let sections = &dialogue.sections;
    if current_state.section < sections.len() {
        let steps = &sections[current_state.section].steps;
        if steps.len() > 0 && current_state.step < steps.len() - 1 {
            return Some(
                DialogueState { section: current_state.section, step: current_state.step + 1 },
            );
        }
    }
    None
}

/// Where the step at `current_state` leads by position alone, with nothing
/// to come back to: to the next step of its section; after the last, to the
/// first step of the next section; `None` where there is no such step.
pub fn find_next_state(current_state: &DialogueState, dialogue: &Dialogue) -> (r: Option<
    DialogueState,
>)
    ensures
        match r {
            Some(next) => next_position(dialogue@, current_state@) == Some(next@),
            None => next_position(dialogue@, current_state@) is None,
        },
{
    if let Some(next) = next_step_in_section(current_state, dialogue) {
        return Some(next);
    }
    let sections = &dialogue.sections;
    if sections.len() > 0 && current_state.section < sections.len() - 1 {
        if sections[current_state.section + 1].steps.len() > 0 {
            return Some(DialogueState { section: current_state.section + 1, step: 0 });
        }
    }
    None
}

/// The index of the first section named `target`, or the number of
/// sections.
fn find_section(dialogue: &Dialogue, target: &String) -> (k: usize)
    ensures
        k == target_index(dialogue@, target@),
        k <= dialogue.sections@.len(),
{
    let ghost names = section_names(dialogue@.sections);
    let mut k: usize = 0;
    while k < dialogue.sections.len()
        invariant
            k <= dialogue.sections@.len(),
            names == section_names(dialogue@.sections),
            forall|j: int| 0 <= j < k ==> names[j] != target@,
        decreases dialogue.sections@.len() - k,
    {
        if dialogue.sections[k].name == *target {
            proof {
                assert(names[k as int] == target@);
                lemma_first_index_is(names, target@, k as int);
            }
            return k;
        }
        proof {
            assert(names[k as int] != target@);
        }
        k += 1;
    }
    proof {
        lemma_first_index_is(names, target@, k as int);
    }
    k
}

/// Where a jump or a bounce to `target` enters, or what is reported where
/// it cannot.
fn enter(dialogue: &Dialogue, target: &String) -> (r: Result<DialogueState, String>)
    ensures
        match r {
            Ok(place) => entrance(dialogue@, target@) == Some(place@),
            Err(report) => entrance(dialogue@, target@) is None && report@ == refusal(
                dialogue@,
                target@,
            ),
        },
{
    let k = find_section(dialogue, target);
    if k < dialogue.sections.len() {
        if dialogue.sections[k].steps.len() > 0 {
            Ok(DialogueState { section: k, step: 0 })
        } else {
            let mut report = String::from_str("Section has no pages: ");
            report.append(target.as_str());
            Err(report)
        }
    } else {
        let mut report = String::from_str("Section not found: ");
        report.append(target.as_str());
        Err(report)
    }
}

/// The row that `line` is shown as. A speaker that is no actor of the
/// document is shown by its key.
pub fn render_line(dialogue: &Dialogue, line: &DialogueLine) -> (row: String)
    ensures
        row@ == rendered_line(dialogue@.actors, line@),
{
    match line {
        DialogueLine::Text(text) => text.clone(),
        DialogueLine::SpeakerText { speaker, text } => {
            let mut row = match dialogue.actors.get(speaker.as_str()) {
                Some(actor) => actor.name.clone(),
                None => speaker.clone(),
            };
            row.append(": ");
            row.append(text.as_str());
            row
        },
        DialogueLine::Response { text, pages } => {
            let mut row = String::from_str("- ");
            row.append(text.as_str());
            row
        },
    }
}

/// The rows of `lines`, one after the other with a line feed between them.
pub fn render_page(dialogue: &Dialogue, lines: &Vec<DialogueLine>) -> (page: String)
    ensures
        page@ == rendered_page(dialogue@.actors, views(lines@)),
{
    let mut page = String::new();
    let mut i: usize = 0;
    proof {
        assert(views(lines@).take(0) =~= Seq::<LineView>::empty());
    }
    while i < lines.len()
        invariant
            i <= lines@.len(),
            page@ == rendered_page(dialogue@.actors, views(lines@).take(i as int)),
        decreases lines@.len() - i,
    {
        proof {
            let all = views(lines@);
            assert(all.take(i + 1).drop_last() =~= all.take(i as int));
            assert(all.take(i + 1).last() == lines@[i as int]@);
            assert(all.take(i + 1)[0] == all[0]);
        }
        if i > 0 {
            page.append("\n");
        }
        let row = render_line(dialogue, &lines[i]);
        page.append(row.as_str());
        proof {
            if i == 0 {
                assert(Seq::<char>::empty() + row@ =~= row@);
            }
        }
        i += 1;
    }
    proof {
        assert(views(lines@).take(i as int) =~= views(lines@));
    }
    page
}

/// Ends the current branch.
fn end_branch(stack: &mut Vec<DialogueState>)
    requires
        old(stack)@.len() > 0,
    ensures
        views(final(stack)@) == ended(views(old(stack)@)),
{
    stack.pop();
    proof {
        assert(views(stack@) =~= views(old(stack)@).drop_last());
    }
}

/// Moves on from a step that does not redirect.
fn advance(dialogue: &Dialogue, stack: &mut Vec<DialogueState>)
    requires
        old(stack)@.len() > 0,
    ensures
        views(final(stack)@) == advanced(dialogue@, views(old(stack)@)),
{
    let current = stack[stack.len() - 1];
    let next = if stack.len() > 1 {
        next_step_in_section(&current, dialogue)
    } else {
        find_next_state(&current, dialogue)
    };
    stack.pop();
    let ghost rest = stack@;
    proof {
        assert(views(rest) =~= views(old(stack)@).drop_last());
        assert(views(old(stack)@).last() == current@);
    }
    if let Some(next) = next {
        stack.push(next);
        proof {
            assert(views(stack@) =~= views(rest).push(next@));
        }
    }
}

/// Puts `place` on top of `stack`.
fn push_place(stack: &mut Vec<DialogueState>, place: DialogueState)
    ensures
        views(final(stack)@) == views(old(stack)@).push(place@),
{
    stack.push(place);
    proof {
        assert(views(stack@) =~= views(old(stack)@).push(place@));
    }
}

/// A tick keeps a session a session: every place on the stack stays a step
/// of the document, and the sections and the actors stay as they are.
pub proof fn lemma_tick_keeps_session(st: PlayView)
    requires
        is_session(st),
        !is_over(st),
    ensures
        is_session(tick(st).state),
        tick(st).state.dialogue.sections == st.dialogue.sections,
        tick(st).state.dialogue.actors == st.dialogue.actors,
        tick(st).state.dialogue.functions == st.dialogue.functions,
{
    let doc = st.dialogue;
    let after = tick(st).state;
    let top = st.stack.last();
    let rest = st.stack.drop_last();
    assert(is_place(doc, st.stack[st.stack.len() - 1]));
    assert(after.dialogue.sections == doc.sections);
    assert forall|i: int| 0 <= i < rest.len() implies is_place(doc, #[trigger] rest[i]) by {
        assert(rest[i] == st.stack[i]);
    }
    lemma_advanced_places(doc, st.stack);
    match step_at(doc, top) {
        StepView::SectionJump(target) => {
            lemma_entrance_place(doc, target);
        },
        StepView::SectionBounce(target) => {
            lemma_entrance_place(doc, target);
        },
        _ => {},
    }
    assert forall|i: int| 0 <= i < after.stack.len() implies is_place(
        after.dialogue,
        #[trigger] after.stack[i],
    ) by {
        let place = after.stack[i];
        assert(is_place(doc, place));
    }
}

/// Where a target is entered is a step of the document.
pub proof fn lemma_entrance_place(doc: DialogueView, target: Seq<char>)
    ensures
        entrance(doc, target) is Some ==> is_place(doc, entrance(doc, target)->0),
{
    crate::table::lemma_first_index(section_names(doc.sections), target);
}

/// Moving on from the current place leaves places of the document only.
pub proof fn lemma_advanced_places(doc: DialogueView, stack: Seq<Position>)
    requires
        stack.len() > 0,
        forall|i: int| 0 <= i < stack.len() ==> is_place(doc, #[trigger] stack[i]),
    ensures
        forall|i: int|
            0 <= i < advanced(doc, stack).len() ==> is_place(doc, #[trigger] advanced(doc, stack)[i]),
{
    let rest = stack.drop_last();
    assert forall|i: int| 0 <= i < rest.len() implies is_place(doc, #[trigger] rest[i]) by {
        assert(rest[i] == stack[i]);
    }
    assert(is_place(doc, stack[stack.len() - 1]));
}

/// A session in play: a document, of which only the variables change, and
/// the places of the walk.
#[derive(Debug)]
pub struct Session {
    dialogue: Dialogue,
    stack: Vec<DialogueState>,
}

impl View for Session {
    type V = PlayView;

    closed spec fn view(&self) -> PlayView {
        PlayView { dialogue: self.dialogue@, stack: views(self.stack@) }
    }
}

impl Session {
    /// Every place on the stack is a step of the document.
    #[verifier::type_invariant]
    pub closed spec fn wf(&self) -> bool {
        is_session(self@)
    }

    /// Begins the play of `dialogue` at the first step of its first
    /// section. A document without a section, or with an empty first
    /// section, is refused.
    pub fn start(dialogue: Dialogue) -> (r: Result<Session, StartError>)
        ensures
            match r {
                Ok(session) => started(dialogue@) == Ok::<PlayView, StartError>(session@)
                    && is_session(session@),
                Err(error) => started(dialogue@) == Err::<PlayView, StartError>(error),
            },
    {
        if dialogue.sections.len() == 0 {
            return Err(StartError::NoSections);
        }
        if dialogue.sections[0].steps.len() == 0 {
            return Err(StartError::NoSteps);
        }
        let mut stack: Vec<DialogueState> = Vec::new();
        stack.push(DialogueState { section: 0, step: 0 });
        proof {
            assert(views(stack@) =~= seq![Position { section: 0, step: 0 }]);
        }
        Ok(Session { dialogue, stack })
    }

    /// Whether the session is over.
    pub fn is_over(&self) -> (r: bool)
        ensures
            r == is_over(self@),
    {
        self.stack.len() == 0
    }

    /// The current place, while the session is not over.
    pub fn current(&self) -> (r: Option<DialogueState>)
        ensures
            match r {
                Some(place) => !is_over(self@) && place@ == self@.stack.last() && is_place(
                    self@.dialogue,
                    place@,
                ),
                None => is_over(self@),
            },
    {
        proof {
            use_type_invariant(self);
        }
        if self.stack.len() == 0 {
            None
        } else {
            let place = self.stack[self.stack.len() - 1];
            proof {
                assert(self@.stack[self@.stack.len() - 1] == place@);
            }
            Some(place)
        }
    }

    /// The document, with the variables as the session has left them.
    pub fn dialogue(&self) -> (r: &Dialogue)
        ensures
            r@ == self@.dialogue,
    {
        &self.dialogue
    }

    /// One tick: executes the step at the current place and moves on. A
    /// session that is over stays as it is and puts out nothing.
    pub fn tick(self) -> (r: (Session, Vec<Output>))
        ensures
            is_session(r.0@),
            is_over(self@) ==> r.0@ == self@ && r.1@.len() == 0,
            !is_over(self@) ==> r.0@ == tick(self@).state && views(r.1@) == tick(self@).outputs,
    {
        proof {
            use_type_invariant(&self);
        }
        let ghost before = self@;
        let Session { mut dialogue, mut stack } = self;
        let mut outputs: Vec<Output> = Vec::new();
        if stack.len() == 0 {
            return (Session { dialogue, stack }, outputs);
        }
        let at = stack[stack.len() - 1];
        proof {
            lemma_tick_keeps_session(before);
            assert(before.stack[before.stack.len() - 1] == at@);
            assert(is_place(before.dialogue, at@));
            assert(views(outputs@) =~= Seq::<OutputView>::empty());
        }
        match &dialogue.sections[at.section].steps[at.step] {
            DialogueStep::Comment(_) => {
                advance(&dialogue, &mut stack);
            },
            DialogueStep::LogInfo(text) => {
                outputs.push(Output::Standard(text.clone()));
                advance(&dialogue, &mut stack);
                proof {
                    assert(views(outputs@) =~= seq![OutputView::Standard(text@)]);
                }
            },
            DialogueStep::LogWarning(text) => {
                outputs.push(Output::Standard(text.clone()));
                advance(&dialogue, &mut stack);
                proof {
                    assert(views(outputs@) =~= seq![OutputView::Standard(text@)]);
                }
            },
            DialogueStep::LogError(text) => {
                outputs.push(Output::Error(text.clone()));
                advance(&dialogue, &mut stack);
                proof {
                    assert(views(outputs@) =~= seq![OutputView::Error(text@)]);
                }
            },
            DialogueStep::Page(lines) => {
                let page = render_page(&dialogue, lines);
                outputs.push(Output::Standard(page));
                advance(&dialogue, &mut stack);
                proof {
                    lemma_page_view(*lines);
                    assert(views(outputs@) =~= seq![OutputView::Standard(page@)]);
                }
            },
            DialogueStep::VariableAssign { name, value } => {
                let name = name.clone();
                let value = value.clone();
                advance(&dialogue, &mut stack);
                if !dialogue.variables.contains_key(name.as_str()) {
                    let mut report = String::from_str("Variable assignment not pre-existing: ");
                    report.append(name.as_str());
                    outputs.push(Output::Error(report));
                    proof {
                        assert(views(outputs@) =~= seq![OutputView::Error(report@)]);
                    }
                }
                dialogue.variables.insert(name, value);
                proof {
                    assert(views(dialogue.sections@) == before.dialogue.sections);
                }
            },
            DialogueStep::SectionJump(section_name) => {
                match enter(&dialogue, section_name) {
                    Ok(place) => {
                        end_branch(&mut stack);
                        push_place(&mut stack, place);
                    },
                    Err(report) => {
                        outputs.push(Output::Error(report));
                        end_branch(&mut stack);
                        proof {
                            assert(views(outputs@) =~= seq![OutputView::Error(report@)]);
                        }
                    },
                }
            },
            DialogueStep::SectionBounce(section_name) => {
                match enter(&dialogue, section_name) {
                    Ok(place) => {
                        advance(&dialogue, &mut stack);
                        push_place(&mut stack, place);
                    },
                    Err(report) => {
                        outputs.push(Output::Error(report));
                        advance(&dialogue, &mut stack);
                        proof {
                            assert(views(outputs@) =~= seq![OutputView::Error(report@)]);
                        }
                    },
                }
            },
            DialogueStep::EndJump => {
                end_branch(&mut stack);
            },
            DialogueStep::TerminateJump => {
                stack.clear();
                proof {
                    assert(views(stack@) =~= Seq::<Position>::empty());
                }
            },
        }
        (Session { dialogue, stack }, outputs)
    }
}

/// What `play` gives: the session where it stopped, and all that was put
/// out on the way.
#[derive(Debug)]
pub struct Playback {
    pub session: Session,
    pub outputs: Vec<Output>,
}

/// Plays `dialogue` from its first step for at most `max_ticks` ticks, or
/// until the session is over. A document without a section, or with an
/// empty first section, is refused.
pub fn play(dialogue: Dialogue, max_ticks: usize) -> (r: Result<Playback, StartError>)
    ensures
        match r {
            Ok(playback) => {
                &&& started(dialogue@) is Ok
                &&& playback.session@ == run(started(dialogue@)->Ok_0, max_ticks as nat).state
                &&& views(playback.outputs@) == run(
                    started(dialogue@)->Ok_0,
                    max_ticks as nat,
                ).outputs
                &&& is_session(playback.session@)
            },
            Err(error) => started(dialogue@) == Err::<PlayView, StartError>(error),
        },
{
    let mut session = match Session::start(dialogue) {
        Ok(session) => session,
        Err(error) => {
            return Err(error);
        },
    };
    let ghost first = session@;
    let mut outputs: Vec<Output> = Vec::new();
    let mut ticks: usize = 0;
    proof {
        assert(views(outputs@) + run(first, max_ticks as nat).outputs =~= run(
            first,
            max_ticks as nat,
        ).outputs);
    }
    while ticks < max_ticks && !session.is_over()
        invariant
            ticks <= max_ticks,
            is_session(session@),
            run(first, max_ticks as nat).state == run(session@, (max_ticks - ticks) as nat).state,
            run(first, max_ticks as nat).outputs == views(outputs@) + run(
                session@,
                (max_ticks - ticks) as nat,
            ).outputs,
        decreases max_ticks - ticks,
    {
        let ghost here = session@;
        let ghost put = views(outputs@);
        let (next, mut more) = session.tick();
        let ghost added = views(more@);
        outputs.append(&mut more);
        session = next;
        ticks += 1;
        proof {
            assert(views(outputs@) =~= put + added);
            let rest = run(session@, (max_ticks - ticks) as nat);
            assert(put + (added + rest.outputs) =~= (put + added) + rest.outputs);
        }
    }
    proof {
        assert(views(outputs@) + Seq::<OutputView>::empty() =~= views(outputs@));
    }
    Ok(Playback { session, outputs })
}

} // verus!
