//! The walk over a document, stated over the views of its parts: where a
//! step leads, what it puts out, and how a session moves from tick to tick.

use crate::parser::types::ActorView;
use crate::parser::types::DialogueView;
use crate::parser::types::LineView;
use crate::parser::types::SectionView;
use crate::parser::types::StepView;
use crate::table::first_index;
use vstd::prelude::*;

verus! {

/// A place in a document: a section and a step of it, both by index.
pub struct Position {
    pub section: int,
    pub step: int,
}

/// What a tick puts out, and to which of the two sinks.
pub enum OutputView {
    Standard(Seq<char>),
    Error(Seq<char>),
}

/// A session: the document, of which only the variables change, and the
/// stack of places. The last place is the current one; those before it are
/// the places to come back to, the nearest last.
pub struct PlayView {
    pub dialogue: DialogueView,
    pub stack: Seq<Position>,
}

/// What a tick gives: the session after it and what it put out.
pub struct Turn {
    pub state: PlayView,
    pub outputs: Seq<OutputView>,
}

/// Whether `at` is a step of `doc`.
pub open spec fn is_place(doc: DialogueView, at: Position) -> bool {
    &&& 0 <= at.section < doc.sections.len()
    &&& 0 <= at.step < doc.sections[at.section].steps.len()
}

/// The step at `at`.
pub open spec fn step_at(doc: DialogueView, at: Position) -> StepView {
    doc.sections[at.section].steps[at.step]
}

/// The step after `at` in its section, where `at` is not the last.
pub open spec fn next_in_section(doc: DialogueView, at: Position) -> Option<Position> {
    if 0 <= at.section < doc.sections.len() && 0 <= at.step + 1
        < doc.sections[at.section].steps.len() {
        Some(Position { section: at.section, step: at.step + 1 })
    } else {
        None
    }
}

/// Where a step leads by position alone, with nothing to come back to: to
/// the next step of its section; after the last, to the first step of the
/// next section; and nowhere where there is no such step.
pub open spec fn next_position(doc: DialogueView, at: Position) -> Option<Position> {
    if next_in_section(doc, at) is Some {
        next_in_section(doc, at)
    } else if 0 <= at.section + 1 < doc.sections.len() && doc.sections[at.section + 1].steps.len()
        > 0 {
        Some(Position { section: at.section + 1, step: 0 })
    } else {
        None
    }
}

/// Where the current step of `stack` leads where it does not redirect.
/// While there is a place to come back to, the walk stays within the
/// section: after its last step the branch is at its end. With nothing to
/// come back to, the walk goes on into the next section.
pub open spec fn following(doc: DialogueView, stack: Seq<Position>) -> Option<Position> {
    if stack.len() > 1 {
        next_in_section(doc, stack.last())
    } else {
        next_position(doc, stack.last())
    }
}

/// The names of `sections`, in order.
pub open spec fn section_names(sections: Seq<SectionView>) -> Seq<Seq<char>> {
    Seq::new(sections.len(), |i: int| sections[i].name)
}

/// The index of the first section named exactly `target`, or the number of
/// sections where none is.
pub open spec fn target_index(doc: DialogueView, target: Seq<char>) -> int {
    first_index(section_names(doc.sections), target)
}

/// Where a jump or a bounce to `target` enters: the first step of the first
/// section of that name, where there is such a section and it has a step.
pub open spec fn entrance(doc: DialogueView, target: Seq<char>) -> Option<Position> {
    if target_index(doc, target) < doc.sections.len()
        && doc.sections[target_index(doc, target)].steps.len() > 0 {
        Some(Position { section: target_index(doc, target), step: 0 })
    } else {
        None
    }
}

/// What is reported where `target` cannot be entered.
pub open spec fn refusal(doc: DialogueView, target: Seq<char>) -> Seq<char> {
    if target_index(doc, target) < doc.sections.len() {
        "Section has no pages: "@ + target
    } else {
        "Section not found: "@ + target
    }
}

/// What is reported where an assignment names a variable that is not there.
pub open spec fn unknown_variable(name: Seq<char>) -> Seq<char> {
    "Variable assignment not pre-existing: "@ + name
}

/// The name under which `speaker` speaks: the name of the actor of that
/// key, or the key itself where `actors` holds none.
pub open spec fn speaker_name(actors: Map<Seq<char>, ActorView>, speaker: Seq<char>) -> Seq<char> {
    if actors.contains_key(speaker) {
        actors[speaker].name
    } else {
        speaker
    }
}

/// The row that `line` is shown as.
pub open spec fn rendered_line(actors: Map<Seq<char>, ActorView>, line: LineView) -> Seq<char> {
    match line {
        LineView::Text(text) => text,
        LineView::SpeakerText { speaker, text } => speaker_name(actors, speaker) + ": "@ + text,
        LineView::Response { text, pages } => "- "@ + text,
    }
}

/// The rows of `lines`, one after the other with a line feed between them.
pub open spec fn rendered_page(actors: Map<Seq<char>, ActorView>, lines: Seq<LineView>) -> Seq<
    char,
>
    decreases lines.len(),
{
    if lines.len() == 0 {
        Seq::empty()
    } else if lines.len() == 1 {
        rendered_line(actors, lines[0])
    } else {
        rendered_page(actors, lines.drop_last()) + "\n"@ + rendered_line(actors, lines.last())
    }
}

/// The stack after the current branch has ended: the nearest place to come
/// back to becomes the current one; with none left the session is over.
pub open spec fn ended(stack: Seq<Position>) -> Seq<Position> {
    stack.drop_last()
}

/// The stack after a step that does not redirect: the current place gives
/// way to the one it leads to, or the branch ends.
pub open spec fn advanced(doc: DialogueView, stack: Seq<Position>) -> Seq<Position> {
    match following(doc, stack) {
        Some(next) => stack.drop_last().push(next),
        None => ended(stack),
    }
}

/// The session `st` with its stack replaced.
pub open spec fn moved(st: PlayView, stack: Seq<Position>) -> PlayView {
    PlayView { dialogue: st.dialogue, stack }
}

/// One tick of a session that is not over: the step at the current place
/// is executed and the stack moves on.
pub open spec fn tick(st: PlayView) -> Turn {
    let doc = st.dialogue;
    let stack = st.stack;
    match step_at(doc, stack.last()) {
        StepView::Comment(_) => Turn { state: moved(st, advanced(doc, stack)), outputs: seq![] },
        StepView::LogInfo(text) => Turn {
            state: moved(st, advanced(doc, stack)),
            outputs: seq![OutputView::Standard(text)],
        },
        StepView::LogWarning(text) => Turn {
            state: moved(st, advanced(doc, stack)),
            outputs: seq![OutputView::Standard(text)],
        },
        StepView::LogError(text) => Turn {
            state: moved(st, advanced(doc, stack)),
            outputs: seq![OutputView::Error(text)],
        },
        StepView::Page(lines) => Turn {
            state: moved(st, advanced(doc, stack)),
            outputs: seq![OutputView::Standard(rendered_page(doc.actors, lines))],
        },
        StepView::VariableAssign { name, value } => Turn {
            state: PlayView {
                dialogue: DialogueView { variables: doc.variables.insert(name, value), ..doc },
                stack: advanced(doc, stack),
            },
            outputs: if doc.variables.contains_key(name) {
                seq![]
            } else {
                seq![OutputView::Error(unknown_variable(name))]
            },
        },
        StepView::SectionJump(target) => match entrance(doc, target) {
            Some(place) => Turn { state: moved(st, stack.drop_last().push(place)), outputs: seq![] },
            None => Turn {
                state: moved(st, ended(stack)),
                outputs: seq![OutputView::Error(refusal(doc, target))],
            },
        },
        StepView::SectionBounce(target) => match entrance(doc, target) {
            Some(place) => Turn {
                state: moved(st, advanced(doc, stack).push(place)),
                outputs: seq![],
            },
            None => Turn {
                state: moved(st, advanced(doc, stack)),
                outputs: seq![OutputView::Error(refusal(doc, target))],
            },
        },
        StepView::EndJump => Turn { state: moved(st, ended(stack)), outputs: seq![] },
        StepView::TerminateJump => Turn { state: moved(st, Seq::empty()), outputs: seq![] },
    }
}

/// Whether every place on the stack of `st` is a step of its document.
pub open spec fn is_session(st: PlayView) -> bool {
    forall|i: int| 0 <= i < st.stack.len() ==> is_place(st.dialogue, #[trigger] st.stack[i])
}

/// Whether the session is over: no place is left.
pub open spec fn is_over(st: PlayView) -> bool {
    st.stack.len() == 0
}

/// Why a document cannot be played.
#[derive(Debug, Clone, Copy, PartialEq, Eq)]
pub enum StartError {
    /// The document has no section.
    NoSections,
    /// The first section has no step.
    NoSteps,
}

/// The session that begins the play of `doc`: at the first step of the
/// first section, with nothing to come back to. A document without a
/// section, or with an empty first section, is refused.
pub open spec fn started(doc: DialogueView) -> Result<PlayView, StartError> {
    if doc.sections.len() == 0 {
        Err(StartError::NoSections)
    } else if doc.sections[0].steps.len() == 0 {
        Err(StartError::NoSteps)
    } else {
        Ok(PlayView { dialogue: doc, stack: seq![Position { section: 0, step: 0 }] })
    }
}

/// The session after at most `ticks` ticks from `st`, stopping where it is
/// over, and all that these ticks put out.
pub open spec fn run(st: PlayView, ticks: nat) -> Turn
    decreases ticks,
{
    if ticks == 0 || is_over(st) {
        Turn { state: st, outputs: seq![] }
    } else {
        Turn {
            state: run(tick(st).state, (ticks - 1) as nat).state,
            outputs: tick(st).outputs + run(tick(st).state, (ticks - 1) as nat).outputs,
        }
    }
}

} // verus!
