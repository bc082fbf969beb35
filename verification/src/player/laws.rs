//! What holds of every session: where steps lead, and how a bounce comes
//! back.

use crate::parser::types::ActorView;
use crate::parser::types::DialogueView;
use crate::parser::types::LineView;
use crate::parser::types::StepView;
use crate::player::model::advanced;
use crate::player::model::entrance;
use crate::player::model::following;
use crate::player::model::is_over;
use crate::player::model::is_place;
use crate::player::model::is_session;
use crate::player::model::next_in_section;
use crate::player::model::next_position;
use crate::player::model::rendered_line;
use crate::player::model::run;
use crate::player::model::step_at;
use crate::player::model::tick;
use crate::player::model::PlayView;
use crate::player::model::Position;
use vstd::prelude::*;

verus! {

/// Whether `step` neither jumps, bounces, ends nor terminates.
pub open spec fn is_plain(step: StepView) -> bool {
    ||| step is Comment
    ||| step is LogInfo
    ||| step is LogWarning
    ||| step is LogError
    ||| step is Page
    ||| step is VariableAssign
}

/// Whether the steps `first` to `last`, `last` left out, of section
/// `section` are plain.
pub open spec fn plain_between(doc: DialogueView, section: int, first: int, last: int) -> bool {
    forall|i: int| first <= i < last ==> is_plain(#[trigger] doc.sections[section].steps[i])
}

/// Within a section a step leads to the next one.
pub proof fn lemma_fall_through_within_section(doc: DialogueView, at: Position)
    requires
        is_place(doc, at),
        at.step + 1 < doc.sections[at.section].steps.len(),
    ensures
        next_position(doc, at) == Some(Position { section: at.section, step: at.step + 1 }),
{
}

/// Sections follow one another in the order of the document: by position,
/// the last step of a section leads to the first step of the section after
/// it.
pub proof fn lemma_fall_through_enters_next_section(doc: DialogueView, at: Position)
    requires
        is_place(doc, at),
        at.step == doc.sections[at.section].steps.len() - 1,
        at.section + 1 < doc.sections.len(),
        doc.sections[at.section + 1].steps.len() > 0,
    ensures
        next_position(doc, at) == Some(Position { section: at.section + 1, step: 0 }),
{
}

/// The last step of the last section leads nowhere.
pub proof fn lemma_fall_through_ends_document(doc: DialogueView, at: Position)
    requires
        is_place(doc, at),
        at.step == doc.sections[at.section].steps.len() - 1,
        at.section == doc.sections.len() - 1,
    ensures
        next_position(doc, at) is None,
{
}

/// A plain step moves the current place on and leaves the places to come
/// back to, the sections and the actors as they are.
pub proof fn lemma_plain_tick(st: PlayView)
    requires
        !is_over(st),
        is_plain(step_at(st.dialogue, st.stack.last())),
    ensures
        tick(st).state.stack == advanced(st.dialogue, st.stack),
        tick(st).state.dialogue.sections == st.dialogue.sections,
        tick(st).state.dialogue.actors == st.dialogue.actors,
{
}

/// `EndJump` ends the current branch: control returns to the nearest place
/// to come back to, which leaves the stack, and the session is over where
/// there is none.
pub proof fn lemma_end_jump_returns(st: PlayView)
    requires
        !is_over(st),
        step_at(st.dialogue, st.stack.last()) is EndJump,
    ensures
        tick(st).state.stack == st.stack.drop_last(),
        tick(st).state.dialogue == st.dialogue,
        st.stack.len() == 1 ==> is_over(tick(st).state),
        st.stack.len() > 1 ==> tick(st).state.stack.last() == st.stack[st.stack.len() - 2],
{
}

/// While there is a place to come back to, the last step of a section ends
/// the branch as `EndJump` does, whatever sections follow: control returns
/// to the nearest place to come back to.
pub proof fn lemma_exhaustion_returns(st: PlayView)
    requires
        st.stack.len() > 1,
        is_plain(step_at(st.dialogue, st.stack.last())),
        next_in_section(st.dialogue, st.stack.last()) is None,
    ensures
        tick(st).state.stack == st.stack.drop_last(),
        tick(st).state.stack.last() == st.stack[st.stack.len() - 2],
{
}

/// With nothing to come back to, the last step of a section leads into the
/// section after it, and the last step of the document ends the session.
pub proof fn lemma_exhaustion_goes_on(st: PlayView)
    requires
        st.stack.len() == 1,
        is_plain(step_at(st.dialogue, st.stack.last())),
        next_in_section(st.dialogue, st.stack.last()) is None,
    ensures
        next_position(st.dialogue, st.stack.last()) is Some ==> tick(st).state.stack == seq![
            next_position(st.dialogue, st.stack.last())->0,
        ],
        next_position(st.dialogue, st.stack.last()) is None ==> is_over(tick(st).state),
{
    if next_position(st.dialogue, st.stack.last()) is Some {
        let next = next_position(st.dialogue, st.stack.last())->0;
        assert(st.stack.drop_last().push(next) =~= seq![next]);
    }
}

/// A plain step that leads on leaves the places to come back to as they
/// are.
pub proof fn lemma_plain_tick_keeps_returns(st: PlayView)
    requires
        !is_over(st),
        is_plain(step_at(st.dialogue, st.stack.last())),
        following(st.dialogue, st.stack) is Some,
    ensures
        tick(st).state.stack.len() == st.stack.len(),
        tick(st).state.stack.drop_last() == st.stack.drop_last(),
        tick(st).state.stack.last() == following(st.dialogue, st.stack)->0,
{
    let next = following(st.dialogue, st.stack)->0;
    assert(st.stack.drop_last().push(next).drop_last() =~= st.stack.drop_last());
}

/// Running for `a + b` ticks is running for `a` ticks and then for `b`.
pub proof fn lemma_run_split(st: PlayView, a: nat, b: nat)
    ensures
        run(st, a + b).state == run(run(st, a).state, b).state,
        run(st, a + b).outputs == run(st, a).outputs + run(run(st, a).state, b).outputs,
    decreases a,
{
    if a == 0 {
        assert(run(st, a).outputs + run(st, b).outputs =~= run(st, b).outputs);
    } else if is_over(st) {
        assert(run(st, a + b).outputs =~= run(st, a).outputs + run(st, b).outputs);
    } else {
        let next = tick(st).state;
        lemma_run_split(next, (a - 1) as nat, b);
        assert((a + b - 1) as nat == (a - 1) as nat + b);
        let middle = run(next, (a - 1) as nat);
        assert(tick(st).outputs + (middle.outputs + run(middle.state, b).outputs) =~= (tick(
            st,
        ).outputs + middle.outputs) + run(middle.state, b).outputs);
    }
}

/// From a step of a section, `count` plain steps lead to the step `count`
/// further on in that section, where there is one; the places to come back
/// to and the sections stay as they are.
pub proof fn lemma_walk_section(st: PlayView, count: nat)
    requires
        !is_over(st),
        is_place(st.dialogue, st.stack.last()),
        st.stack.last().step + count < st.dialogue.sections[st.stack.last().section].steps.len(),
        plain_between(
            st.dialogue,
            st.stack.last().section,
            st.stack.last().step,
            st.stack.last().step + count,
        ),
    ensures
        run(st, count).state.stack == st.stack.drop_last().push(
            Position { section: st.stack.last().section, step: st.stack.last().step + count },
        ),
        run(st, count).state.dialogue.sections == st.dialogue.sections,
        run(st, count).state.dialogue.actors == st.dialogue.actors,
    decreases count,
{
    let top = st.stack.last();
    if count == 0 {
        assert(st.stack.drop_last().push(top) =~= st.stack);
    } else {
        assert(is_plain(st.dialogue.sections[top.section].steps[top.step]));
        lemma_plain_tick(st);
        let next = tick(st).state;
        let moved = Position { section: top.section, step: top.step + 1 };
        assert(next.stack == st.stack.drop_last().push(moved));
        assert(next.stack.last() == moved);
        assert(next.stack.drop_last() =~= st.stack.drop_last());
        assert forall|i: int| moved.step <= i < moved.step + (count - 1) implies is_plain(
            #[trigger] next.dialogue.sections[moved.section].steps[i],
        ) by {
            assert(is_plain(st.dialogue.sections[top.section].steps[i]));
        }
        lemma_walk_section(next, (count - 1) as nat);
    }
}

/// A bounce enters its target and keeps the place that the bounce leads to
/// to come back to.
pub proof fn lemma_bounce_enters(st: PlayView, target: Seq<char>)
    requires
        !is_over(st),
        step_at(st.dialogue, st.stack.last()) == StepView::SectionBounce(target),
        entrance(st.dialogue, target) is Some,
    ensures
        tick(st).state.dialogue == st.dialogue,
        tick(st).state.stack == advanced(st.dialogue, st.stack).push(
            entrance(st.dialogue, target)->0,
        ),
        following(st.dialogue, st.stack) is Some ==> tick(st).state.stack
            == st.stack.drop_last().push(following(st.dialogue, st.stack)->0).push(
            entrance(st.dialogue, target)->0,
        ),
{
}

/// After a bounce, control returns to the step that follows the bounce as
/// soon as an `EndJump` fires in the target section: where the target
/// begins with `plain` plain steps and an `EndJump` after them, the session
/// stands at the step after the bounce `plain + 2` ticks later, with the
/// same places to come back to as before the bounce.
pub proof fn lemma_bounce_returns_at_end_jump(st: PlayView, target: Seq<char>, plain: nat)
    requires
        is_session(st),
        !is_over(st),
        step_at(st.dialogue, st.stack.last()) == StepView::SectionBounce(target),
        entrance(st.dialogue, target) is Some,
        following(st.dialogue, st.stack) is Some,
        plain < st.dialogue.sections[entrance(st.dialogue, target)->0.section].steps.len(),
        plain_between(st.dialogue, entrance(st.dialogue, target)->0.section, 0, plain as int),
        st.dialogue.sections[entrance(st.dialogue, target)->0.section].steps[plain as int]
            is EndJump,
    ensures
        run(st, plain + 2).state.stack == st.stack.drop_last().push(
            following(st.dialogue, st.stack)->0,
        ),
{
    let doc = st.dialogue;
    let place = entrance(doc, target)->0;
    let back = following(doc, st.stack)->0;
    let rest = st.stack.drop_last();
    lemma_bounce_enters(st, target);
    let entered = tick(st).state;
    crate::player::engine::lemma_entrance_place(doc, target);
    assert(entered.stack.last() == place);
    assert(entered.stack.drop_last() =~= rest.push(back));
    lemma_walk_section(entered, plain);
    let walked = run(entered, plain).state;
    let last = Position { section: place.section, step: plain as int };
    assert(walked.stack.last() == last);
    assert(walked.stack.drop_last() =~= rest.push(back));
    assert(step_at(walked.dialogue, last) is EndJump);
    let returned = tick(walked).state;
    assert(returned.stack == rest.push(back));
    lemma_run_split(entered, plain, 1);
    assert(run(walked, 1).state == run(returned, 0).state);
    assert(run(entered, plain + 1).state.stack == rest.push(back));
    assert(run(st, plain + 2).state == run(entered, (plain + 1) as nat).state);
}

/// After a bounce, control returns to the step that follows the bounce once
/// the steps of the target are exhausted, whatever sections follow the
/// target: where its `count` steps are plain, the session stands at the
/// step after the bounce `count + 1` ticks later, with the same places to
/// come back to as before the bounce.
pub proof fn lemma_bounce_returns_at_exhaustion(st: PlayView, target: Seq<char>, count: nat)
    requires
        is_session(st),
        !is_over(st),
        step_at(st.dialogue, st.stack.last()) == StepView::SectionBounce(target),
        entrance(st.dialogue, target) is Some,
        following(st.dialogue, st.stack) is Some,
        count == st.dialogue.sections[entrance(st.dialogue, target)->0.section].steps.len(),
        plain_between(st.dialogue, entrance(st.dialogue, target)->0.section, 0, count as int),
    ensures
        run(st, count + 1).state.stack == st.stack.drop_last().push(
            following(st.dialogue, st.stack)->0,
        ),
{
    let doc = st.dialogue;
    let place = entrance(doc, target)->0;
    let back = following(doc, st.stack)->0;
    let rest = st.stack.drop_last();
    lemma_bounce_enters(st, target);
    let entered = tick(st).state;
    crate::player::engine::lemma_entrance_place(doc, target);
    assert(entered.stack.last() == place);
    assert(entered.stack.drop_last() =~= rest.push(back));
    let walk = (count - 1) as nat;
    assert forall|i: int| 0 <= i < walk implies is_plain(
        #[trigger] entered.dialogue.sections[place.section].steps[i],
    ) by {
        assert(is_plain(doc.sections[place.section].steps[i]));
    }
    lemma_walk_section(entered, walk);
    let walked = run(entered, walk).state;
    let last = Position { section: place.section, step: walk as int };
    assert(walked.stack.last() == last);
    assert(walked.stack.drop_last() =~= rest.push(back));
    assert(is_plain(doc.sections[place.section].steps[walk as int]));
    lemma_exhaustion_returns(walked);
    let returned = tick(walked).state;
    assert(returned.stack == rest.push(back));
    lemma_run_split(entered, walk, 1);
    assert(run(walked, 1).state == run(returned, 0).state);
    assert(run(st, count + 1).state == run(entered, count).state);
}

/// `TerminateJump` ends the whole session, whatever places there are to
/// come back to.
pub proof fn lemma_terminate_ends_session(st: PlayView)
    requires
        !is_over(st),
        step_at(st.dialogue, st.stack.last()) is TerminateJump,
    ensures
        is_over(tick(st).state),
        forall|ticks: nat| ticks > 0 ==> is_over(#[trigger] run(st, ticks).state),
{
    assert forall|ticks: nat| ticks > 0 implies is_over(#[trigger] run(st, ticks).state) by {
        assert(is_over(run(tick(st).state, (ticks - 1) as nat).state));
    }
}

/// `TerminateJump` inside a bounced section ends the session without
/// returning: where the target begins with `plain` plain steps and a
/// `TerminateJump` after them, the session is over `plain + 2` ticks after
/// the bounce.
pub proof fn lemma_terminate_after_bounce(st: PlayView, target: Seq<char>, plain: nat)
    requires
        is_session(st),
        !is_over(st),
        step_at(st.dialogue, st.stack.last()) == StepView::SectionBounce(target),
        entrance(st.dialogue, target) is Some,
        plain < st.dialogue.sections[entrance(st.dialogue, target)->0.section].steps.len(),
        plain_between(st.dialogue, entrance(st.dialogue, target)->0.section, 0, plain as int),
        st.dialogue.sections[entrance(st.dialogue, target)->0.section].steps[plain as int]
            is TerminateJump,
    ensures
        is_over(run(st, plain + 2).state),
{
    let doc = st.dialogue;
    let place = entrance(doc, target)->0;
    lemma_bounce_enters(st, target);
    let entered = tick(st).state;
    crate::player::engine::lemma_entrance_place(doc, target);
    assert(entered.stack.last() == place);
    lemma_walk_section(entered, plain);
    let walked = run(entered, plain).state;
    let last = Position { section: place.section, step: plain as int };
    assert(walked.stack.last() == last);
    assert(step_at(walked.dialogue, last) is TerminateJump);
    lemma_terminate_ends_session(walked);
    lemma_run_split(entered, plain, 1);
    assert(run(st, plain + 2).state == run(entered, (plain + 1) as nat).state);
}

/// A line spoken by a speaker that is no actor of the document is shown
/// under the key of the speaker.
pub proof fn lemma_unknown_speaker_is_shown_by_key(
    actors: Map<Seq<char>, ActorView>,
    speaker: Seq<char>,
    text: Seq<char>,
)
    requires
        !actors.contains_key(speaker),
    ensures
        rendered_line(actors, LineView::SpeakerText { speaker, text }) == speaker + ": "@ + text,
{
}

} // verus!
