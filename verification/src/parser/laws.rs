//! What holds of every script: how far the blocks of an actor and of a page
//! reach, and how the steps of a document answer to the constructs of its
//! lines.

use crate::parser::grammar::actor_warning;
use crate::parser::grammar::apply;
use crate::parser::grammar::assignment_step;
use crate::parser::grammar::assignment_warnings;
use crate::parser::grammar::begins_construct;
use crate::parser::config::META_SECTION_NAME;
use crate::parser::grammar::classify;
use crate::parser::grammar::closed;
use crate::parser::grammar::counted;
use crate::parser::grammar::extent;
use crate::parser::grammar::initial_state;
use crate::parser::grammar::is_property;
use crate::parser::grammar::lemma_extent_bound;
use crate::parser::grammar::line_warnings;
use crate::parser::grammar::page_count;
use crate::parser::grammar::page_lines;
use crate::parser::grammar::parse_from;
use crate::parser::grammar::parsed_lines;
use crate::parser::grammar::property_count;
use crate::parser::grammar::speaker_reference;
use crate::parser::grammar::spoken;
use crate::parser::grammar::text_line;
use crate::parser::grammar::variable_warning;
use crate::parser::grammar::LineKind;
use crate::parser::grammar::ParseState;
use crate::parser::grammar::signature_name;
use crate::parser::grammar::signature_of;
use crate::parser::syntax::delimiters::SEPARATOR;
use crate::parser::syntax::prefixes::FUNCTION;
use crate::parser::syntax::prefixes::VARIABLE;
use crate::strings::lowercase_of;
use crate::text::strip_prefix;
use crate::text::trim;
use crate::parser::types::ActorView;
use crate::parser::types::LineView;
use crate::parser::types::SectionView;
use crate::parser::types::StepView;
use crate::parser::types::ValueView;
use crate::text::split_once;
use vstd::prelude::*;

verus! {

/// The properties of an actor are the lines after its header up to the
/// first that is no property: every line of the block is a property, and
/// the line after the block, where there is one, is empty, begins a
/// construct or holds no `:`.
pub proof fn lemma_property_block_extent(lines: Seq<Seq<char>>, from: int)
    requires
        0 <= from <= lines.len(),
    ensures
        from + property_count(lines, from) <= lines.len(),
        forall|i: int| from <= i < from + property_count(lines, from) ==> is_property(lines[i]),
        from + property_count(lines, from) < lines.len() ==> {
            let stop = lines[from + property_count(lines, from)];
            stop.len() == 0 || begins_construct(stop) || split_once(stop, SEPARATOR) is None
        },
    decreases lines.len() - from,
{
    if from < lines.len() && is_property(lines[from]) {
        lemma_property_block_extent(lines, from + 1);
    }
}

/// What follows the line at which a block of properties stops is not taken
/// into it: the block is the same whatever lines follow that line.
pub proof fn lemma_property_block_ignores_rest(
    lines: Seq<Seq<char>>,
    from: int,
    rest: Seq<Seq<char>>,
)
    requires
        0 <= from <= lines.len(),
        from + property_count(lines, from) < lines.len(),
    ensures
        property_count(lines.take(from + property_count(lines, from) + 1) + rest, from)
            == property_count(lines, from),
        (lines.take(from + property_count(lines, from) + 1) + rest).subrange(
            from,
            from + property_count(lines, from),
        ) == lines.subrange(from, from + property_count(lines, from)),
    decreases lines.len() - from,
{
    lemma_property_block_extent(lines, from);
    let count = property_count(lines, from);
    let other = lines.take(from + count + 1) + rest;
    assert(other[from] == lines[from]);
    if is_property(lines[from]) {
        lemma_property_block_ignores_rest(lines, from + 1, rest);
        assert(from + 1 + property_count(lines, from + 1) == from + count);
    }
    assert(other.subrange(from, from + count) =~= lines.subrange(from, from + count));
}

/// A page is its first line and the lines after it up to the first that is
/// empty or begins a construct.
pub proof fn lemma_page_extent(lines: Seq<Seq<char>>, from: int)
    requires
        0 <= from <= lines.len(),
    ensures
        from + page_count(lines, from) <= lines.len(),
        forall|i: int| from <= i < from + page_count(lines, from) ==> !begins_construct(lines[i]),
        from + page_count(lines, from) < lines.len() ==> begins_construct(
            lines[from + page_count(lines, from)],
        ),
    decreases lines.len() - from,
{
    if from < lines.len() && !begins_construct(lines[from]) {
        lemma_page_extent(lines, from + 1);
    }
}

/// Whether the construct that `line` starts is a step of the document.
pub open spec fn makes_step(line: Seq<char>) -> bool {
    classify(line) is Step || classify(line) is Assignment || classify(line) is Page
}

/// The step that the construct starting at line `at` makes.
pub open spec fn step_of(lines: Seq<Seq<char>>, at: int) -> StepView {
    match classify(lines[at]) {
        LineKind::Step(step) => step,
        LineKind::Assignment(name, value) => assignment_step(name, value),
        _ => StepView::Page(page_lines(lines.subrange(at, at + 1 + page_count(lines, at + 1)))),
    }
}

/// The lines at which the constructs from `at` on start, in order.
pub open spec fn construct_starts(lines: Seq<Seq<char>>, at: int) -> Seq<int>
    decreases lines.len() - at,
    via construct_starts_decreases
{
    if 0 <= at < lines.len() {
        seq![at] + construct_starts(lines, at + 1 + extent(lines, at))
    } else {
        Seq::empty()
    }
}

#[via_fn]
proof fn construct_starts_decreases(lines: Seq<Seq<char>>, at: int) {
    if 0 <= at < lines.len() {
        lemma_extent_bound(lines, at);
    }
}

/// The steps that the constructs from `at` on make, in order.
spec fn steps_from(lines: Seq<Seq<char>>, at: int) -> Seq<StepView>
    decreases lines.len() - at,
    via steps_from_decreases
{
    if 0 <= at < lines.len() {
        if makes_step(lines[at]) {
            seq![step_of(lines, at)] + steps_from(lines, at + 1 + extent(lines, at))
        } else {
            steps_from(lines, at + 1 + extent(lines, at))
        }
    } else {
        Seq::empty()
    }
}

#[via_fn]
proof fn steps_from_decreases(lines: Seq<Seq<char>>, at: int) {
    if 0 <= at < lines.len() {
        lemma_extent_bound(lines, at);
    }
}

/// The lines at which the constructs from `at` on that are steps start, in
/// order.
pub open spec fn step_starts(lines: Seq<Seq<char>>, at: int) -> Seq<int>
    decreases lines.len() - at,
    via step_starts_decreases
{
    if 0 <= at < lines.len() {
        if makes_step(lines[at]) {
            seq![at] + step_starts(lines, at + 1 + extent(lines, at))
        } else {
            step_starts(lines, at + 1 + extent(lines, at))
        }
    } else {
        Seq::empty()
    }
}

#[via_fn]
proof fn step_starts_decreases(lines: Seq<Seq<char>>, at: int) {
    if 0 <= at < lines.len() {
        lemma_extent_bound(lines, at);
    }
}

/// The steps of the constructs that start at the lines `starts`.
pub open spec fn steps_at(lines: Seq<Seq<char>>, starts: Seq<int>) -> Seq<StepView> {
    Seq::new(starts.len(), |k: int| step_of(lines, starts[k]))
}

/// The steps of `sections`, one section after the other.
pub open spec fn all_steps(sections: Seq<SectionView>) -> Seq<StepView>
    decreases sections.len(),
{
    if sections.len() == 0 {
        Seq::empty()
    } else {
        all_steps(sections.drop_last()) + sections.last().steps
    }
}

/// The steps that a state of the parser holds: those of the document and
/// those of the section in progress.
pub open spec fn steps_so_far(st: ParseState) -> Seq<StepView> {
    all_steps(st.dialogue.sections) + st.section.steps
}

/// The steps after `sections` and one more section are those of `sections`
/// and then those of that section.
proof fn lemma_all_steps_push(sections: Seq<SectionView>, section: SectionView)
    ensures
        all_steps(sections.push(section)) == all_steps(sections) + section.steps,
{
    assert(sections.push(section).drop_last() =~= sections);
}

/// A construct adds its step, where it is one, to the steps held so far,
/// and changes no other step.
proof fn lemma_apply_steps(lines: Seq<Seq<char>>, at: int, st: ParseState)
    requires
        0 <= at < lines.len(),
    ensures
        steps_so_far(apply(lines, at, st)) == if makes_step(lines[at]) {
            steps_so_far(st).push(step_of(lines, at))
        } else {
            steps_so_far(st)
        },
{
    let after = apply(lines, at, st);
    match classify(lines[at]) {
        LineKind::Section(name) => {
            if st.section.steps.len() > 0 {
                lemma_all_steps_push(st.dialogue.sections, st.section);
            }
            assert(steps_so_far(after) =~= steps_so_far(st));
        },
        LineKind::Step(step) => {
            assert(steps_so_far(after) =~= steps_so_far(st).push(step));
        },
        LineKind::Assignment(name, value) => {
            assert(steps_so_far(after) =~= steps_so_far(st).push(assignment_step(name, value)));
        },
        LineKind::Page => {
            assert(steps_so_far(after) =~= steps_so_far(st).push(step_of(lines, at)));
        },
        _ => {},
    }
}

/// Reading on from line `at` adds the steps of the constructs from `at` on
/// to those held so far.
proof fn lemma_parse_from_steps(lines: Seq<Seq<char>>, at: int, st: ParseState)
    requires
        0 <= at,
    ensures
        steps_so_far(parse_from(lines, at, st)) == steps_so_far(st) + steps_from(lines, at),
    decreases lines.len() - at,
{
    if at < lines.len() {
        lemma_extent_bound(lines, at);
        let next = at + 1 + extent(lines, at);
        let after = apply(lines, at, counted(st));
        lemma_apply_steps(lines, at, counted(st));
        lemma_parse_from_steps(lines, next, after);
        assert(steps_so_far(counted(st)) == steps_so_far(st));
        if makes_step(lines[at]) {
            assert(steps_so_far(st).push(step_of(lines, at)) + steps_from(lines, next)
                =~= steps_so_far(st) + (seq![step_of(lines, at)] + steps_from(lines, next)));
        }
    } else {
        assert(steps_so_far(st) + Seq::<StepView>::empty() =~= steps_so_far(st));
    }
}

/// The steps of the constructs from `at` on are the steps of those among
/// them that are steps.
proof fn lemma_steps_from_starts(lines: Seq<Seq<char>>, at: int)
    requires
        0 <= at,
    ensures
        steps_from(lines, at) == steps_at(lines, step_starts(lines, at)),
    decreases lines.len() - at,
{
    if at < lines.len() {
        lemma_extent_bound(lines, at);
        let next = at + 1 + extent(lines, at);
        lemma_steps_from_starts(lines, next);
        if makes_step(lines[at]) {
            assert(steps_at(lines, seq![at] + step_starts(lines, next)) =~= seq![
                step_of(lines, at),
            ] + steps_at(lines, step_starts(lines, next)));
        }
    } else {
        assert(steps_at(lines, Seq::<int>::empty()) =~= Seq::<StepView>::empty());
    }
}

/// The steps of a parsed document are the steps of the constructs of its
/// lines, one for each construct that is a step, in the order of the lines:
/// a document has as many steps as its lines hold such constructs, and its
/// step of index `k` is the step of the construct that starts at line
/// `step_starts(lines, 0)[k]`.
pub proof fn lemma_steps_are_constructs(lines: Seq<Seq<char>>)
    ensures
        all_steps(parsed_lines(lines).dialogue.sections) == steps_at(lines, step_starts(lines, 0)),
        all_steps(parsed_lines(lines).dialogue.sections).len() == step_starts(lines, 0).len(),
{
    let last = parse_from(lines, 0, initial_state());
    lemma_parse_from_steps(lines, 0, initial_state());
    lemma_steps_from_starts(lines, 0);
    lemma_all_steps_push(last.dialogue.sections, last.section);
    assert(steps_so_far(initial_state()) =~= Seq::<StepView>::empty());
    assert(Seq::<StepView>::empty() + steps_from(lines, 0) =~= steps_from(lines, 0));
}

/// No line is part of two steps: the constructs that are steps start within
/// the lines, each takes the lines from its start up to its end, and each
/// ends before the next one starts.
pub proof fn lemma_steps_share_no_line(lines: Seq<Seq<char>>, at: int)
    requires
        0 <= at,
    ensures
        forall|k: int|
            0 <= k < step_starts(lines, at).len() ==> at <= #[trigger] step_starts(lines, at)[k]
                && step_starts(lines, at)[k] + 1 + extent(lines, step_starts(lines, at)[k])
                <= lines.len(),
        forall|k: int, m: int|
            0 <= k < m < step_starts(lines, at).len() ==> #[trigger] step_starts(lines, at)[k] + 1
                + extent(lines, step_starts(lines, at)[k]) <= #[trigger] step_starts(lines, at)[m],
    decreases lines.len() - at,
{
    if at < lines.len() {
        lemma_extent_bound(lines, at);
        let next = at + 1 + extent(lines, at);
        lemma_steps_share_no_line(lines, next);
        let starts = step_starts(lines, at);
        let later = step_starts(lines, next);
        if makes_step(lines[at]) {
            assert(starts =~= seq![at] + later);
            assert forall|k: int| 0 <= k < starts.len() implies at <= #[trigger] starts[k]
                && starts[k] + 1 + extent(lines, starts[k]) <= lines.len() by {
                if k > 0 {
                    assert(starts[k] == later[k - 1]);
                }
            }
            assert forall|k: int, m: int| 0 <= k < m < starts.len() implies #[trigger] starts[k]
                + 1 + extent(lines, starts[k]) <= #[trigger] starts[m] by {
                assert(starts[m] == later[m - 1]);
                if k > 0 {
                    assert(starts[k] == later[k - 1]);
                }
            }
        } else {
            assert(starts == later);
        }
    }
}

/// Constructs follow one another without gap or overlap: the first starts
/// at `at`, each starts where the one before it ends, and the last ends
/// with the lines. So every line belongs to one construct, and to one step
/// at most.
pub proof fn lemma_constructs_tile_lines(lines: Seq<Seq<char>>, at: int)
    requires
        0 <= at <= lines.len(),
    ensures
        at < lines.len() ==> construct_starts(lines, at).len() > 0 && construct_starts(lines, at)[0]
            == at,
        at == lines.len() ==> construct_starts(lines, at).len() == 0,
        forall|k: int|
            0 <= k < construct_starts(lines, at).len() ==> at <= #[trigger] construct_starts(
                lines,
                at,
            )[k] < lines.len(),
        forall|k: int|
            0 <= k < construct_starts(lines, at).len() - 1 ==> #[trigger] construct_starts(
                lines,
                at,
            )[k + 1] == construct_starts(lines, at)[k] + 1 + extent(
                lines,
                construct_starts(lines, at)[k],
            ),
        construct_starts(lines, at).len() > 0 ==> construct_starts(lines, at).last() + 1 + extent(
            lines,
            construct_starts(lines, at).last(),
        ) == lines.len(),
    decreases lines.len() - at,
{
    if at < lines.len() {
        lemma_extent_bound(lines, at);
        let next = at + 1 + extent(lines, at);
        lemma_constructs_tile_lines(lines, next);
        let starts = construct_starts(lines, at);
        let later = construct_starts(lines, next);
        assert(starts =~= seq![at] + later);
        assert forall|k: int| 0 <= k < starts.len() implies at <= #[trigger] starts[k]
            < lines.len() by {
            if k > 0 {
                assert(starts[k] == later[k - 1]);
            }
        }
        assert forall|k: int| 0 <= k < starts.len() - 1 implies #[trigger] starts[k + 1]
            == starts[k] + 1 + extent(lines, starts[k]) by {
            assert(starts[k + 1] == later[k]);
            if k > 0 {
                assert(starts[k] == later[k - 1]);
                assert(later[(k - 1) + 1] == later[k - 1] + 1 + extent(lines, later[k - 1]));
            }
        }
        if later.len() > 0 {
            assert(starts.last() == later.last());
        }
    }
}

/// An assignment is a step and no definition: it leaves the document as it
/// is, variables included, and adds one step to the section in progress. It
/// stands whether or not the variable was defined, and gives a warning if
/// and only if the variables hold no name equal to its name in lower case.
pub proof fn lemma_assignment_is_a_step(lines: Seq<Seq<char>>, at: int, st: ParseState)
    requires
        0 <= at < lines.len(),
        classify(lines[at]) is Assignment,
    ensures
        apply(lines, at, st).dialogue == st.dialogue,
        apply(lines, at, st).section.steps == st.section.steps.push(
            assignment_step(classify(lines[at])->Assignment_0, classify(lines[at])->Assignment_1),
        ),
        st.dialogue.variables.contains_key(lowercase_of(classify(lines[at])->Assignment_0))
            ==> apply(lines, at, st).warnings == st.warnings,
        !st.dialogue.variables.contains_key(lowercase_of(classify(lines[at])->Assignment_0))
            ==> apply(lines, at, st).warnings == st.warnings.push(
            variable_warning(st.line_number, classify(lines[at])->Assignment_0),
        ),
{
    let name = classify(lines[at])->Assignment_0;
    let added = assignment_warnings(
        name,
        lowercase_of(name),
        st.dialogue.variables,
        st.line_number,
    );
    if st.dialogue.variables.contains_key(lowercase_of(name)) {
        assert(st.warnings + added =~= st.warnings);
    } else {
        assert(st.warnings + added =~= st.warnings.push(variable_warning(st.line_number, name)));
    }
}

/// A definition is no step: it sets the variable in the document and
/// leaves the section in progress and the warnings as they are.
pub proof fn lemma_definition_is_no_step(lines: Seq<Seq<char>>, at: int, st: ParseState)
    requires
        0 <= at < lines.len(),
        classify(lines[at]) is Variable,
    ensures
        apply(lines, at, st).dialogue.variables == st.dialogue.variables.insert(
            classify(lines[at])->Variable_0,
            classify(lines[at])->Variable_1,
        ),
        apply(lines, at, st).section == st.section,
        apply(lines, at, st).dialogue.sections == st.dialogue.sections,
        apply(lines, at, st).warnings == st.warnings,
{
}

/// The variables after the constructs from `at` on, from `variables`: each
/// definition among them sets its variable, and no other construct touches
/// a variable.
pub open spec fn variables_from(
    lines: Seq<Seq<char>>,
    at: int,
    variables: Map<Seq<char>, ValueView>,
) -> Map<Seq<char>, ValueView>
    decreases lines.len() - at,
    via variables_from_decreases
{
    if 0 <= at < lines.len() {
        variables_from(
            lines,
            at + 1 + extent(lines, at),
            match classify(lines[at]) {
                LineKind::Variable(name, value) => variables.insert(name, value),
                _ => variables,
            },
        )
    } else {
        variables
    }
}

#[via_fn]
proof fn variables_from_decreases(
    lines: Seq<Seq<char>>,
    at: int,
    variables: Map<Seq<char>, ValueView>,
) {
    if 0 <= at < lines.len() {
        lemma_extent_bound(lines, at);
    }
}

/// Reading on from line `at` sets the variables that the definitions from
/// `at` on define.
proof fn lemma_parse_from_variables(lines: Seq<Seq<char>>, at: int, st: ParseState)
    requires
        0 <= at,
    ensures
        parse_from(lines, at, st).dialogue.variables == variables_from(
            lines,
            at,
            st.dialogue.variables,
        ),
    decreases lines.len() - at,
{
    if at < lines.len() {
        lemma_extent_bound(lines, at);
        lemma_parse_from_variables(lines, at + 1 + extent(lines, at), apply(lines, at, counted(st)));
    }
}

/// The variables of a parsed document are what its definitions set, the
/// later definition of a name standing; assignments, which are steps, leave
/// them as they are.
pub proof fn lemma_variables_are_definitions(lines: Seq<Seq<char>>)
    ensures
        parsed_lines(lines).dialogue.variables == variables_from(lines, 0, Map::empty()),
{
    lemma_parse_from_variables(lines, 0, initial_state());
}

/// The sections that the constructs from `at` on make, `current` being the
/// section in progress: a header ends the section in progress and opens
/// the next, and every other construct that is a step adds its step to the
/// section in progress. Sections without a step are among them.
pub open spec fn sections_from(lines: Seq<Seq<char>>, at: int, current: SectionView) -> Seq<
    SectionView,
>
    decreases lines.len() - at,
    via sections_from_decreases
{
    if 0 <= at < lines.len() {
        match classify(lines[at]) {
            LineKind::Section(name) => seq![current] + sections_from(
                lines,
                at + 1 + extent(lines, at),
                SectionView { name, steps: Seq::empty() },
            ),
            _ => sections_from(
                lines,
                at + 1 + extent(lines, at),
                if makes_step(lines[at]) {
                    SectionView { name: current.name, steps: current.steps.push(step_of(lines, at)) }
                } else {
                    current
                },
            ),
        }
    } else {
        seq![current]
    }
}

#[via_fn]
proof fn sections_from_decreases(lines: Seq<Seq<char>>, at: int, current: SectionView) {
    if 0 <= at < lines.len() {
        lemma_extent_bound(lines, at);
    }
}

/// The names of the sections that the headers from `at` on open, in the
/// order of the lines.
pub open spec fn header_names(lines: Seq<Seq<char>>, at: int) -> Seq<Seq<char>>
    decreases lines.len() - at,
    via header_names_decreases
{
    if 0 <= at < lines.len() {
        match classify(lines[at]) {
            LineKind::Section(name) => seq![name] + header_names(lines, at + 1 + extent(lines, at)),
            _ => header_names(lines, at + 1 + extent(lines, at)),
        }
    } else {
        Seq::empty()
    }
}

#[via_fn]
proof fn header_names_decreases(lines: Seq<Seq<char>>, at: int) {
    if 0 <= at < lines.len() {
        lemma_extent_bound(lines, at);
    }
}

/// Of `sections`, in order, those that have a step, and the last whether
/// it has one or not.
pub open spec fn kept_sections(sections: Seq<SectionView>) -> Seq<SectionView>
    decreases sections.len(),
{
    if sections.len() <= 1 {
        sections
    } else if sections[0].steps.len() > 0 {
        seq![sections[0]] + kept_sections(sections.skip(1))
    } else {
        kept_sections(sections.skip(1))
    }
}

/// The names of `sections`, in order.
pub open spec fn names_of(sections: Seq<SectionView>) -> Seq<Seq<char>> {
    Seq::new(sections.len(), |i: int| sections[i].name)
}

/// There is a section for the section in progress and one for each header
/// after it, in the order of the headers.
pub proof fn lemma_sections_follow_headers(lines: Seq<Seq<char>>, at: int, current: SectionView)
    requires
        0 <= at,
    ensures
        names_of(sections_from(lines, at, current)) == seq![current.name] + header_names(lines, at),
    decreases lines.len() - at,
{
    if at < lines.len() {
        lemma_extent_bound(lines, at);
        let next = at + 1 + extent(lines, at);
        match classify(lines[at]) {
            LineKind::Section(name) => {
                let opened = SectionView { name, steps: Seq::empty() };
                lemma_sections_follow_headers(lines, next, opened);
                assert(names_of(seq![current] + sections_from(lines, next, opened)) =~= seq![
                    current.name,
                ] + names_of(sections_from(lines, next, opened)));
                assert(seq![current.name] + (seq![name] + header_names(lines, next)) =~= seq![
                    current.name,
                ] + header_names(lines, at));
            },
            _ => {
                let grown = if makes_step(lines[at]) {
                    SectionView { name: current.name, steps: current.steps.push(step_of(lines, at)) }
                } else {
                    current
                };
                lemma_sections_follow_headers(lines, next, grown);
            },
        }
    } else {
        assert(names_of(seq![current]) =~= seq![current.name] + Seq::<Seq<char>>::empty());
    }
}

/// Reading on from line `at` adds to the sections of the document those
/// that the constructs from `at` on make, without the empty ones but with
/// the last.
proof fn lemma_parse_from_sections(lines: Seq<Seq<char>>, at: int, st: ParseState)
    requires
        0 <= at,
    ensures
        closed(parse_from(lines, at, st)).dialogue.sections == st.dialogue.sections
            + kept_sections(sections_from(lines, at, st.section)),
    decreases lines.len() - at,
{
    if at < lines.len() {
        lemma_extent_bound(lines, at);
        let next = at + 1 + extent(lines, at);
        let after = apply(lines, at, counted(st));
        lemma_parse_from_sections(lines, next, after);
        match classify(lines[at]) {
            LineKind::Section(name) => {
                let rest = sections_from(lines, next, after.section);
                lemma_sections_follow_headers(lines, next, after.section);
                assert(names_of(rest).len() > 0);
                let all = seq![st.section] + rest;
                assert(all.skip(1) =~= rest);
                assert(all[0] == st.section);
                if st.section.steps.len() > 0 {
                    assert(st.dialogue.sections.push(st.section) + kept_sections(rest)
                        =~= st.dialogue.sections + (seq![st.section] + kept_sections(rest)));
                }
            },
            _ => {},
        }
    } else {
        assert(st.dialogue.sections.push(st.section) =~= st.dialogue.sections + seq![st.section]);
    }
}

/// The order of the sections is that of the headers: the sections of a
/// parsed document are the section for what precedes the first header and
/// the sections of the headers, in the order of the lines, each with the
/// steps between its header and the next, without those that have no step
/// but with the last, whether it has one or not.
pub proof fn lemma_sections_keep_order(lines: Seq<Seq<char>>)
    ensures
        parsed_lines(lines).dialogue.sections == kept_sections(
            sections_from(lines, 0, initial_state().section),
        ),
        names_of(sections_from(lines, 0, initial_state().section)) == seq![META_SECTION_NAME@]
            + header_names(lines, 0),
{
    lemma_parse_from_sections(lines, 0, initial_state());
    lemma_sections_follow_headers(lines, 0, initial_state().section);
    assert(Seq::<SectionView>::empty() + kept_sections(
        sections_from(lines, 0, initial_state().section),
    ) =~= kept_sections(sections_from(lines, 0, initial_state().section)));
}

/// Whether `name` is the lower-case form of some text.
pub open spec fn is_lowered(name: Seq<char>) -> bool {
    exists|written: Seq<char>| name == lowercase_of(written)
}

/// Whether the document of `st` is in order: the names of its actors,
/// variables and functions are in lower case, and each of its sections has
/// a step.
pub open spec fn in_order(st: ParseState) -> bool {
    &&& forall|name: Seq<char>| #[trigger]
        st.dialogue.actors.contains_key(name) ==> is_lowered(name)
    &&& forall|name: Seq<char>| #[trigger]
        st.dialogue.variables.contains_key(name) ==> is_lowered(name)
    &&& forall|name: Seq<char>| #[trigger]
        st.dialogue.functions.contains_key(name) ==> is_lowered(name)
    &&& forall|i: int|
        0 <= i < st.dialogue.sections.len() ==> (#[trigger] st.dialogue.sections[i]).steps.len()
            > 0
}

/// A construct keeps the document in order.
proof fn lemma_apply_keeps_order(lines: Seq<Seq<char>>, at: int, st: ParseState)
    requires
        0 <= at < lines.len(),
        in_order(st),
    ensures
        in_order(apply(lines, at, st)),
{
    let after = apply(lines, at, st);
    match classify(lines[at]) {
        LineKind::Actor(header) => {
            assert(is_lowered(lowercase_of(header)));
        },
        LineKind::Function(name, function) => {
            let definition = strip_prefix(lines[at], FUNCTION@)->0;
            assert(name == lowercase_of(trim(signature_name(signature_of(definition)))));
            assert(is_lowered(name));
        },
        LineKind::Variable(name, value) => {
            let rest = strip_prefix(lines[at], VARIABLE@)->0;
            let parts = split_once(rest, SEPARATOR)->0;
            assert(name == lowercase_of(trim(parts.0)));
            assert(is_lowered(name));
        },
        _ => {},
    }
}

/// Reading on keeps the document in order.
proof fn lemma_parse_from_keeps_order(lines: Seq<Seq<char>>, at: int, st: ParseState)
    requires
        0 <= at,
        in_order(st),
    ensures
        in_order(parse_from(lines, at, st)),
    decreases lines.len() - at,
{
    if at < lines.len() {
        lemma_extent_bound(lines, at);
        lemma_apply_keeps_order(lines, at, counted(st));
        lemma_parse_from_keeps_order(
            lines,
            at + 1 + extent(lines, at),
            apply(lines, at, counted(st)),
        );
    }
}

/// In every parsed document the names of actors, variables and functions
/// are in lower case, and every section but the last has a step.
pub proof fn lemma_document_is_in_order(lines: Seq<Seq<char>>)
    ensures
        forall|name: Seq<char>| #[trigger]
            parsed_lines(lines).dialogue.actors.contains_key(name) ==> is_lowered(name),
        forall|name: Seq<char>| #[trigger]
            parsed_lines(lines).dialogue.variables.contains_key(name) ==> is_lowered(name),
        forall|name: Seq<char>| #[trigger]
            parsed_lines(lines).dialogue.functions.contains_key(name) ==> is_lowered(name),
        parsed_lines(lines).dialogue.sections.len() > 0,
        forall|i: int|
            0 <= i < parsed_lines(lines).dialogue.sections.len() - 1 ==> (#[trigger] parsed_lines(
                lines,
            ).dialogue.sections[i]).steps.len() > 0,
{
    lemma_parse_from_keeps_order(lines, 0, initial_state());
    let last = parse_from(lines, 0, initial_state());
    assert forall|i: int| 0 <= i < parsed_lines(lines).dialogue.sections.len() - 1 implies (
    #[trigger] parsed_lines(lines).dialogue.sections[i]).steps.len() > 0 by {
        assert(parsed_lines(lines).dialogue.sections[i] == last.dialogue.sections[i]);
    }
}

/// The text of the spoken line `line`.
pub open spec fn said_text(line: Seq<char>) -> Seq<char> {
    let said = spoken(line)->0;
    said.1
}

/// A line spoken by an actor that is not defined is kept as a spoken line
/// under the identifier it names, and gives one warning.
pub proof fn lemma_undefined_speaker_is_kept(
    line: Seq<char>,
    actors: Map<Seq<char>, ActorView>,
    line_number: nat,
)
    requires
        speaker_reference(line) is Some,
        !actors.contains_key(speaker_reference(line)->0),
    ensures
        text_line(line) == (LineView::SpeakerText {
            speaker: speaker_reference(line)->0,
            text: said_text(line),
        }),
        line_warnings(line, actors, line_number) == seq![
            actor_warning(line_number, speaker_reference(line)->0),
        ],
{
}

} // verus!
