//! The grammar of a script, stated over sequences of characters: what each
//! line is, how far a construct reaches, and what document the lines make.

use crate::parser::config::META_SECTION_NAME;
use crate::parser::syntax::comments::BASIC;
use crate::parser::syntax::comments::ERROR;
use crate::parser::syntax::comments::INFO;
use crate::parser::syntax::comments::WARNING;
use crate::parser::syntax::delimiters::ARGUMENTS_END;
use crate::parser::syntax::delimiters::ARGUMENTS_START;
use crate::parser::syntax::delimiters::ASSIGNMENT;
use crate::parser::syntax::delimiters::ITEM;
use crate::parser::syntax::delimiters::SEPARATOR;
use crate::parser::syntax::navigation::BOUNCE;
use crate::parser::syntax::navigation::END;
use crate::parser::syntax::navigation::JUMP;
use crate::parser::syntax::navigation::TERMINATE;
use crate::parser::syntax::prefixes::ACTOR;
use crate::parser::syntax::prefixes::FUNCTION;
use crate::parser::syntax::prefixes::RESPONSE;
use crate::parser::syntax::prefixes::SECTION;
use crate::parser::syntax::prefixes::VARIABLE;
use crate::parser::types::ActorView;
use crate::parser::types::DialogueView;
use crate::parser::types::FunctionView;
use crate::parser::types::LineView;
use crate::parser::types::SectionView;
use crate::parser::types::StepView;
use crate::parser::types::ValueView;
use crate::parser::types::empty_dialogue;
use crate::parser::value::value_of;
use crate::strings::decimal;
use crate::strings::lowercase_of;
use crate::text::split;
use crate::text::split_once;
use crate::text::strip_prefix;
use crate::text::trim;
use crate::text::trim_end_matches;
use crate::text::trimmed_lines;
use vstd::prelude::*;

verus! {

/// The name of the section that `line` opens: what follows `#`, trimmed.
pub open spec fn section_header(line: Seq<char>) -> Option<Seq<char>> {
    match strip_prefix(line, SECTION@) {
        Some(rest) => Some(trim(rest)),
        None => None,
    }
}

/// The identifier of the actor that `line` starts to define, as written:
/// what follows `@`, trimmed, where it holds no `:` (with one, the line
/// is spoken by an actor and defines none).
pub open spec fn actor_header(line: Seq<char>) -> Option<Seq<char>> {
    match strip_prefix(line, ACTOR@) {
        Some(rest) => if split_once(rest, SEPARATOR) is None {
            Some(trim(rest))
        } else {
            None
        },
        None => None,
    }
}

/// The log step that `line` is. The three marks of log lines are tried
/// before the mark of a comment, which each of them begins with.
pub open spec fn log_step(line: Seq<char>) -> Option<StepView> {
    if strip_prefix(line, INFO@) is Some {
        Some(StepView::LogInfo(trim(strip_prefix(line, INFO@)->0)))
    } else if strip_prefix(line, WARNING@) is Some {
        Some(StepView::LogWarning(trim(strip_prefix(line, WARNING@)->0)))
    } else if strip_prefix(line, ERROR@) is Some {
        Some(StepView::LogError(trim(strip_prefix(line, ERROR@)->0)))
    } else {
        None
    }
}

/// The comment that `line` is.
pub open spec fn comment_step(line: Seq<char>) -> Option<StepView> {
    match strip_prefix(line, BASIC@) {
        Some(rest) => Some(StepView::Comment(trim(rest))),
        None => None,
    }
}

/// The name and the default of one argument: `name` or `name=value`. An
/// argument without a value defaults to the empty text.
pub open spec fn argument_of(piece: Seq<char>) -> (Seq<char>, ValueView) {
    match split_once(piece, ASSIGNMENT) {
        Some((name, value)) => (trim(name), value_of(trim(value))),
        None => (trim(piece), ValueView::Text(Seq::empty())),
    }
}

/// The arguments that `parts` declare. Where a name is repeated, its last
/// default stands.
pub open spec fn arguments_of(parts: Seq<Seq<char>>) -> Map<Seq<char>, ValueView>
    decreases parts.len(),
{
    if parts.len() == 0 {
        Map::empty()
    } else {
        arguments_of(parts.drop_last()).insert(
            argument_of(parts.last()).0,
            argument_of(parts.last()).1,
        )
    }
}

/// The part of a function's definition that stands before the first `:`.
pub open spec fn signature_of(definition: Seq<char>) -> Seq<char> {
    match split_once(definition, SEPARATOR) {
        Some((signature, _)) => signature,
        None => definition,
    }
}

/// The default result of a function: the value after the first `:`.
pub open spec fn result_of(definition: Seq<char>) -> Option<ValueView> {
    match split_once(definition, SEPARATOR) {
        Some((_, result)) => Some(value_of(trim(result))),
        None => None,
    }
}

/// The arguments of a signature: what follows the first `(`, without the
/// closing brackets at its end, trimmed and cut at commas. A signature
/// without `(`, or with nothing between the brackets, has none.
pub open spec fn signature_arguments(signature: Seq<char>) -> Option<Map<Seq<char>, ValueView>> {
    match split_once(signature, ARGUMENTS_START) {
        Some((_, rest)) => {
            let inner = trim(trim_end_matches(rest, ARGUMENTS_END));
            if inner.len() > 0 {
                Some(arguments_of(split(inner, ITEM)))
            } else {
                None
            }
        },
        None => None,
    }
}

/// The name in a signature as written: what stands before the first `(`.
pub open spec fn signature_name(signature: Seq<char>) -> Seq<char> {
    match split_once(signature, ARGUMENTS_START) {
        Some((name, _)) => name,
        None => signature,
    }
}

/// The function that `line` declares, under its name in lower case:
/// `!name`, `!name(arguments)`, `!name: result` or
/// `!name(arguments): result`. The result is parted at the first `:` before
/// the arguments are parted at the first `(`.
pub open spec fn function_definition(line: Seq<char>) -> Option<(Seq<char>, FunctionView)> {
    match strip_prefix(line, FUNCTION@) {
        Some(definition) => Some(
            (
                lowercase_of(trim(signature_name(signature_of(definition)))),
                FunctionView {
                    args: signature_arguments(signature_of(definition)),
                    result: result_of(definition),
                },
            ),
        ),
        None => None,
    }
}

/// The variable that `line` defines, under its name in lower case:
/// `$name: value`.
pub open spec fn variable_definition(line: Seq<char>) -> Option<(Seq<char>, ValueView)> {
    match strip_prefix(line, VARIABLE@) {
        Some(rest) => match split_once(rest, SEPARATOR) {
            Some((name, value)) => Some((lowercase_of(trim(name)), value_of(trim(value)))),
            None => None,
        },
        None => None,
    }
}

/// The name, as written, of the variable that `line` assigns to, and the
/// value assigned: `$name = value`.
pub open spec fn variable_assignment(line: Seq<char>) -> Option<(Seq<char>, ValueView)> {
    match strip_prefix(line, VARIABLE@) {
        Some(rest) => match split_once(rest, ASSIGNMENT) {
            Some((name, value)) => Some((trim(name), value_of(trim(value)))),
            None => None,
        },
        None => None,
    }
}

/// The step that an assignment to the variable written as `name` makes: it
/// names the variable in lower case.
pub open spec fn assignment_step(name: Seq<char>, value: ValueView) -> StepView {
    StepView::VariableAssign { name: lowercase_of(name), value }
}

/// The bounce that `line` is: `=><= target`.
pub open spec fn section_bounce(line: Seq<char>) -> Option<StepView> {
    match strip_prefix(line, BOUNCE@) {
        Some(rest) => Some(StepView::SectionBounce(trim(rest))),
        None => None,
    }
}

/// Where a jump to `target` goes, `lowered` being `target` in lower case:
/// the two reserved words end the branch or the session, any other target
/// names a section and keeps its case.
pub open spec fn jump_to(target: Seq<char>, lowered: Seq<char>) -> StepView {
    if lowered == END@ {
        StepView::EndJump
    } else if lowered == TERMINATE@ {
        StepView::TerminateJump
    } else {
        StepView::SectionJump(target)
    }
}

/// The jump that `line` is: `=> target`.
pub open spec fn section_jump(line: Seq<char>) -> Option<StepView> {
    match strip_prefix(line, JUMP@) {
        Some(rest) => Some(jump_to(trim(rest), lowercase_of(trim(rest)))),
        None => None,
    }
}

/// Whether `line` ends a block of lines that belong together: it is empty
/// or begins with the mark of a comment or log line, an actor, a section, a
/// function, a variable or a navigation.
pub open spec fn begins_construct(line: Seq<char>) -> bool {
    ||| line.len() == 0
    ||| BASIC@.is_prefix_of(line)
    ||| ACTOR@.is_prefix_of(line)
    ||| SECTION@.is_prefix_of(line)
    ||| FUNCTION@.is_prefix_of(line)
    ||| VARIABLE@.is_prefix_of(line)
    ||| BOUNCE@.is_prefix_of(line)
    ||| JUMP@.is_prefix_of(line)
}

/// The speaker and the text of a spoken line, both trimmed: the line is cut
/// at its first `:` and the text is not empty.
pub open spec fn spoken(line: Seq<char>) -> Option<(Seq<char>, Seq<char>)> {
    match split_once(line, SEPARATOR) {
        Some((speaker, text)) => if trim(text).len() > 0 {
            Some((trim(speaker), trim(text)))
        } else {
            None
        },
        None => None,
    }
}

/// The identifier, as written, of the actor that the speaker label refers
/// to: what follows `@`, trimmed.
pub open spec fn actor_reference(speaker: Seq<char>) -> Option<Seq<char>> {
    match strip_prefix(speaker, ACTOR@) {
        Some(id) => Some(trim(id)),
        None => None,
    }
}

/// The identifier in lower case of the actor that `line` is spoken by,
/// where its speaker is written as `@id`.
pub open spec fn speaker_reference(line: Seq<char>) -> Option<Seq<char>> {
    if strip_prefix(line, RESPONSE@) is Some || spoken(line) is None {
        None
    } else {
        let said = spoken(line)->0;
        match actor_reference(said.0) {
            Some(id) => Some(lowercase_of(id)),
            None => None,
        }
    }
}

/// The line of a page that `line` is: a response, a spoken line, or else
/// the line itself as text. A speaker written as `@id` is held as `id` in
/// lower case, any other label as written.
pub open spec fn text_line(line: Seq<char>) -> LineView {
    if strip_prefix(line, RESPONSE@) is Some {
        LineView::Response { text: trim(strip_prefix(line, RESPONSE@)->0), pages: Seq::empty() }
    } else if spoken(line) is Some {
        let said = spoken(line)->0;
        LineView::SpeakerText {
            speaker: match actor_reference(said.0) {
                Some(id) => lowercase_of(id),
                None => said.0,
            },
            text: said.1,
        }
    } else {
        LineView::Text(line)
    }
}

/// The warning that an assignment on line `line_number` names a variable
/// that was not defined.
pub open spec fn variable_warning(line_number: nat, name: Seq<char>) -> Seq<char> {
    "Line "@ + decimal(line_number) + ": Static variable definition not found ["@ + name + "]"@
}

/// The warning that a line of the page on line `line_number` is spoken by
/// an actor that was not defined.
pub open spec fn actor_warning(line_number: nat, id: Seq<char>) -> Seq<char> {
    "Line "@ + decimal(line_number) + ": Actor definition not found ("@ + id + ")"@
}

/// What one line is, by the first trial that succeeds. The order of the
/// trials is fixed.
pub enum LineKind {
    Blank,
    Section(Seq<char>),
    Actor(Seq<char>),
    Step(StepView),
    Function(Seq<char>, FunctionView),
    Variable(Seq<char>, ValueView),
    Assignment(Seq<char>, ValueView),
    Page,
}

/// What `line` is.
pub open spec fn classify(line: Seq<char>) -> LineKind {
    if line.len() == 0 {
        LineKind::Blank
    } else if section_header(line) is Some {
        LineKind::Section(section_header(line)->0)
    } else if actor_header(line) is Some {
        LineKind::Actor(actor_header(line)->0)
    } else if log_step(line) is Some {
        LineKind::Step(log_step(line)->0)
    } else if comment_step(line) is Some {
        LineKind::Step(comment_step(line)->0)
    } else if function_definition(line) is Some {
        let function = function_definition(line)->0;
        LineKind::Function(function.0, function.1)
    } else if variable_definition(line) is Some {
        let variable = variable_definition(line)->0;
        LineKind::Variable(variable.0, variable.1)
    } else if variable_assignment(line) is Some {
        let assignment = variable_assignment(line)->0;
        LineKind::Assignment(assignment.0, assignment.1)
    } else if section_bounce(line) is Some {
        LineKind::Step(section_bounce(line)->0)
    } else if section_jump(line) is Some {
        LineKind::Step(section_jump(line)->0)
    } else {
        LineKind::Page
    }
}

/// Whether `line` is a property of the actor defined above it: it begins no
/// construct and holds a `:`.
pub open spec fn is_property(line: Seq<char>) -> bool {
    !begins_construct(line) && split_once(line, SEPARATOR) is Some
}

/// The name, in lower case, and the value of a property line.
pub open spec fn property_of(line: Seq<char>) -> (Seq<char>, ValueView) {
    let parts = split_once(line, SEPARATOR)->0;
    (lowercase_of(trim(parts.0)), value_of(trim(parts.1)))
}

/// How many lines from `from` on are properties, up to the first that is
/// none.
pub open spec fn property_count(lines: Seq<Seq<char>>, from: int) -> nat
    decreases lines.len() - from,
{
    if 0 <= from < lines.len() && is_property(lines[from]) {
        1 + property_count(lines, from + 1)
    } else {
        0
    }
}

/// The properties that `rows` give. Where a name is repeated, its last
/// value stands.
pub open spec fn properties_of(rows: Seq<Seq<char>>) -> Map<Seq<char>, ValueView>
    decreases rows.len(),
{
    if rows.len() == 0 {
        Map::empty()
    } else {
        properties_of(rows.drop_last()).insert(
            property_of(rows.last()).0,
            property_of(rows.last()).1,
        )
    }
}

/// The name under which an actor is shown: its property `name` where that
/// is a text, else the identifier of its header as written.
pub open spec fn display_name(header: Seq<char>, properties: Map<Seq<char>, ValueView>) -> Seq<
    char,
> {
    if properties.contains_key("name"@) && properties["name"@] is Text {
        properties["name"@]->Text_0
    } else {
        header
    }
}

/// The actor that the header `header` and the property lines `rows` define.
pub open spec fn actor_of(header: Seq<char>, rows: Seq<Seq<char>>) -> ActorView {
    ActorView {
        name: display_name(header, properties_of(rows)),
        properties: properties_of(rows),
    }
}

/// How many lines from `from` on continue a page, up to the first that
/// begins a construct.
pub open spec fn page_count(lines: Seq<Seq<char>>, from: int) -> nat
    decreases lines.len() - from,
{
    if 0 <= from < lines.len() && !begins_construct(lines[from]) {
        1 + page_count(lines, from + 1)
    } else {
        0
    }
}

/// The lines of the page that `rows` make.
pub open spec fn page_lines(rows: Seq<Seq<char>>) -> Seq<LineView> {
    Seq::new(rows.len(), |i: int| text_line(rows[i]))
}

/// The warnings of a line spoken by the actor `id`: one where `actors`
/// holds no such actor.
pub open spec fn reference_warnings(
    id: Seq<char>,
    actors: Map<Seq<char>, ActorView>,
    line_number: nat,
) -> Seq<Seq<char>> {
    if actors.contains_key(id) {
        Seq::empty()
    } else {
        seq![actor_warning(line_number, id)]
    }
}

/// The warnings of one line of a page.
pub open spec fn line_warnings(
    line: Seq<char>,
    actors: Map<Seq<char>, ActorView>,
    line_number: nat,
) -> Seq<Seq<char>> {
    match speaker_reference(line) {
        Some(id) => reference_warnings(id, actors, line_number),
        None => Seq::empty(),
    }
}

/// The warnings that the page `rows` gives: one for each line spoken by an
/// actor that `actors` does not hold, in the order of the lines.
pub open spec fn page_warnings(
    rows: Seq<Seq<char>>,
    actors: Map<Seq<char>, ActorView>,
    line_number: nat,
) -> Seq<Seq<char>>
    decreases rows.len(),
{
    if rows.len() == 0 {
        Seq::empty()
    } else {
        page_warnings(rows.drop_last(), actors, line_number) + line_warnings(
            rows.last(),
            actors,
            line_number,
        )
    }
}

/// How many lines the construct that starts at `at` takes beyond its first:
/// the properties of an actor, the further lines of a page.
pub open spec fn extent(lines: Seq<Seq<char>>, at: int) -> nat {
    match classify(lines[at]) {
        LineKind::Actor(_) => property_count(lines, at + 1),
        LineKind::Page => page_count(lines, at + 1),
        _ => 0,
    }
}

/// Where the parser stands between two constructs.
pub struct ParseState {
    /// The document so far, without the section in progress.
    pub dialogue: DialogueView,
    /// The section in progress.
    pub section: SectionView,
    /// The warnings so far.
    pub warnings: Seq<Seq<char>>,
    /// How many constructs and blank lines were met so far: the number by
    /// which warnings name the place of a construct.
    pub line_number: nat,
}

/// The state before the first line: an empty document, and the section for
/// what precedes the first header in progress.
pub open spec fn initial_state() -> ParseState {
    ParseState {
        dialogue: empty_dialogue(),
        section: SectionView { name: META_SECTION_NAME@, steps: Seq::empty() },
        warnings: Seq::empty(),
        line_number: 0,
    }
}

/// `st` with `step` at the end of the section in progress.
pub open spec fn with_step(st: ParseState, step: StepView) -> ParseState {
    ParseState {
        section: SectionView { name: st.section.name, steps: st.section.steps.push(step) },
        ..st
    }
}

/// `st` with the warnings `more` after its own.
pub open spec fn with_warnings(st: ParseState, more: Seq<Seq<char>>) -> ParseState {
    ParseState { warnings: st.warnings + more, ..st }
}

/// `st` with a new, empty section `name` in progress. The section that was
/// in progress joins the document unless it is empty.
pub open spec fn open_section(st: ParseState, name: Seq<char>) -> ParseState {
    ParseState {
        dialogue: if st.section.steps.len() > 0 {
            DialogueView { sections: st.dialogue.sections.push(st.section), ..st.dialogue }
        } else {
            st.dialogue
        },
        section: SectionView { name, steps: Seq::empty() },
        ..st
    }
}

/// The warnings of an assignment to the variable written as `name`,
/// `lowered` being `name` in lower case: one where `variables`, whose names
/// are in lower case, holds no `lowered`. The warning shows the name as it
/// was written.
pub open spec fn assignment_warnings(
    name: Seq<char>,
    lowered: Seq<char>,
    variables: Map<Seq<char>, ValueView>,
    line_number: nat,
) -> Seq<Seq<char>> {
    if variables.contains_key(lowered) {
        Seq::empty()
    } else {
        seq![variable_warning(line_number, name)]
    }
}

/// `st` after the construct that starts at line `at`, `st` counting that
/// line already.
pub open spec fn apply(lines: Seq<Seq<char>>, at: int, st: ParseState) -> ParseState {
    match classify(lines[at]) {
        LineKind::Blank => st,
        LineKind::Section(name) => open_section(st, name),
        LineKind::Actor(header) => ParseState {
            dialogue: DialogueView {
                actors: st.dialogue.actors.insert(
                    lowercase_of(header),
                    actor_of(
                        header,
                        lines.subrange(at + 1, at + 1 + property_count(lines, at + 1)),
                    ),
                ),
                ..st.dialogue
            },
            ..st
        },
        LineKind::Step(step) => with_step(st, step),
        LineKind::Function(name, function) => ParseState {
            dialogue: DialogueView {
                functions: st.dialogue.functions.insert(name, function),
                ..st.dialogue
            },
            ..st
        },
        LineKind::Variable(name, value) => ParseState {
            dialogue: DialogueView {
                variables: st.dialogue.variables.insert(name, value),
                ..st.dialogue
            },
            ..st
        },
        LineKind::Assignment(name, value) => with_warnings(
            with_step(st, assignment_step(name, value)),
            assignment_warnings(name, lowercase_of(name), st.dialogue.variables, st.line_number),
        ),
        LineKind::Page => with_warnings(
            with_step(
                st,
                StepView::Page(
                    page_lines(lines.subrange(at, at + 1 + page_count(lines, at + 1))),
                ),
            ),
            page_warnings(
                lines.subrange(at, at + 1 + page_count(lines, at + 1)),
                st.dialogue.actors,
                st.line_number,
            ),
        ),
    }
}

/// `st` with one more line counted.
pub open spec fn counted(st: ParseState) -> ParseState {
    ParseState { line_number: st.line_number + 1, ..st }
}

/// The state after the lines from `at` on, read one construct after the
/// other from state `st`.
pub open spec fn parse_from(lines: Seq<Seq<char>>, at: int, st: ParseState) -> ParseState
    decreases lines.len() - at,
    via parse_from_decreases
{
    if 0 <= at < lines.len() {
        parse_from(lines, at + 1 + extent(lines, at), apply(lines, at, counted(st)))
    } else {
        st
    }
}

#[via_fn]
proof fn parse_from_decreases(lines: Seq<Seq<char>>, at: int, st: ParseState) {
    if 0 <= at < lines.len() {
        lemma_extent_bound(lines, at);
    }
}

/// The properties from `from` on end within `lines`.
pub proof fn lemma_property_count_bound(lines: Seq<Seq<char>>, from: int)
    requires
        0 <= from <= lines.len(),
    ensures
        from + property_count(lines, from) <= lines.len(),
    decreases lines.len() - from,
{
    if from < lines.len() && is_property(lines[from]) {
        lemma_property_count_bound(lines, from + 1);
    }
}

/// The page that continues from `from` on ends within `lines`.
pub proof fn lemma_page_count_bound(lines: Seq<Seq<char>>, from: int)
    requires
        0 <= from <= lines.len(),
    ensures
        from + page_count(lines, from) <= lines.len(),
    decreases lines.len() - from,
{
    if from < lines.len() && !begins_construct(lines[from]) {
        lemma_page_count_bound(lines, from + 1);
    }
}

/// A construct ends within `lines`.
pub proof fn lemma_extent_bound(lines: Seq<Seq<char>>, at: int)
    requires
        0 <= at < lines.len(),
    ensures
        at + 1 + extent(lines, at) <= lines.len(),
{
    lemma_property_count_bound(lines, at + 1);
    lemma_page_count_bound(lines, at + 1);
}

/// What the parser gives: a document and warnings.
pub struct ParseOutcome {
    pub dialogue: DialogueView,
    pub warnings: Seq<Seq<char>>,
}

/// The outcome of the final state `st`: the section in progress joins the
/// document, be it empty or not.
pub open spec fn closed(st: ParseState) -> ParseOutcome {
    ParseOutcome {
        dialogue: DialogueView { sections: st.dialogue.sections.push(st.section), ..st.dialogue },
        warnings: st.warnings,
    }
}

/// The document and the warnings that the trimmed lines `lines` stand for.
pub open spec fn parsed_lines(lines: Seq<Seq<char>>) -> ParseOutcome {
    closed(parse_from(lines, 0, initial_state()))
}

/// The document and the warnings that the script `text` stands for.
pub open spec fn parsed(text: Seq<char>) -> ParseOutcome {
    parsed_lines(trimmed_lines(text))
}

} // verus!
