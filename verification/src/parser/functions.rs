//! The parser itself: one function for each construct of the language, and
//! `parse`, which tries them in their fixed order.

use crate::parser::config::META_SECTION_NAME;
use crate::parser::grammar::actor_header;
use crate::parser::grammar::actor_of;
use crate::parser::grammar::actor_warning;
use crate::parser::grammar::apply;
use crate::parser::grammar::arguments_of;
use crate::parser::grammar::assignment_step;
use crate::parser::grammar::assignment_warnings;
use crate::parser::grammar::begins_construct;
use crate::parser::grammar::closed;
use crate::parser::grammar::comment_step;
use crate::parser::grammar::counted;
use crate::parser::grammar::display_name;
use crate::parser::grammar::extent;
use crate::parser::grammar::function_definition;
use crate::parser::grammar::initial_state;
use crate::parser::grammar::jump_to;
use crate::parser::grammar::lemma_extent_bound;
use crate::parser::grammar::line_warnings;
use crate::parser::grammar::log_step;
use crate::parser::grammar::page_count;
use crate::parser::grammar::page_lines;
use crate::parser::grammar::page_warnings;
use crate::parser::grammar::parse_from;
use crate::parser::grammar::parsed;
use crate::parser::grammar::properties_of;
use crate::parser::grammar::property_count;
use crate::parser::grammar::reference_warnings;
use crate::parser::grammar::section_bounce;
use crate::parser::grammar::section_header;
use crate::parser::grammar::section_jump;
use crate::parser::grammar::spoken;
use crate::parser::grammar::text_line;
use crate::parser::grammar::variable_assignment;
use crate::parser::grammar::variable_definition;
use crate::parser::grammar::variable_warning;
use crate::parser::grammar::ParseState;
use crate::parser::syntax::comments::BASIC;
use crate::parser::syntax::comments::ERROR;
use crate::parser::syntax::comments::INFO;
use crate::parser::syntax::comments::WARNING;
use crate::parser::syntax::delimiters::ARGUMENTS_END;
use crate::parser::syntax::delimiters::ARGUMENTS_START;
use crate::parser::syntax::delimiters::ASSIGNMENT;
use crate::parser::syntax::delimiters::ITEM;
use crate::parser::syntax::delimiters::SEPARATOR;
use crate::parser::syntax::navigation::BOUNCE;
use crate::parser::syntax::navigation::END;
use crate::parser::syntax::navigation::JUMP;
use crate::parser::syntax::navigation::TERMINATE;
use crate::parser::syntax::prefixes::ACTOR;
use crate::parser::syntax::prefixes::FUNCTION;
use crate::parser::syntax::prefixes::RESPONSE;
use crate::parser::syntax::prefixes::SECTION;
use crate::parser::syntax::prefixes::VARIABLE;
use crate::parser::types::lemma_page_view;
use crate::parser::types::lemma_response_view;
use crate::parser::types::views;
use crate::parser::types::Dialogue;
use crate::parser::types::DialogueActor;
use crate::parser::types::DialogueFunction;
use crate::parser::types::DialogueLine;
use crate::parser::types::DialogueSection;
use crate::parser::types::DialogueStep;
use crate::parser::types::DialogueValue;
use crate::parser::types::DialogueView;
use crate::parser::types::LineView;
use crate::parser::types::SectionView;
use crate::parser::types::StepView;
use crate::parser::value::infer_value;
use crate::strings::from_chars;
use crate::strings::lowercase;
use crate::strings::lowercase_of;
use crate::strings::push_decimal;
use crate::strings::to_chars;
use crate::table::Table;
use crate::text::cut_once;
use crate::text::is_word;
use crate::text::pieces;
use crate::text::rows_view;
use crate::text::slices_view;
use crate::text::split;
use crate::text::split_trimmed_lines;
use crate::text::starts_with;
use crate::text::trimmed;
use crate::text::without_prefix;
use crate::text::without_trailing;
use vstd::prelude::*;
use vstd::string::StringExecFns;

verus! {

/// What `parse` returns: the document, and the warnings met on the way.
#[derive(Debug)]
pub struct ParseResult {
    pub dialogue: Dialogue,
    pub warnings: Vec<String>,
}

/// What the functions that may warn are given: the document so far, the
/// number of the construct being read, and the list that takes warnings.
///
/// A function that is handed a context adds to that list and to no other:
/// its contract says so in the clause on the final value of `warnings`.
#[derive(Debug)]
pub struct ParseContext<'a> {
    pub dialogue: &'a Dialogue,
    pub current_line: usize,
    pub warnings: &'a mut Vec<String>,
}

/// Whether `after` is `before` with the warnings `added` after its own and
/// nothing else changed.
pub open spec fn warned(before: ParseContext, after: ParseContext, added: Seq<Seq<char>>) -> bool {
    &&& after.dialogue == before.dialogue
    &&& after.current_line == before.current_line
    &&& views(after.warnings@) == views(before.warnings@) + added
}

/// The section that `line` opens.
pub fn parse_section(line: &[char]) -> (r: Option<DialogueSection>)
    ensures
        match r {
            Some(section) => section_header(line@) == Some(section@.name) && section@.steps.len()
                == 0,
            None => section_header(line@) is None,
        },
{
    match without_prefix(line, SECTION) {
        Some(rest) => Some(
            DialogueSection { name: from_chars(trimmed(rest)), steps: Vec::new() },
        ),
        None => None,
    }
}

/// The log step that `line` is.
pub fn parse_log_step(line: &[char]) -> (r: Option<DialogueStep>)
    ensures
        match r {
            Some(step) => log_step(line@) == Some(step@),
            None => log_step(line@) is None,
        },
{
    if let Some(text) = without_prefix(line, INFO) {
        return Some(DialogueStep::LogInfo(from_chars(trimmed(text))));
    }
    if let Some(text) = without_prefix(line, WARNING) {
        return Some(DialogueStep::LogWarning(from_chars(trimmed(text))));
    }
    match without_prefix(line, ERROR) {
        Some(text) => Some(DialogueStep::LogError(from_chars(trimmed(text)))),
        None => None,
    }
}

/// The comment that `line` is.
pub fn parse_comment_step(line: &[char]) -> (r: Option<DialogueStep>)
    ensures
        match r {
            Some(step) => comment_step(line@) == Some(step@),
            None => comment_step(line@) is None,
        },
{
    match without_prefix(line, BASIC) {
        Some(text) => Some(DialogueStep::Comment(from_chars(trimmed(text)))),
        None => None,
    }
}

/// The variable that `line` defines: its name in lower case and its value.
pub fn parse_variable_definition(line: &[char]) -> (r: Option<(String, DialogueValue)>)
    ensures
        match r {
            Some((name, value)) => variable_definition(line@) == Some((name@, value@)),
            None => variable_definition(line@) is None,
        },
{
    let rest = match without_prefix(line, VARIABLE) {
        Some(rest) => rest,
        None => {
            return None;
        },
    };
    match cut_once(rest, SEPARATOR) {
        Some((name, value)) => Some((lowercase(trimmed(name)), infer_value(trimmed(value)))),
        None => None,
    }
}

/// The text of the warning that an assignment names an undefined variable.
fn variable_warning_text(line_number: usize, name: &[char]) -> (r: String)
    ensures
        r@ == variable_warning(line_number as nat, name@),
{
    let mut text = String::from_str("Line ");
    push_decimal(&mut text, line_number);
    text.append(": Static variable definition not found [");
    let name_text = from_chars(name);
    text.append(name_text.as_str());
    text.append("]");
    text
}

/// The text of the warning that a line is spoken by an undefined actor.
fn actor_warning_text(line_number: usize, id: &str) -> (r: String)
    ensures
        r@ == actor_warning(line_number as nat, id@),
{
    let mut text = String::from_str("Line ");
    push_decimal(&mut text, line_number);
    text.append(": Actor definition not found (");
    text.append(id);
    text.append(")");
    text
}

/// The step that assigns `value` to the variable written as `name`,
/// `lowered` being `name` in lower case. The assignment stands whether or
/// not the variable was defined; where the document of `context` holds no
/// variable `lowered`, a warning that shows `name` is added.
pub fn assign_variable(
    name: &[char],
    lowered: String,
    value: DialogueValue,
    context: &mut ParseContext,
) -> (r: DialogueStep)
    ensures
        r@ == (StepView::VariableAssign { name: lowered@, value: value@ }),
        warned(
            *old(context),
            *final(context),
            assignment_warnings(
                name@,
                lowered@,
                old(context).dialogue@.variables,
                old(context).current_line as nat,
            ),
        ),
        *final(final(context).warnings) == *final(old(context).warnings),
{
    if !context.dialogue.variables.contains_key(lowered.as_str()) {
        let ghost before = context.warnings@;
        context.warnings.push(variable_warning_text(context.current_line, name));
        proof {
            assert(views(context.warnings@) =~= views(before) + seq![
                variable_warning(context.current_line as nat, name@),
            ]);
        }
    } else {
        proof {
            assert(views(context.warnings@) + Seq::<Seq<char>>::empty() =~= views(
                context.warnings@,
            ));
        }
    }
    DialogueStep::VariableAssign { name: lowered, value }
}

/// The step that `line` makes where it assigns to a variable. The
/// assignment stands whether or not the variable was defined; where the
/// document of `context` holds no variable of that name in lower case, a
/// warning is added.
pub fn parse_variable_assignment(line: &[char], context: &mut ParseContext) -> (r: Option<
    DialogueStep,
>)
    ensures
        *final(final(context).warnings) == *final(old(context).warnings),
        match r {
            Some(step) => {
                let assignment = variable_assignment(line@)->0;
                &&& variable_assignment(line@) is Some
                &&& step@ == assignment_step(assignment.0, assignment.1)
                &&& warned(
                    *old(context),
                    *final(context),
                    assignment_warnings(
                        assignment.0,
                        lowercase_of(assignment.0),
                        old(context).dialogue@.variables,
                        old(context).current_line as nat,
                    ),
                )
            },
            None => variable_assignment(line@) is None && warned(
                *old(context),
                *final(context),
                Seq::empty(),
            ),
        },
{
    proof {
        assert(views(context.warnings@) + Seq::<Seq<char>>::empty() =~= views(context.warnings@));
    }
    let rest = match without_prefix(line, VARIABLE) {
        Some(rest) => rest,
        None => {
            return None;
        },
    };
    let (name, value) = match cut_once(rest, ASSIGNMENT) {
        Some(parts) => parts,
        None => {
            return None;
        },
    };
    let name = trimmed(name);
    let value = infer_value(trimmed(value));
    let lowered = lowercase(name);
    Some(assign_variable(name, lowered, value, context))
}

/// The bounce that `line` is.
pub fn parse_section_bounce(line: &[char]) -> (r: Option<DialogueStep>)
    ensures
        match r {
            Some(step) => section_bounce(line@) == Some(step@),
            None => section_bounce(line@) is None,
        },
{
    match without_prefix(line, BOUNCE) {
        Some(target) => Some(DialogueStep::SectionBounce(from_chars(trimmed(target)))),
        None => None,
    }
}

/// The step that a jump to `target` makes, `lowered` being `target` in
/// lower case.
pub fn jump_step(target: &[char], lowered: &str) -> (r: DialogueStep)
    ensures
        r@ == jump_to(target@, lowered@),
{
    let word = to_chars(lowered);
    if is_word(word.as_slice(), END) {
        DialogueStep::EndJump
    } else if is_word(word.as_slice(), TERMINATE) {
        DialogueStep::TerminateJump
    } else {
        DialogueStep::SectionJump(from_chars(target))
    }
}

/// The jump that `line` is.
pub fn parse_section_jump(line: &[char]) -> (r: Option<DialogueStep>)
    ensures
        match r {
            Some(step) => section_jump(line@) == Some(step@),
            None => section_jump(line@) is None,
        },
{
    match without_prefix(line, JUMP) {
        Some(rest) => {
            let target = trimmed(rest);
            let lowered = lowercase(target);
            Some(jump_step(target, lowered.as_str()))
        },
        None => None,
    }
}

/// Whether `line` ends a block of lines that belong together.
pub fn starts_construct(line: &[char]) -> (r: bool)
    ensures
        r == begins_construct(line@),
{
    if line.len() == 0 {
        return true;
    }
    starts_with(line, BASIC) || starts_with(line, ACTOR) || starts_with(line, SECTION)
        || starts_with(line, FUNCTION) || starts_with(line, VARIABLE) || starts_with(line, BOUNCE)
        || starts_with(line, JUMP)
}

/// Whether `line` starts a new step rather than continuing a page or the
/// properties of an actor: it is empty or begins with the mark of a comment
/// or log line, an actor, a section, a function, a variable or a
/// navigation.
pub fn is_new_step(line: &str) -> (r: bool)
    ensures
        r == begins_construct(line@),
{
    let chars = to_chars(line);
    starts_construct(chars.as_slice())
}

/// A cursor over the trimmed lines of a script: the next line can be looked
/// at before it is taken.
pub struct Lines<'a> {
    rows: &'a Vec<Vec<char>>,
    cursor: usize,
}

impl<'a> Lines<'a> {
    /// All the lines, taken or not.
    pub closed spec fn all(&self) -> Seq<Seq<char>> {
        rows_view(self.rows@)
    }

    /// How many lines were taken.
    pub closed spec fn taken(&self) -> int {
        self.cursor as int
    }

    /// No more lines are taken than there are.
    #[verifier::type_invariant]
    pub closed spec fn wf(&self) -> bool {
        self.cursor <= self.rows@.len()
    }

    /// A cursor before the first of `rows`.
    pub fn new(rows: &'a Vec<Vec<char>>) -> (lines: Self)
        ensures
            lines.all() == rows_view(rows@),
            lines.taken() == 0,
    {
        Lines { rows, cursor: 0 }
    }

    /// The next line, which stays in place.
    pub fn peek(&self) -> (r: Option<&'a [char]>)
        ensures
            0 <= self.taken() <= self.all().len(),
            match r {
                Some(line) => self.taken() < self.all().len() && line@ == self.all()[self.taken()],
                None => self.taken() == self.all().len(),
            },
    {
        proof {
            use_type_invariant(self);
        }
        if self.cursor < self.rows.len() {
            Some(self.rows[self.cursor].as_slice())
        } else {
            None
        }
    }

    /// Takes the next line.
    pub fn next(&mut self) -> (r: Option<&'a [char]>)
        ensures
            final(self).all() == old(self).all(),
            0 <= old(self).taken() <= old(self).all().len(),
            match r {
                Some(line) => old(self).taken() < old(self).all().len() && line@ == old(
                    self,
                ).all()[old(self).taken()] && final(self).taken() == old(self).taken() + 1,
                None => old(self).taken() == old(self).all().len() && final(self).taken() == old(
                    self,
                ).taken(),
            },
    {
        proof {
            use_type_invariant(&*self);
        }
        if self.cursor < self.rows.len() {
            let line = self.rows[self.cursor].as_slice();
            self.cursor = self.cursor + 1;
            Some(line)
        } else {
            None
        }
    }
}

/// The actor that `line` starts to define, under its identifier in lower
/// case. The lines that follow are taken as its properties up to the first
/// that is empty, begins a construct or holds no `:`; that line and
/// what follows it stay in place.
pub fn parse_actor_definition(line: &[char], lines: &mut Lines) -> (r: Option<
    (String, DialogueActor),
>)
    ensures
        final(lines).all() == old(lines).all(),
        match r {
            Some((id, actor)) => {
                &&& actor_header(line@) is Some
                &&& id@ == lowercase_of(actor_header(line@)->0)
                &&& final(lines).taken() == old(lines).taken() + property_count(
                    old(lines).all(),
                    old(lines).taken(),
                )
                &&& actor@ == actor_of(
                    actor_header(line@)->0,
                    old(lines).all().subrange(old(lines).taken(), final(lines).taken()),
                )
            },
            None => actor_header(line@) is None && final(lines).taken() == old(lines).taken(),
        },
{
    let rest = match without_prefix(line, ACTOR) {
        Some(rest) => rest,
        None => {
            return None;
        },
    };
    if cut_once(rest, SEPARATOR).is_some() {
        return None;
    }
    let actor_name = trimmed(rest);
    let mut properties: Table<DialogueValue> = Table::new();
    let ghost all = lines.all();
    let ghost start = lines.taken();
    proof {
        use_type_invariant(&*lines);
        assert(all.subrange(start, start) =~= Seq::<Seq<char>>::empty());
    }
    loop
        invariant
            lines.all() == all,
            0 <= start <= lines.taken() <= all.len(),
            property_count(all, start) == (lines.taken() - start) + property_count(
                all,
                lines.taken(),
            ),
            properties@ == properties_of(all.subrange(start, lines.taken())),
        ensures
            property_count(all, start) == lines.taken() - start,
        decreases all.len() - lines.taken(),
    {
        let next_line = match lines.peek() {
            Some(next_line) => next_line,
            None => {
                break ;
            },
        };
        if starts_construct(next_line) {
            break ;
        }
        let (name, value) = match cut_once(next_line, SEPARATOR) {
            Some(parts) => parts,
            None => {
                break ;
            },
        };
        let ghost at = lines.taken();
        lines.next();
        proof {
            assert(all.subrange(start, at + 1).drop_last() =~= all.subrange(start, at));
            assert(all.subrange(start, at + 1).last() == all[at]);
        }
        properties.insert(lowercase(trimmed(name)), infer_value(trimmed(value)));
    }
    let display_name = match properties.get("name") {
        Some(value) => match value {
            DialogueValue::Text(name) => name.clone(),
            _ => from_chars(actor_name),
        },
        None => from_chars(actor_name),
    };
    Some((lowercase(actor_name), DialogueActor { name: display_name, properties }))
}

/// The arguments that `inner`, the text between the brackets of a
/// signature, declares.
fn parse_arguments(inner: &[char]) -> (r: Table<DialogueValue>)
    ensures
        r@ == arguments_of(split(inner@, ITEM)),
{
    let parts = pieces(inner, ITEM);
    let mut arguments: Table<DialogueValue> = Table::new();
    let mut k: usize = 0;
    proof {
        assert(slices_view(parts@).take(0) =~= Seq::<Seq<char>>::empty());
    }
    while k < parts.len()
        invariant
            k <= parts@.len(),
            arguments@ == arguments_of(slices_view(parts@).take(k as int)),
        decreases parts@.len() - k,
    {
        proof {
            let all = slices_view(parts@);
            assert(all.take(k + 1).drop_last() =~= all.take(k as int));
            assert(all.take(k + 1).last() == parts@[k as int]@);
        }
        match cut_once(parts[k], ASSIGNMENT) {
            Some((name, value)) => {
                arguments.insert(from_chars(trimmed(name)), infer_value(trimmed(value)));
            },
            None => {
                arguments.insert(
                    from_chars(trimmed(parts[k])),
                    DialogueValue::Text(String::new()),
                );
            },
        }
        k += 1;
    }
    proof {
        assert(slices_view(parts@).take(k as int) =~= slices_view(parts@));
    }
    arguments
}

/// The function that `line` declares, under its name in lower case.
pub fn parse_function_definition(line: &[char]) -> (r: Option<(String, DialogueFunction)>)
    ensures
        match r {
            Some((name, function)) => function_definition(line@) == Some((name@, function@)),
            None => function_definition(line@) is None,
        },
{
    let definition = match without_prefix(line, FUNCTION) {
        Some(definition) => definition,
        None => {
            return None;
        },
    };
    let mut function_text = definition;
    let mut args: Option<Table<DialogueValue>> = None;
    let mut result: Option<DialogueValue> = None;
    if let Some((function_signature, return_value)) = cut_once(function_text, SEPARATOR) {
        result = Some(infer_value(trimmed(return_value)));
        function_text = function_signature;
    }
    if let Some((function_name, arg_definitions)) = cut_once(function_text, ARGUMENTS_START) {
        let arg_definitions = trimmed(without_trailing(arg_definitions, ARGUMENTS_END));
        if arg_definitions.len() > 0 {
            args = Some(parse_arguments(arg_definitions));
        }
        function_text = function_name;
    }
    let function_name = lowercase(trimmed(function_text));
    Some((function_name, DialogueFunction { args, result }))
}

/// The line spoken by the actor `speaker_id`, an identifier in lower case.
/// Where the document of `context` holds no such actor, a warning is added;
/// the line stands either way.
pub fn speaker_line(speaker_id: String, text: String, context: &mut ParseContext) -> (r:
    DialogueLine)
    ensures
        r@ == (LineView::SpeakerText { speaker: speaker_id@, text: text@ }),
        warned(
            *old(context),
            *final(context),
            reference_warnings(
                speaker_id@,
                old(context).dialogue@.actors,
                old(context).current_line as nat,
            ),
        ),
        *final(final(context).warnings) == *final(old(context).warnings),
{
    if !context.dialogue.actors.contains_key(speaker_id.as_str()) {
        let ghost before = context.warnings@;
        context.warnings.push(actor_warning_text(context.current_line, speaker_id.as_str()));
        proof {
            assert(views(context.warnings@) =~= views(before) + seq![
                actor_warning(context.current_line as nat, speaker_id@),
            ]);
        }
    } else {
        proof {
            assert(views(context.warnings@) + Seq::<Seq<char>>::empty() =~= views(
                context.warnings@,
            ));
        }
    }
    DialogueLine::SpeakerText { speaker: speaker_id, text }
}

/// The line of a page that `line` is. A line spoken by an actor that the
/// document of `context` does not hold keeps its speaker and adds a
/// warning.
pub fn parse_text_line(line: &[char], context: &mut ParseContext) -> (r: DialogueLine)
    ensures
        r@ == text_line(line@),
        warned(
            *old(context),
            *final(context),
            line_warnings(line@, old(context).dialogue@.actors, old(context).current_line as nat),
        ),
        *final(final(context).warnings) == *final(old(context).warnings),
{
    proof {
        assert(views(context.warnings@) + Seq::<Seq<char>>::empty() =~= views(context.warnings@));
    }
    if let Some(response_text) = without_prefix(line, RESPONSE) {
        let text = from_chars(trimmed(response_text));
        let pages: Vec<DialogueStep> = Vec::new();
        proof {
            lemma_response_view(text, pages);
            assert(views(pages@) =~= Seq::<StepView>::empty());
        }
        return DialogueLine::Response { text, pages };
    }
    if let Some((speaker, text)) = cut_once(line, SEPARATOR) {
        let speaker = trimmed(speaker);
        let text = trimmed(text);
        if text.len() > 0 {
            if let Some(speaker_id) = without_prefix(speaker, ACTOR) {
                let speaker_id = lowercase(trimmed(speaker_id));
                return speaker_line(speaker_id, from_chars(text), context);
            }
            return DialogueLine::SpeakerText {
                speaker: from_chars(speaker),
                text: from_chars(text),
            };
        }
    }
    DialogueLine::Text(from_chars(line))
}

/// The page that begins with `line`. The lines that follow are taken into
/// the page up to the first that is empty or begins a construct; that
/// line and what follows it stay in place.
pub fn parse_page(line: &[char], lines: &mut Lines, context: &mut ParseContext) -> (r: Option<
    DialogueStep,
>)
    ensures
        final(lines).all() == old(lines).all(),
        final(lines).taken() == old(lines).taken() + page_count(
            old(lines).all(),
            old(lines).taken(),
        ),
        r is Some,
        r->0@ == StepView::Page(
            page_lines(
                seq![line@] + old(lines).all().subrange(old(lines).taken(), final(lines).taken()),
            ),
        ),
        warned(
            *old(context),
            *final(context),
            page_warnings(
                seq![line@] + old(lines).all().subrange(old(lines).taken(), final(lines).taken()),
                old(context).dialogue@.actors,
                old(context).current_line as nat,
            ),
        ),
        *final(final(context).warnings) == *final(old(context).warnings),
{
    let ghost all = lines.all();
    let ghost start = lines.taken();
    let ghost actors = context.dialogue@.actors;
    let ghost number = context.current_line as nat;
    let ghost warnings_before = views(context.warnings@);
    let mut page_lines: Vec<DialogueLine> = Vec::new();
    let first = parse_text_line(line, context);
    page_lines.push(first);
    proof {
        use_type_invariant(&*lines);
        let rows = seq![line@] + all.subrange(start, start);
        assert(rows =~= seq![line@]);
        assert(rows.drop_last() =~= Seq::<Seq<char>>::empty());
        assert(rows.last() == line@);
        assert(page_warnings(rows.drop_last(), actors, number) =~= Seq::<Seq<char>>::empty());
        assert(page_warnings(rows, actors, number) =~= line_warnings(line@, actors, number));
        assert(views(page_lines@) =~= crate::parser::grammar::page_lines(rows));
    }
    loop
        invariant
            lines.all() == all,
            0 <= start <= lines.taken() <= all.len(),
            page_count(all, start) == (lines.taken() - start) + page_count(all, lines.taken()),
            views(page_lines@) == crate::parser::grammar::page_lines(
                seq![line@] + all.subrange(start, lines.taken()),
            ),
            context.dialogue == old(context).dialogue,
            context.dialogue@.actors == actors,
            context.current_line as nat == number,
            views(context.warnings@) == warnings_before + page_warnings(
                seq![line@] + all.subrange(start, lines.taken()),
                actors,
                number,
            ),
            *final(context.warnings) == *final(old(context).warnings),
        ensures
            page_count(all, start) == lines.taken() - start,
        decreases all.len() - lines.taken(),
    {
        let next_line = match lines.peek() {
            Some(next_line) => next_line,
            None => {
                break ;
            },
        };
        if starts_construct(next_line) {
            break ;
        }
        let ghost at = lines.taken();
        let ghost lines_before = views(page_lines@);
        let ghost warned_before = views(context.warnings@);
        lines.next();
        let parsed_line = parse_text_line(next_line, context);
        page_lines.push(parsed_line);
        proof {
            let rows = seq![line@] + all.subrange(start, at + 1);
            let shorter = seq![line@] + all.subrange(start, at);
            assert(rows.drop_last() =~= shorter);
            assert(rows.last() == all[at]);
            assert(rows =~= shorter.push(all[at]));
            assert(views(page_lines@) =~= lines_before.push(parsed_line@));
            assert(crate::parser::grammar::page_lines(rows) =~= crate::parser::grammar::page_lines(
                shorter,
            ).push(text_line(all[at])));
            assert(views(context.warnings@) =~= warnings_before + page_warnings(
                rows,
                actors,
                number,
            ));
        }
    }
    proof {
        lemma_page_view(page_lines);
    }
    Some(DialogueStep::Page(page_lines))
}

/// Puts `step` at the end of `section`.
fn push_step(section: &mut DialogueSection, step: DialogueStep)
    ensures
        final(section)@ == (SectionView {
            name: old(section)@.name,
            steps: old(section)@.steps.push(step@),
        }),
{
    let ghost before = section.steps@;
    section.steps.push(step);
    proof {
        assert(views(section.steps@) =~= views(before).push(step@));
    }
}

/// Puts `section` at the end of the sections of `dialogue`.
fn push_section(dialogue: &mut Dialogue, section: DialogueSection)
    ensures
        final(dialogue)@ == (DialogueView {
            sections: old(dialogue)@.sections.push(section@),
            ..old(dialogue)@
        }),
{
    let ghost before = dialogue.sections@;
    dialogue.sections.push(section);
    proof {
        assert(views(dialogue.sections@) =~= views(before).push(section@));
    }
}

/// The state of the parser that the values of `parse` stand for.
pub open spec fn state_of(
    dialogue: Dialogue,
    section: DialogueSection,
    warnings: Vec<String>,
    line_number: usize,
) -> ParseState {
    ParseState {
        dialogue: dialogue@,
        section: section@,
        warnings: views(warnings@),
        line_number: line_number as nat,
    }
}

/// Parses the script `from` into a document. Every text is a script: a
/// line that is nothing else is a line of text in a page. Lines are read
/// trimmed, one construct after the other, each by the first of the trials
/// that succeeds: section, actor, log line, comment, function, variable
/// definition, variable assignment, bounce, jump, page. The section in
/// progress at the end joins the document even where it is empty.
pub fn parse(from: String) -> (r: ParseResult)
    ensures
        r.dialogue@ == parsed(from@).dialogue,
        views(r.warnings@) == parsed(from@).warnings,
{
    let chars = to_chars(from.as_str());
    let rows = split_trimmed_lines(chars.as_slice());
    let mut dialogue = Dialogue::default();
    let mut warnings: Vec<String> = Vec::new();
    let mut current_section = DialogueSection {
        name: String::from_str(META_SECTION_NAME),
        steps: Vec::new(),
    };
    let mut lines = Lines::new(&rows);
    let mut line_number: usize = 0;
    let ghost all = lines.all();
    proof {
        assert(views(current_section.steps@) =~= Seq::<StepView>::empty());
        assert(views(warnings@) =~= Seq::<Seq<char>>::empty());
        assert(state_of(dialogue, current_section, warnings, line_number) == initial_state());
    }
    loop
        invariant
            lines.all() == all,
            0 <= line_number <= lines.taken() <= all.len(),
            parse_from(
                all,
                lines.taken(),
                state_of(dialogue, current_section, warnings, line_number),
            ) == parse_from(all, 0, initial_state()),
        ensures
            lines.taken() == all.len(),
        decreases all.len() - lines.taken(),
    {
        let ghost at = lines.taken();
        let ghost before = state_of(dialogue, current_section, warnings, line_number);
        let line = match lines.next() {
            Some(line) => line,
            None => {
                break ;
            },
        };
        line_number += 1;
        let ghost here = counted(before);
        proof {
            lemma_extent_bound(all, at);
            assert(parse_from(all, at, before) == parse_from(
                all,
                at + 1 + extent(all, at),
                apply(all, at, here),
            ));
        }
        if line.len() == 0 {
            continue ;
        }
        if let Some(new_section) = parse_section(line) {
            if current_section.steps.len() > 0 {
                push_section(&mut dialogue, current_section);
            }
            current_section = new_section;
            proof {
                assert(new_section@.steps =~= Seq::<StepView>::empty());
            }
            continue ;
        }
        if let Some((actor_id, actor)) = parse_actor_definition(line, &mut lines) {
            dialogue.actors.insert(actor_id, actor);
            continue ;
        }
        if let Some(log_step) = parse_log_step(line) {
            push_step(&mut current_section, log_step);
            continue ;
        }
        if let Some(comment_step) = parse_comment_step(line) {
            push_step(&mut current_section, comment_step);
            continue ;
        }
        if let Some((function_id, function)) = parse_function_definition(line) {
            dialogue.functions.insert(function_id, function);
            continue ;
        }
        if let Some((variable_name, variable_value)) = parse_variable_definition(line) {
            dialogue.variables.insert(variable_name, variable_value);
            continue ;
        }
        let mut context = ParseContext {
            dialogue: &dialogue,
            current_line: line_number,
            warnings: &mut warnings,
        };
        if let Some(variable_assign_step) = parse_variable_assignment(line, &mut context) {
            push_step(&mut current_section, variable_assign_step);
            continue ;
        }
        if let Some(section_bounce_step) = parse_section_bounce(line) {
            push_step(&mut current_section, section_bounce_step);
            continue ;
        }
        if let Some(section_jump_step) = parse_section_jump(line) {
            push_step(&mut current_section, section_jump_step);
            continue ;
        }
        if let Some(new_page) = parse_page(line, &mut lines, &mut context) {
            proof {
                let count = page_count(all, at + 1);
                assert(seq![line@] + all.subrange(at + 1, at + 1 + count) =~= all.subrange(
                    at,
                    at + 1 + count,
                ));
            }
            push_step(&mut current_section, new_page);
            continue ;
        }
    }
    push_section(&mut dialogue, current_section);
    ParseResult { dialogue, warnings }
}

/// Parses `input` and hands out the document, where parsing gave no
/// warning; `None` where it gave one.
pub fn parse_test_helper(input: &str) -> (r: Option<Dialogue>)
    ensures
        match r {
            Some(dialogue) => parsed(input@).warnings.len() == 0 && dialogue@ == parsed(
                input@,
            ).dialogue,
            None => parsed(input@).warnings.len() > 0,
        },
{
    let result = parse(String::from_str(input));
    if result.warnings.len() > 0 {
        None
    } else {
        Some(result.dialogue)
    }
}

} // verus!
