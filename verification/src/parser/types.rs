//! The parsed document and the mathematical values that its contracts speak
//! of.

use crate::table::Table;
use vstd::prelude::*;

verus! {

/// What a `DialogueValue` stands for.
pub enum ValueView {
    Text(Seq<char>),
    /// The numeral as it was written.
    Number(Seq<char>),
    Boolean(bool),
    Array(Seq<Seq<char>>),
}

/// What a `DialogueFunction` stands for.
pub struct FunctionView {
    pub args: Option<Map<Seq<char>, ValueView>>,
    pub result: Option<ValueView>,
}

/// What a `DialogueActor` stands for.
pub struct ActorView {
    pub name: Seq<char>,
    pub properties: Map<Seq<char>, ValueView>,
}

/// What a `DialogueLine` stands for.
pub enum LineView {
    Text(Seq<char>),
    SpeakerText { speaker: Seq<char>, text: Seq<char> },
    Response { text: Seq<char>, pages: Seq<StepView> },
}

/// What a `DialogueStep` stands for.
pub enum StepView {
    Comment(Seq<char>),
    LogInfo(Seq<char>),
    LogWarning(Seq<char>),
    LogError(Seq<char>),
    Page(Seq<LineView>),
    VariableAssign { name: Seq<char>, value: ValueView },
    SectionBounce(Seq<char>),
    SectionJump(Seq<char>),
    EndJump,
    TerminateJump,
}

/// What a `DialogueSection` stands for.
pub struct SectionView {
    pub name: Seq<char>,
    pub steps: Seq<StepView>,
}

/// What a `Dialogue` stands for.
pub struct DialogueView {
    pub actors: Map<Seq<char>, ActorView>,
    pub variables: Map<Seq<char>, ValueView>,
    pub functions: Map<Seq<char>, FunctionView>,
    pub sections: Seq<SectionView>,
}

/// The views of `items`, in order.
pub open spec fn views<T: View>(items: Seq<T>) -> Seq<T::V> {
    Seq::new(items.len(), |i: int| items[i]@)
}

/// A value of the language: text, a number, a truth value or a list of
/// strings.
#[derive(Debug, PartialEq)]
pub enum DialogueValue {
    Text(String),
    /// A number, held as the numeral that was written.
    Number(String),
    Boolean(bool),
    Array(Vec<String>),
}

impl View for DialogueValue {
    type V = ValueView;

    open spec fn view(&self) -> ValueView {
        match self {
            DialogueValue::Text(t) => ValueView::Text(t@),
            DialogueValue::Number(n) => ValueView::Number(n@),
            DialogueValue::Boolean(b) => ValueView::Boolean(*b),
            DialogueValue::Array(items) => ValueView::Array(views(items@)),
        }
    }
}

impl Clone for DialogueValue {
    fn clone(&self) -> (r: Self)
        ensures
            r@ == self@,
    {
        match self {
            DialogueValue::Text(t) => DialogueValue::Text(t.clone()),
            DialogueValue::Number(n) => DialogueValue::Number(n.clone()),
            DialogueValue::Boolean(b) => DialogueValue::Boolean(*b),
            DialogueValue::Array(items) => {
                let mut copy: Vec<String> = Vec::new();
                let mut i: usize = 0;
                while i < items.len()
                    invariant
                        i <= items@.len(),
                        views(copy@) == views(items@).take(i as int),
                    decreases items@.len() - i,
                {
                    let ghost before = copy@;
                    copy.push(items[i].clone());
                    proof {
                        assert(views(copy@) =~= views(before).push(items@[i as int]@));
                        assert(views(items@).take(i + 1) =~= views(items@).take(i as int).push(
                            items@[i as int]@,
                        ));
                    }
                    i += 1;
                }
                proof {
                    assert(views(items@).take(i as int) =~= views(items@));
                }
                DialogueValue::Array(copy)
            },
        }
    }
}

/// The declaration of a function: the defaults of its arguments, where it
/// names any, and of its result, where it gives one.
#[derive(Debug, Clone, PartialEq)]
pub struct DialogueFunction {
    pub args: Option<Table<DialogueValue>>,
    pub result: Option<DialogueValue>,
}

impl View for DialogueFunction {
    type V = FunctionView;

    open spec fn view(&self) -> FunctionView {
        FunctionView {
            args: match self.args {
                Some(table) => Some(table@),
                None => None,
            },
            result: match self.result {
                Some(value) => Some(value@),
                None => None,
            },
        }
    }
}

/// A speaker: the name under which it is shown, and its properties.
#[derive(Debug, Clone, PartialEq)]
pub struct DialogueActor {
    pub name: String,
    pub properties: Table<DialogueValue>,
}

impl View for DialogueActor {
    type V = ActorView;

    open spec fn view(&self) -> ActorView {
        ActorView { name: self.name@, properties: self.properties@ }
    }
}

/// One line of a page.
#[derive(Debug, PartialEq)]
pub enum DialogueLine {
    Text(String),
    SpeakerText { speaker: String, text: String },
    Response { text: String, pages: Vec<DialogueStep> },
}

/// One element of a section.
#[derive(Debug, PartialEq)]
pub enum DialogueStep {
    Comment(String),
    LogInfo(String),
    LogWarning(String),
    LogError(String),
    Page(Vec<DialogueLine>),
    VariableAssign { name: String, value: DialogueValue },
    SectionBounce(String),
    SectionJump(String),
    EndJump,
    TerminateJump,
}

impl View for DialogueLine {
    type V = LineView;

    open spec fn view(&self) -> LineView
        decreases self,
    {
        match self {
            DialogueLine::Text(t) => LineView::Text(t@),
            DialogueLine::SpeakerText { speaker, text } => LineView::SpeakerText {
                speaker: speaker@,
                text: text@,
            },
            DialogueLine::Response { text, pages } => LineView::Response {
                text: text@,
                pages: Seq::new(
                    pages@.len(),
                    |i: int|
                        if 0 <= i < pages@.len() {
                            pages@[i].view()
                        } else {
                            StepView::EndJump
                        },
                ),
            },
        }
    }
}

impl View for DialogueStep {
    type V = StepView;

    open spec fn view(&self) -> StepView
        decreases self,
    {
        match self {
            DialogueStep::Comment(t) => StepView::Comment(t@),
            DialogueStep::LogInfo(t) => StepView::LogInfo(t@),
            DialogueStep::LogWarning(t) => StepView::LogWarning(t@),
            DialogueStep::LogError(t) => StepView::LogError(t@),
            DialogueStep::Page(lines) => StepView::Page(
                Seq::new(
                    lines@.len(),
                    |i: int|
                        if 0 <= i < lines@.len() {
                            lines@[i].view()
                        } else {
                            LineView::Text(Seq::empty())
                        },
                ),
            ),
            DialogueStep::VariableAssign { name, value } => StepView::VariableAssign {
                name: name@,
                value: value@,
            },
            DialogueStep::SectionBounce(t) => StepView::SectionBounce(t@),
            DialogueStep::SectionJump(t) => StepView::SectionJump(t@),
            DialogueStep::EndJump => StepView::EndJump,
            DialogueStep::TerminateJump => StepView::TerminateJump,
        }
    }
}

impl Clone for DialogueLine {
    #[verifier::loop_isolation(false)]
    fn clone(&self) -> (r: Self)
        ensures
            r@ == self@,
        decreases self,
    {
        match self {
            DialogueLine::Text(t) => DialogueLine::Text(t.clone()),
            DialogueLine::SpeakerText { speaker, text } => DialogueLine::SpeakerText {
                speaker: speaker.clone(),
                text: text.clone(),
            },
            DialogueLine::Response { text, pages } => {
                let mut copy: Vec<DialogueStep> = Vec::new();
                let mut i: usize = 0;
                while i < pages.len()
                    invariant
                        i <= pages@.len(),
                        views(copy@) == views(pages@).take(i as int),
                    decreases pages@.len() - i,
                {
                    let ghost before = copy@;
                    proof {
                        assert(decreases_to!(self => pages));
                        assert(decreases_to!(pages => pages@));
                        assert(decreases_to!(pages@ => pages@[i as int]));
                    }
                    copy.push(pages[i].clone());
                    proof {
                        assert(views(copy@) =~= views(before).push(pages@[i as int]@));
                        assert(views(pages@).take(i + 1) =~= views(pages@).take(i as int).push(
                            pages@[i as int]@,
                        ));
                    }
                    i += 1;
                }
                let text = text.clone();
                proof {
                    assert(views(pages@).take(i as int) =~= views(pages@));
                    lemma_response_view(text, copy);
                    lemma_response_view(text, *pages);
                }
                DialogueLine::Response { text, pages: copy }
            },
        }
    }
}

impl Clone for DialogueStep {
    #[verifier::loop_isolation(false)]
    fn clone(&self) -> (r: Self)
        ensures
            r@ == self@,
        decreases self,
    {
        match self {
            DialogueStep::Comment(t) => DialogueStep::Comment(t.clone()),
            DialogueStep::LogInfo(t) => DialogueStep::LogInfo(t.clone()),
            DialogueStep::LogWarning(t) => DialogueStep::LogWarning(t.clone()),
            DialogueStep::LogError(t) => DialogueStep::LogError(t.clone()),
            DialogueStep::Page(lines) => {
                let mut copy: Vec<DialogueLine> = Vec::new();
                let mut i: usize = 0;
                while i < lines.len()
                    invariant
                        i <= lines@.len(),
                        views(copy@) == views(lines@).take(i as int),
                    decreases lines@.len() - i,
                {
                    let ghost before = copy@;
                    proof {
                        assert(decreases_to!(self => lines));
                        assert(decreases_to!(lines => lines@));
                        assert(decreases_to!(lines@ => lines@[i as int]));
                    }
                    copy.push(lines[i].clone());
                    proof {
                        assert(views(copy@) =~= views(before).push(lines@[i as int]@));
                        assert(views(lines@).take(i + 1) =~= views(lines@).take(i as int).push(
                            lines@[i as int]@,
                        ));
                    }
                    i += 1;
                }
                proof {
                    assert(views(lines@).take(i as int) =~= views(lines@));
                    lemma_page_view(copy);
                    lemma_page_view(*lines);
                }
                DialogueStep::Page(copy)
            },
            DialogueStep::VariableAssign { name, value } => DialogueStep::VariableAssign {
                name: name.clone(),
                value: value.clone(),
            },
            DialogueStep::SectionBounce(t) => DialogueStep::SectionBounce(t.clone()),
            DialogueStep::SectionJump(t) => DialogueStep::SectionJump(t.clone()),
            DialogueStep::EndJump => DialogueStep::EndJump,
            DialogueStep::TerminateJump => DialogueStep::TerminateJump,
        }
    }
}

/// The view of a page holds the views of its lines.
pub proof fn lemma_page_view(lines: Vec<DialogueLine>)
    ensures
        DialogueStep::Page(lines)@ == StepView::Page(views(lines@)),
{
    assert(DialogueStep::Page(lines)@->Page_0 =~= views(lines@));
}

/// The view of a response holds the views of its pages.
pub proof fn lemma_response_view(text: String, pages: Vec<DialogueStep>)
    ensures
        (DialogueLine::Response { text, pages })@ == (LineView::Response {
            text: text@,
            pages: views(pages@),
        }),
{
    assert((DialogueLine::Response { text, pages })@->Response_pages =~= views(pages@));
}

/// A named run of steps.
#[derive(Debug, Clone, PartialEq)]
pub struct DialogueSection {
    pub name: String,
    pub steps: Vec<DialogueStep>,
}

impl View for DialogueSection {
    type V = SectionView;

    open spec fn view(&self) -> SectionView {
        SectionView { name: self.name@, steps: views(self.steps@) }
    }
}

impl Default for DialogueSection {
    fn default() -> (r: Self)
        ensures
            r@ == (SectionView { name: Seq::empty(), steps: Seq::empty() }),
    {
        let r = DialogueSection { name: String::new(), steps: Vec::new() };
        proof {
            assert(views(r.steps@) =~= Seq::<StepView>::empty());
        }
        r
    }
}

/// A parsed script.
#[derive(Debug, Clone, PartialEq)]
pub struct Dialogue {
    pub actors: Table<DialogueActor>,
    pub variables: Table<DialogueValue>,
    pub functions: Table<DialogueFunction>,
    pub sections: Vec<DialogueSection>,
}

impl View for Dialogue {
    type V = DialogueView;

    open spec fn view(&self) -> DialogueView {
        DialogueView {
            actors: self.actors@,
            variables: self.variables@,
            functions: self.functions@,
            sections: views(self.sections@),
        }
    }
}

/// A document with no actor, variable, function or section.
pub open spec fn empty_dialogue() -> DialogueView {
    DialogueView {
        actors: Map::empty(),
        variables: Map::empty(),
        functions: Map::empty(),
        sections: Seq::empty(),
    }
}

impl Default for Dialogue {
    fn default() -> (r: Self)
        ensures
            r@ == empty_dialogue(),
    {
        let r = Dialogue {
            actors: Table::new(),
            variables: Table::new(),
            functions: Table::new(),
            sections: Vec::new(),
        };
        proof {
            assert(views(r.sections@) =~= Seq::<SectionView>::empty());
        }
        r
    }
}

} // verus!
