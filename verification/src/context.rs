//! The context of an instantiation: what each variable is bound to when
//! paths and contents are rendered.

use vstd::prelude::*;
use vstd::string::*;
use crate::manifest::{Choice, DefaultValue, Inputs, Question, TemplateManifest};
use crate::text::{is_among, same_text, split_words, texts, words};

verus! {

/// Declares the engine's context type, which holds the bindings.
#[verifier::external_type_specification]
#[verifier::external_body]
pub struct ExContext(tera::Context);

/// What a variable is bound to.
pub enum Bound {
    /// A text.
    Text(Seq<char>),
    /// A flag.
    Flag(bool),
    /// A list of texts.
    List(Seq<Seq<char>>),
}

/// The bindings that an engine context holds.
pub uninterp spec fn bindings(context: tera::Context) -> Map<Seq<char>, Bound>;

/// No variable is bound.
pub open spec fn unbound() -> Map<Seq<char>, Bound> {
    Map::empty()
}

/// `tera::Context::new`: a context that binds nothing.
#[verifier::external_body]
fn empty_bindings() -> (fresh: tera::Context)
    ensures
        bindings(fresh) == unbound(),
{
    tera::Context::new()
}

/// `tera::Context::insert` with a string: the key is bound to that text,
/// in place of what it was bound to before; no other key changes.
#[verifier::external_body]
fn bind_text(context: &mut tera::Context, key: &str, value: &str)
    ensures
        bindings(*final(context)) == bindings(*old(context)).insert(key@, Bound::Text(value@)),
{
    context.insert(key, value);
}

/// `tera::Context::insert` with a `bool`: the key is bound to that flag,
/// in place of what it was bound to before; no other key changes.
#[verifier::external_body]
fn bind_flag(context: &mut tera::Context, key: &str, value: bool)
    ensures
        bindings(*final(context)) == bindings(*old(context)).insert(key@, Bound::Flag(value)),
{
    context.insert(key, &value);
}

/// `tera::Context::insert` with a vector of strings: the key is bound to
/// the list of those texts, in place of what it was bound to before; no
/// other key changes.
#[verifier::external_body]
fn bind_list(context: &mut tera::Context, key: &str, value: &Vec<String>)
    ensures
        bindings(*final(context)) == bindings(*old(context)).insert(
            key@,
            Bound::List(texts(value@)),
        ),
{
    context.insert(key, value);
}

/// An answer to a question.
#[derive(Clone, Debug, PartialEq, Eq)]
pub enum Answer {
    /// The text typed in, or the option picked.
    Text(String),
    /// Yes or no.
    Flag(bool),
    /// The ids of the choices picked.
    Chosen(Vec<String>),
}

/// An answer as plain text.
pub enum AnswerView {
    Text(Seq<char>),
    Flag(bool),
    Chosen(Seq<Seq<char>>),
}

impl View for Answer {
    type V = AnswerView;

    open spec fn view(&self) -> AnswerView {
        match *self {
            Answer::Text(text) => AnswerView::Text(text@),
            Answer::Flag(flag) => AnswerView::Flag(flag),
            Answer::Chosen(ids) => AnswerView::Chosen(texts(ids@)),
        }
    }
}

/// The ids of the choices that are picked unless the user says otherwise,
/// in the order of the choices.
pub open spec fn default_ids(choices: Seq<Choice>) -> Seq<Seq<char>>
    decreases choices.len(),
{
    if choices.len() == 0 {
        Seq::empty()
    } else if choices.last().default {
        default_ids(choices.drop_last()).push(choices.last().id@)
    } else {
        default_ids(choices.drop_last())
    }
}

/// The answer that stands where the user gives none: for a multi-select
/// question the choices picked by default, for any other question its
/// default, if it has one.
pub open spec fn default_of(question: Question) -> Option<AnswerView> {
    match question.inputs {
        Inputs::MultiSelect { choices } => Some(AnswerView::Chosen(default_ids(choices@))),
        _ => match question.default {
            Some(DefaultValue::Text(text)) => Some(AnswerView::Text(text@)),
            Some(DefaultValue::Flag(flag)) => Some(AnswerView::Flag(flag)),
            None => None,
        },
    }
}

/// An answer, if there is one, as plain text.
pub open spec fn optional_view(answer: Option<Answer>) -> Option<AnswerView> {
    match answer {
        Some(answer) => Some(answer@),
        None => None,
    }
}

/// Gives the answer that stands where the user gives none.
pub fn default_answer(question: &Question) -> (answer: Option<Answer>)
    ensures
        optional_view(answer) == default_of(*question),
{
    match &question.inputs {
        Inputs::MultiSelect { choices } => {
            let mut ids: Vec<String> = Vec::new();
            let mut next: usize = 0;
            assert(choices@.take(0) =~= Seq::<Choice>::empty());
            assert(texts(ids@) =~= Seq::<Seq<char>>::empty());
            while next < choices.len()
                invariant
                    next <= choices@.len(),
                    texts(ids@) == default_ids(choices@.take(next as int)),
                decreases choices@.len() - next,
            {
                proof {
                    let taken = choices@.take(next + 1);
                    assert(taken.drop_last() =~= choices@.take(next as int));
                    assert(taken.last() == choices@[next as int]);
                }
                if choices[next].default {
                    let ghost before = texts(ids@);
                    ids.push(choices[next].id.clone());
                    assert(texts(ids@) =~= before.push(choices@[next as int].id@));
                }
                next += 1;
            }
            assert(choices@.take(next as int) =~= choices@);
            Some(Answer::Chosen(ids))
        },
        _ => match &question.default {
            Some(DefaultValue::Text(text)) => Some(Answer::Text(text.clone())),
            Some(DefaultValue::Flag(flag)) => Some(Answer::Flag(*flag)),
            None => None,
        },
    }
}

/// The ids of the choices, in their order.
pub open spec fn choice_ids(choices: Seq<Choice>) -> Seq<Seq<char>> {
    choices.map_values(|choice: Choice| choice.id@)
}

/// Every one of the ids is the id of a choice.
pub open spec fn all_offered(choices: Seq<Choice>, ids: Seq<Seq<char>>) -> bool {
    forall|i: int| 0 <= i < ids.len() ==> choice_ids(choices).contains(#[trigger] ids[i])
}

/// The line says yes.
pub open spec fn says_yes(line: Seq<char>) -> bool {
    line == "y"@ || line == "yes"@ || line == "true"@
}

/// The line says no.
pub open spec fn says_no(line: Seq<char>) -> bool {
    line == "n"@ || line == "no"@ || line == "false"@
}

/// The answer that a line gives to a question, the line being what was
/// typed without the blanks around it. An empty line takes the default
/// where there is one. Otherwise a text question takes the line as it is;
/// a flag question takes yes or no; a select question takes the line if it
/// is one of the options; a multi-select question takes the words of the
/// line if each is the id of a choice. A line that gives no answer is to be
/// asked for again.
pub open spec fn answer_of(question: Question, line: Seq<char>) -> Option<AnswerView> {
    if line.len() == 0 && default_of(question) is Some {
        default_of(question)
    } else {
        match question.inputs {
            Inputs::Text => Some(AnswerView::Text(line)),
            Inputs::Flag => if says_yes(line) {
                Some(AnswerView::Flag(true))
            } else if says_no(line) {
                Some(AnswerView::Flag(false))
            } else {
                None
            },
            Inputs::Select { options } => if texts(options@).contains(line) {
                Some(AnswerView::Text(line))
            } else {
                None
            },
            Inputs::MultiSelect { choices } => if all_offered(choices@, words(line)) {
                Some(AnswerView::Chosen(words(line)))
            } else {
                None
            },
        }
    }
}

/// Tests whether a text is the id of a choice.
pub fn is_offered(choices: &Vec<Choice>, id: &str) -> (found: bool)
    ensures
        found == choice_ids(choices@).contains(id@),
{
    let mut next: usize = 0;
    while next < choices.len()
        invariant
            next <= choices@.len(),
            forall|i: int| 0 <= i < next ==> choices@[i].id@ != id@,
        decreases choices@.len() - next,
    {
        if same_text(choices[next].id.as_str(), id) {
            assert(choice_ids(choices@)[next as int] == id@);
            return true;
        }
        next += 1;
    }
    assert(!choice_ids(choices@).contains(id@)) by {
        if choice_ids(choices@).contains(id@) {
            let i = choice_ids(choices@).index_of(id@);
            assert(choices@[i].id@ == id@);
        }
    }
    false
}

/// Makes an answer to a question of the line that was typed, as
/// [`answer_of`] says; `None` where the line gives no answer.
pub fn read_answer(question: &Question, line: &str) -> (answer: Option<Answer>)
    ensures
        optional_view(answer) == answer_of(*question, line@),
{
    if line.unicode_len() == 0 {
        let default = default_answer(question);
        if default.is_some() {
            return default;
        }
    }
    match &question.inputs {
        Inputs::Text => Some(Answer::Text(line.to_owned())),
        Inputs::Flag => {
            if same_text(line, "y") || same_text(line, "yes") || same_text(line, "true") {
                Some(Answer::Flag(true))
            } else if same_text(line, "n") || same_text(line, "no") || same_text(line, "false") {
                Some(Answer::Flag(false))
            } else {
                None
            }
        },
        Inputs::Select { options } => {
            if is_among(options, line) {
                Some(Answer::Text(line.to_owned()))
            } else {
                None
            }
        },
        Inputs::MultiSelect { choices } => {
            let ids = split_words(line);
            let mut next: usize = 0;
            while next < ids.len()
                invariant
                    next <= ids@.len(),
                    texts(ids@) == words(line@),
                    answer_of(*question, line@) == (if all_offered(choices@, words(line@)) {
                        Some(AnswerView::Chosen(words(line@)))
                    } else {
                        None
                    }),
                    forall|i: int|
                        0 <= i < next ==> choice_ids(choices@).contains(
                            #[trigger] words(line@)[i],
                        ),
                decreases ids@.len() - next,
            {
                if !is_offered(choices, ids[next].as_str()) {
                    assert(words(line@)[next as int] == ids@[next as int]@);
                    return None;
                }
                assert(words(line@)[next as int] == ids@[next as int]@);
                next += 1;
            }
            Some(Answer::Chosen(ids))
        },
    }
}

/// The variables of one instantiation.
#[derive(Debug)]
pub struct RunContext {
    inner: tera::Context,
}

impl View for RunContext {
    type V = Map<Seq<char>, Bound>;

    closed spec fn view(&self) -> Map<Seq<char>, Bound> {
        bindings(self.inner)
    }
}

/// The bindings with one flag more for each choice, under the choice's id:
/// whether the choice was picked. A later choice wins over an earlier one
/// of the same id.
pub open spec fn with_flags(
    bound: Map<Seq<char>, Bound>,
    choices: Seq<Choice>,
    chosen: Seq<Seq<char>>,
) -> Map<Seq<char>, Bound>
    decreases choices.len(),
{
    if choices.len() == 0 {
        bound
    } else {
        with_flags(bound, choices.drop_last(), chosen).insert(
            choices.last().id@,
            Bound::Flag(chosen.contains(choices.last().id@)),
        )
    }
}

/// The bindings after an answer to a question: the answer under the
/// question's id, and for picked choices a flag for each choice that the
/// question offers.
pub open spec fn answered(bound: Map<Seq<char>, Bound>, question: Question, answer: Answer) -> Map<
    Seq<char>,
    Bound,
> {
    match answer {
        Answer::Text(text) => bound.insert(question.id@, Bound::Text(text@)),
        Answer::Flag(flag) => bound.insert(question.id@, Bound::Flag(flag)),
        Answer::Chosen(ids) => {
            let listed = bound.insert(question.id@, Bound::List(texts(ids@)));
            match question.inputs {
                Inputs::MultiSelect { choices } => with_flags(listed, choices@, texts(ids@)),
                _ => listed,
            }
        },
    }
}

/// The bindings after the first `count` questions have their answers.
pub open spec fn answered_all(
    questions: Seq<Question>,
    answers: Seq<Answer>,
    count: int,
) -> Map<Seq<char>, Bound>
    decreases count,
{
    if count <= 0 {
        unbound()
    } else {
        answered(
            answered_all(questions, answers, count - 1),
            questions[count - 1],
            answers[count - 1],
        )
    }
}

impl RunContext {
    /// A context that binds nothing.
    pub fn new() -> (context: RunContext)
        ensures
            context@ == unbound(),
    {
        RunContext { inner: empty_bindings() }
    }

    /// The engine's context, which holds the bindings, to be handed to the
    /// engine with the templates of the run.
    pub fn engine_context(&self) -> (inner: &tera::Context)
        ensures
            bindings(*inner) == self@,
    {
        &self.inner
    }

    /// Binds a variable to a text, in place of what it was bound to.
    pub fn insert_text(&mut self, key: &str, value: &str)
        ensures
            final(self)@ == old(self)@.insert(key@, Bound::Text(value@)),
    {
        bind_text(&mut self.inner, key, value);
    }

    /// Binds a variable to a flag, in place of what it was bound to.
    pub fn insert_flag(&mut self, key: &str, value: bool)
        ensures
            final(self)@ == old(self)@.insert(key@, Bound::Flag(value)),
    {
        bind_flag(&mut self.inner, key, value);
    }

    /// Binds a variable to a list of texts, in place of what it was bound to.
    pub fn insert_list(&mut self, key: &str, value: &Vec<String>)
        ensures
            final(self)@ == old(self)@.insert(key@, Bound::List(texts(value@))),
    {
        bind_list(&mut self.inner, key, value);
    }

    /// Binds the answer to a question under the question's id. Picked
    /// choices are bound as a list, and each choice that a multi-select
    /// question offers gets a flag under its own id: whether it was picked.
    pub fn bind(&mut self, question: &Question, answer: &Answer)
        ensures
            final(self)@ == answered(old(self)@, *question, *answer),
    {
        match answer {
            Answer::Text(text) => self.insert_text(question.id.as_str(), text.as_str()),
            Answer::Flag(flag) => self.insert_flag(question.id.as_str(), *flag),
            Answer::Chosen(ids) => {
                self.insert_list(question.id.as_str(), ids);
                if let Inputs::MultiSelect { choices } = &question.inputs {
                    let ghost listed = self@;
                    let mut next: usize = 0;
                    assert(choices@.take(0) =~= Seq::<Choice>::empty());
                    while next < choices.len()
                        invariant
                            next <= choices@.len(),
                            self@ == with_flags(listed, choices@.take(next as int), texts(ids@)),
                        decreases choices@.len() - next,
                    {
                        let picked = is_among(ids, choices[next].id.as_str());
                        self.insert_flag(choices[next].id.as_str(), picked);
                        proof {
                            let taken = choices@.take(next + 1);
                            assert(taken.drop_last() =~= choices@.take(next as int));
                            assert(taken.last() == choices@[next as int]);
                        }
                        next += 1;
                    }
                    assert(choices@.take(next as int) =~= choices@);
                }
            },
        }
    }

    /// Builds the context of a run from the answers to the manifest's
    /// questions, taken in manifest order. There has to be one answer for
    /// each question.
    pub fn from_answers(manifest: &TemplateManifest, answers: &Vec<Answer>) -> (built: Option<
        RunContext,
    >)
        ensures
            built is Some <==> answers@.len() == manifest.questions@.len(),
            built matches Some(context) ==> context@ == answered_all(
                manifest.questions@,
                answers@,
                answers@.len() as int,
            ),
    {
        if answers.len() != manifest.questions.len() {
            return None;
        }
        let mut context = RunContext::new();
        let mut next: usize = 0;
        while next < answers.len()
            invariant
                next <= answers@.len(),
                answers@.len() == manifest.questions@.len(),
                context@ == answered_all(manifest.questions@, answers@, next as int),
            decreases answers@.len() - next,
        {
            context.bind(&manifest.questions[next], &answers[next]);
            next += 1;
        }
        Some(context)
    }
}

} // verus!
