//! The question manifest of a template: what a document declares, the rules
//! a declaration has to meet, and the manifest that comes out of a valid one.

use vstd::prelude::*;
use vstd::string::*;

verus! {

/// What sort of answer a question takes.
#[derive(Clone, Copy, Debug, PartialEq, Eq, Structural)]
pub enum QuestionKind {
    /// Free text.
    Text,
    /// Yes or no.
    Flag,
    /// One of a list of options.
    Select,
    /// Any number of a list of choices.
    MultiSelect,
}

/// One entry of a multi-select question.
#[derive(Clone, Debug, PartialEq, Eq)]
pub struct Choice {
    pub id: String,
    pub prompt: String,
    pub default: bool,
}

/// A default answer, text or flag.
#[derive(Clone, Debug, PartialEq, Eq)]
pub enum DefaultValue {
    Text(String),
    Flag(bool),
}

/// Name and description of a template, both optional.
#[derive(Clone, Debug, PartialEq, Eq)]
pub struct Meta {
    pub name: Option<String>,
    pub description: Option<String>,
}

/// A question as a document declares it: the kind beside both lists, either
/// of which may be missing or be there without reason.
#[derive(Clone, Debug, PartialEq, Eq)]
pub struct QuestionDraft {
    pub id: String,
    pub kind: QuestionKind,
    pub prompt: String,
    pub default: Option<DefaultValue>,
    pub options: Option<Vec<String>>,
    pub choices: Option<Vec<Choice>>,
}

/// A manifest as a document declares it, before validation.
#[derive(Clone, Debug, PartialEq, Eq)]
pub struct ManifestDraft {
    pub meta: Meta,
    pub questions: Vec<QuestionDraft>,
}

/// What a question offers to choose from. Each kind carries the list it
/// needs and no other.
#[derive(Clone, Debug, PartialEq, Eq)]
pub enum Inputs {
    Text,
    Flag,
    Select { options: Vec<String> },
    MultiSelect { choices: Vec<Choice> },
}

/// A question of a valid manifest.
#[derive(Clone, Debug, PartialEq, Eq)]
pub struct Question {
    pub id: String,
    pub prompt: String,
    pub default: Option<DefaultValue>,
    pub inputs: Inputs,
}

/// A valid manifest: the template's metadata and its questions in order.
#[derive(Clone, Debug, PartialEq, Eq)]
pub struct TemplateManifest {
    pub meta: Meta,
    pub questions: Vec<Question>,
}

/// A rule that a declared question breaks.
#[derive(Clone, Copy, Debug, PartialEq, Eq, Structural)]
pub enum Fault {
    /// Both `options` and `choices` are set.
    OptionsAndChoices,
    /// A select question has no `options`.
    SelectWithoutOptions,
    /// A select question has `choices`.
    SelectWithChoices,
    /// A multi-select question has no `choices`.
    MultiSelectWithoutChoices,
    /// A multi-select question has `options`.
    MultiSelectWithOptions,
    /// A text or flag question has `options` or `choices`.
    ListOnPlainQuestion,
}

/// A broken rule together with the id of the question that breaks it.
#[derive(Clone, Debug, PartialEq, Eq)]
pub struct Violation {
    pub question: String,
    pub fault: Fault,
}

/// A manifest that cannot be used.
#[derive(Clone, Debug, PartialEq, Eq)]
pub enum ManifestError {
    /// The document could not be read as a manifest at all.
    Malformed(String),
    /// The document declares questions that break rules: all of them.
    Invalid(Vec<Violation>),
}

/// The fault, if any, of setting both lists.
pub open spec fn both_lists_fault(draft: QuestionDraft) -> Seq<Fault> {
    if draft.options is Some && draft.choices is Some {
        seq![Fault::OptionsAndChoices]
    } else {
        Seq::empty()
    }
}

/// The faults that follow from the question's kind, in the order in which
/// they are reported.
pub open spec fn kind_faults(draft: QuestionDraft) -> Seq<Fault> {
    match draft.kind {
        QuestionKind::Select => {
            let missing = if draft.options is None {
                seq![Fault::SelectWithoutOptions]
            } else {
                Seq::empty()
            };
            if draft.choices is Some {
                missing.push(Fault::SelectWithChoices)
            } else {
                missing
            }
        },
        QuestionKind::MultiSelect => {
            let missing = if draft.choices is None {
                seq![Fault::MultiSelectWithoutChoices]
            } else {
                Seq::empty()
            };
            if draft.options is Some {
                missing.push(Fault::MultiSelectWithOptions)
            } else {
                missing
            }
        },
        QuestionKind::Text | QuestionKind::Flag => {
            if draft.options is Some || draft.choices is Some {
                seq![Fault::ListOnPlainQuestion]
            } else {
                Seq::empty()
            }
        },
    }
}

/// Every rule that a declared question breaks.
pub open spec fn faults_of(draft: QuestionDraft) -> Seq<Fault> {
    both_lists_fault(draft) + kind_faults(draft)
}

/// The question that a faultless declaration stands for.
pub open spec fn accepted(draft: QuestionDraft) -> Question {
    Question {
        id: draft.id,
        prompt: draft.prompt,
        default: draft.default,
        inputs: match draft.kind {
            QuestionKind::Text => Inputs::Text,
            QuestionKind::Flag => Inputs::Flag,
            QuestionKind::Select => Inputs::Select { options: draft.options->0 },
            QuestionKind::MultiSelect => Inputs::MultiSelect { choices: draft.choices->0 },
        },
    }
}

/// The faults of one question, each under the question's id.
pub open spec fn violations_of(draft: QuestionDraft) -> Seq<Violation> {
    faults_of(draft).map_values(|fault: Fault| Violation { question: draft.id, fault })
}

/// The violations of all questions: question by question in manifest order.
pub open spec fn all_violations(drafts: Seq<QuestionDraft>) -> Seq<Violation>
    decreases drafts.len(),
{
    if drafts.len() == 0 {
        Seq::empty()
    } else {
        all_violations(drafts.drop_last()) + violations_of(drafts.last())
    }
}

/// The manifest of a draft without violations.
pub open spec fn accepted_manifest(draft: ManifestDraft, manifest: TemplateManifest) -> bool {
    &&& manifest.meta == draft.meta
    &&& manifest.questions@ == draft.questions@.map_values(|q: QuestionDraft| accepted(q))
}

/// What is said of a fault.
pub open spec fn fault_text(fault: Fault) -> Seq<char> {
    match fault {
        Fault::OptionsAndChoices => "cannot have both `options` and `choices`"@,
        Fault::SelectWithoutOptions => "is a select question and needs `options`"@,
        Fault::SelectWithChoices => "is a select question and cannot have `choices`"@,
        Fault::MultiSelectWithoutChoices => "is a multi-select question and needs `choices`"@,
        Fault::MultiSelectWithOptions => "is a multi-select question and cannot have `options`"@,
        Fault::ListOnPlainQuestion =>
            "is a text or flag question and cannot have `options` or `choices`"@,
    }
}

/// How a violation is reported: the question's id, then the fault.
pub open spec fn violation_text(question: Seq<char>, fault: Fault) -> Seq<char> {
    "Question `"@ + question + "` "@ + fault_text(fault)
}

impl Fault {
    /// What is said of the fault.
    pub fn describe(&self) -> (text: &'static str)
        ensures
            text@ == fault_text(*self),
    {
        match self {
            Fault::OptionsAndChoices => "cannot have both `options` and `choices`",
            Fault::SelectWithoutOptions => "is a select question and needs `options`",
            Fault::SelectWithChoices => "is a select question and cannot have `choices`",
            Fault::MultiSelectWithoutChoices => "is a multi-select question and needs `choices`",
            Fault::MultiSelectWithOptions => "is a multi-select question and cannot have `options`",
            Fault::ListOnPlainQuestion =>
                "is a text or flag question and cannot have `options` or `choices`",
        }
    }
}

impl Violation {
    /// The report of the violation in one line.
    pub fn describe(&self) -> (text: String)
        ensures
            text@ == violation_text(self.question@, self.fault),
    {
        let mut text = "Question `".to_owned();
        text.append(self.question.as_str());
        text.append("` ");
        text.append(self.fault.describe());
        text
    }
}

impl Question {
    /// Checks one declared question against every rule. A faultless one
    /// becomes a question; any other gives all its faults.
    pub fn from_draft(draft: QuestionDraft) -> (res: Result<Question, Vec<Fault>>)
        ensures
            match res {
                Ok(question) => faults_of(draft).len() == 0 && question == accepted(draft),
                Err(faults) => faults@.len() > 0 && faults@ == faults_of(draft),
            },
    {
        let mut faults: Vec<Fault> = Vec::new();
        if draft.options.is_some() && draft.choices.is_some() {
            faults.push(Fault::OptionsAndChoices);
        }
        assert(faults@ == both_lists_fault(draft));
        let QuestionDraft { id, kind, prompt, default, options, choices } = draft;
        match kind {
            QuestionKind::Text | QuestionKind::Flag => {
                if options.is_some() || choices.is_some() {
                    faults.push(Fault::ListOnPlainQuestion);
                    return Err(faults);
                }
                let inputs = match kind {
                    QuestionKind::Text => Inputs::Text,
                    _ => Inputs::Flag,
                };
                Ok(Question { id, prompt, default, inputs })
            },
            QuestionKind::Select => {
                if choices.is_some() {
                    if options.is_none() {
                        faults.push(Fault::SelectWithoutOptions);
                    }
                    faults.push(Fault::SelectWithChoices);
                    return Err(faults);
                }
                match options {
                    Some(options) => Ok(
                        Question { id, prompt, default, inputs: Inputs::Select { options } },
                    ),
                    None => {
                        faults.push(Fault::SelectWithoutOptions);
                        Err(faults)
                    },
                }
            },
            QuestionKind::MultiSelect => {
                if options.is_some() {
                    if choices.is_none() {
                        faults.push(Fault::MultiSelectWithoutChoices);
                    }
                    faults.push(Fault::MultiSelectWithOptions);
                    return Err(faults);
                }
                match choices {
                    Some(choices) => Ok(
                        Question { id, prompt, default, inputs: Inputs::MultiSelect { choices } },
                    ),
                    None => {
                        faults.push(Fault::MultiSelectWithoutChoices);
                        Err(faults)
                    },
                }
            },
        }
    }
}

/// Validates a declared manifest. Every question is checked against every
/// rule; nothing stops at the first fault. A draft without violations
/// becomes the manifest, its questions in order; any other gives all
/// violations, question by question.
pub fn validate(draft: ManifestDraft) -> (res: Result<TemplateManifest, Vec<Violation>>)
    ensures
        match res {
            Ok(manifest) => all_violations(draft.questions@).len() == 0 && accepted_manifest(
                draft,
                manifest,
            ),
            Err(violations) => violations@.len() > 0 && violations@ == all_violations(
                draft.questions@,
            ),
        },
{
    let ManifestDraft { meta, questions: drafts } = draft;
    let ghost declared = drafts@;
    let mut questions: Vec<Question> = Vec::new();
    let mut violations: Vec<Violation> = Vec::new();
    for question in iter: drafts
        invariant
            iter.seq() == declared,
            violations@ == all_violations(declared.take(iter.index())),
            violations@.len() == 0 ==> questions@ == declared.take(iter.index()).map_values(
                |q: QuestionDraft| accepted(q),
            ),
    {
        let ghost done = iter.index();
        assert(declared.take(done + 1).drop_last() =~= declared.take(done));
        assert(declared.take(done + 1).last() == question);
        let id = question.id.clone();
        match Question::from_draft(question) {
            Ok(accepted_question) => {
                assert(violations_of(question) =~= Seq::empty());
                questions.push(accepted_question);
                assert(violations@.len() == 0 ==> questions@ =~= declared.take(
                    done + 1,
                ).map_values(|q: QuestionDraft| accepted(q)));
            },
            Err(faults) => {
                let ghost before = violations@;
                let mut next: usize = 0;
                while next < faults.len()
                    invariant
                        next <= faults.len(),
                        id == question.id,
                        faults@ == faults_of(question),
                        violations@ == before + violations_of(question).take(next as int),
                    decreases faults.len() - next,
                {
                    violations.push(Violation { question: id.clone(), fault: faults[next] });
                    assert(violations_of(question).take(next + 1) =~= violations_of(
                        question,
                    ).take(next as int).push(violations_of(question)[next as int]));
                    next += 1;
                }
                assert(violations_of(question).take(next as int) =~= violations_of(question));
            },
        }
    }
    assert(declared.take(declared.len() as int) =~= declared);
    if violations.len() == 0 {
        Ok(TemplateManifest { meta, questions })
    } else {
        Err(violations)
    }
}

/// What a loaded document comes to: a document that could not be read
/// stays unreadable, a draft is validated.
pub open spec fn checked(
    loaded: Result<ManifestDraft, String>,
    res: Result<TemplateManifest, ManifestError>,
) -> bool {
    match loaded {
        Err(reason) => res == Err::<TemplateManifest, ManifestError>(
            ManifestError::Malformed(reason),
        ),
        Ok(draft) => match res {
            Ok(manifest) => all_violations(draft.questions@).len() == 0 && accepted_manifest(
                draft,
                manifest,
            ),
            Err(ManifestError::Invalid(violations)) => violations@.len() > 0 && violations@
                == all_violations(draft.questions@),
            Err(ManifestError::Malformed(_)) => false,
        },
    }
}

/// Makes the manifest of a run from what loading the document gave: the
/// draft that the document declares, or the reason why it declares none.
/// Nothing is rendered and nothing written before this has succeeded.
pub fn check_manifest(loaded: Result<ManifestDraft, String>) -> (res: Result<
    TemplateManifest,
    ManifestError,
>)
    ensures
        checked(loaded, res),
{
    match loaded {
        Err(reason) => Err(ManifestError::Malformed(reason)),
        Ok(draft) => match validate(draft) {
            Ok(manifest) => Ok(manifest),
            Err(violations) => Err(ManifestError::Invalid(violations)),
        },
    }
}

} // verus!
