use stamp::manifest::{
    validate, Choice, DefaultValue, Fault, Inputs, ManifestDraft, Meta, Question, QuestionDraft,
    QuestionKind, Violation,
};

fn draft(id: &str, kind: QuestionKind) -> QuestionDraft {
    QuestionDraft {
        id: id.to_string(),
        kind,
        prompt: format!("{id}?"),
        default: None,
        options: None,
        choices: None,
    }
}

fn options() -> Option<Vec<String>> {
    Some(vec!["a".to_string(), "b".to_string()])
}

fn choices() -> Option<Vec<Choice>> {
    Some(vec![
        Choice { id: "x".to_string(), prompt: "X".to_string(), default: true },
        Choice { id: "y".to_string(), prompt: "Y".to_string(), default: false },
    ])
}

fn manifest(questions: Vec<QuestionDraft>) -> ManifestDraft {
    ManifestDraft {
        meta: Meta { name: Some("demo".to_string()), description: None },
        questions,
    }
}

fn faults(question: QuestionDraft) -> Vec<Fault> {
    match Question::from_draft(question) {
        Ok(_) => Vec::new(),
        Err(faults) => faults,
    }
}

#[test]
fn select_without_options_is_the_single_violation() {
    let mut project = draft("project", QuestionKind::Text);
    project.default = Some(DefaultValue::Text("demo".to_string()));
    let mut features = draft("features", QuestionKind::MultiSelect);
    features.choices = choices();
    let result = validate(manifest(vec![
        project,
        draft("license", QuestionKind::Select),
        draft("git", QuestionKind::Flag),
        features,
    ]));
    assert_eq!(
        result,
        Err(vec![Violation {
            question: "license".to_string(),
            fault: Fault::SelectWithoutOptions
        }])
    );
}

#[test]
fn valid_manifest_keeps_questions_in_order() {
    let mut license = draft("license", QuestionKind::Select);
    license.options = options();
    license.default = Some(DefaultValue::Text("a".to_string()));
    let mut features = draft("features", QuestionKind::MultiSelect);
    features.choices = choices();
    let mut git = draft("git", QuestionKind::Flag);
    git.default = Some(DefaultValue::Flag(true));
    let accepted = validate(manifest(vec![
        draft("project", QuestionKind::Text),
        license,
        features,
        git,
    ]))
    .unwrap();
    assert_eq!(accepted.meta.name.as_deref(), Some("demo"));
    assert_eq!(accepted.meta.description, None);
    let ids: Vec<&str> = accepted.questions.iter().map(|q| q.id.as_str()).collect();
    assert_eq!(ids, ["project", "license", "features", "git"]);
    assert_eq!(accepted.questions[0].inputs, Inputs::Text);
    assert_eq!(accepted.questions[0].prompt, "project?");
    assert_eq!(
        accepted.questions[1].inputs,
        Inputs::Select { options: options().unwrap() }
    );
    assert_eq!(
        accepted.questions[1].default,
        Some(DefaultValue::Text("a".to_string()))
    );
    assert_eq!(
        accepted.questions[2].inputs,
        Inputs::MultiSelect { choices: choices().unwrap() }
    );
    assert_eq!(accepted.questions[3].inputs, Inputs::Flag);
    assert_eq!(accepted.questions[3].default, Some(DefaultValue::Flag(true)));
}

#[test]
fn empty_manifest_is_valid() {
    let accepted = validate(manifest(Vec::new())).unwrap();
    assert!(accepted.questions.is_empty());
}

#[test]
fn every_fault_has_its_input() {
    let mut both = draft("q", QuestionKind::Select);
    both.options = options();
    both.choices = choices();
    assert_eq!(
        faults(both),
        [Fault::OptionsAndChoices, Fault::SelectWithChoices]
    );

    assert_eq!(
        faults(draft("q", QuestionKind::Select)),
        [Fault::SelectWithoutOptions]
    );

    let mut select_with_choices = draft("q", QuestionKind::Select);
    select_with_choices.choices = choices();
    assert_eq!(
        faults(select_with_choices),
        [Fault::SelectWithoutOptions, Fault::SelectWithChoices]
    );

    assert_eq!(
        faults(draft("q", QuestionKind::MultiSelect)),
        [Fault::MultiSelectWithoutChoices]
    );

    let mut multi_with_options = draft("q", QuestionKind::MultiSelect);
    multi_with_options.options = options();
    assert_eq!(
        faults(multi_with_options),
        [Fault::MultiSelectWithoutChoices, Fault::MultiSelectWithOptions]
    );

    let mut multi_with_both = draft("q", QuestionKind::MultiSelect);
    multi_with_both.options = options();
    multi_with_both.choices = choices();
    assert_eq!(
        faults(multi_with_both),
        [Fault::OptionsAndChoices, Fault::MultiSelectWithOptions]
    );

    let mut text_with_options = draft("q", QuestionKind::Text);
    text_with_options.options = options();
    assert_eq!(faults(text_with_options), [Fault::ListOnPlainQuestion]);

    let mut flag_with_choices = draft("q", QuestionKind::Flag);
    flag_with_choices.choices = choices();
    assert_eq!(faults(flag_with_choices), [Fault::ListOnPlainQuestion]);

    let mut flag_with_both = draft("q", QuestionKind::Flag);
    flag_with_both.options = options();
    flag_with_both.choices = choices();
    assert_eq!(
        faults(flag_with_both),
        [Fault::OptionsAndChoices, Fault::ListOnPlainQuestion]
    );
}

#[test]
fn violations_of_all_questions_are_collected() {
    let mut text_with_options = draft("name", QuestionKind::Text);
    text_with_options.options = options();
    let mut fine = draft("license", QuestionKind::Select);
    fine.options = options();
    let mut both = draft("features", QuestionKind::MultiSelect);
    both.options = options();
    let result = validate(manifest(vec![
        text_with_options,
        fine,
        draft("kind", QuestionKind::Select),
        both,
    ]));
    let violation = |question: &str, fault: Fault| Violation { question: question.to_string(), fault };
    assert_eq!(
        result,
        Err(vec![
            violation("name", Fault::ListOnPlainQuestion),
            violation("kind", Fault::SelectWithoutOptions),
            violation("features", Fault::MultiSelectWithoutChoices),
            violation("features", Fault::MultiSelectWithOptions),
        ])
    );
}
