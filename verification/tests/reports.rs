use stamp::conflict::ConflictError;
use stamp::context::{default_answer, Answer};
use stamp::execute::ExecError;
use stamp::manifest::{
    check_manifest, Choice, DefaultValue, Fault, Inputs, ManifestDraft, ManifestError, Meta,
    Question, QuestionDraft, QuestionKind, Violation,
};
use stamp::plan::PlanError;
use stamp::registry::{
    count_changes, registered_name, Candidate, NotRegistered, Registration, Registry, RegistryInfo,
};

fn info(path: &str, description: Option<&str>) -> RegistryInfo {
    RegistryInfo { description: description.map(|d| d.to_string()), path: path.to_string() }
}

fn candidate(name: &str, path: &str) -> Candidate {
    Candidate { name: name.to_string(), info: info(path, None) }
}

fn question(inputs: Inputs, default: Option<DefaultValue>) -> Question {
    Question { id: "q".to_string(), prompt: String::new(), default, inputs }
}

#[test]
fn plan_error_is_reported_with_segment_and_path() {
    let error = PlanError {
        segment: "{{ x }}".to_string(),
        path: "out/{{ x }}/a".to_string(),
        message: "unknown".to_string(),
    };
    assert_eq!(
        error.describe(),
        "Failed to render path component `{{ x }}` of `out/{{ x }}/a`"
    );
}

#[test]
fn exec_error_is_reported_with_the_pair() {
    let error = ExecError {
        source: "t/a".to_string(),
        destination: "out/a".to_string(),
        message: "disk full".to_string(),
    };
    assert_eq!(error.describe(), "Failed to produce `out/a` from `t/a`: disk full");
}

#[test]
fn conflicts_are_reported_in_one_message() {
    let error = ConflictError { destinations: vec!["out/a".to_string(), "out/b".to_string()] };
    assert_eq!(error.describe(), "Destination files already exist:\n  out/a\n  out/b");
    assert_eq!(
        ConflictError { destinations: Vec::new() }.describe(),
        "Destination files already exist:"
    );
}

#[test]
fn violations_are_reported_with_the_question() {
    let text = |fault: Fault| Violation { question: "db".to_string(), fault }.describe();
    assert_eq!(
        text(Fault::OptionsAndChoices),
        "Question `db` cannot have both `options` and `choices`"
    );
    assert_eq!(
        text(Fault::SelectWithoutOptions),
        "Question `db` is a select question and needs `options`"
    );
    assert_eq!(
        text(Fault::SelectWithChoices),
        "Question `db` is a select question and cannot have `choices`"
    );
    assert_eq!(
        text(Fault::MultiSelectWithoutChoices),
        "Question `db` is a multi-select question and needs `choices`"
    );
    assert_eq!(
        text(Fault::MultiSelectWithOptions),
        "Question `db` is a multi-select question and cannot have `options`"
    );
    assert_eq!(
        text(Fault::ListOnPlainQuestion),
        "Question `db` is a text or flag question and cannot have `options` or `choices`"
    );
}

#[test]
fn unreadable_document_stays_unreadable() {
    assert_eq!(
        check_manifest(Err("bad yaml".to_string())),
        Err(ManifestError::Malformed("bad yaml".to_string()))
    );
}

#[test]
fn loaded_draft_is_validated() {
    let draft = |options: Option<Vec<String>>| ManifestDraft {
        meta: Meta { name: None, description: Some("d".to_string()) },
        questions: vec![QuestionDraft {
            id: "license".to_string(),
            kind: QuestionKind::Select,
            prompt: "License?".to_string(),
            default: None,
            options,
            choices: None,
        }],
    };
    assert_eq!(
        check_manifest(Ok(draft(None))),
        Err(ManifestError::Invalid(vec![Violation {
            question: "license".to_string(),
            fault: Fault::SelectWithoutOptions
        }]))
    );
    let accepted = check_manifest(Ok(draft(Some(vec!["mit".to_string()])))).unwrap();
    assert_eq!(accepted.meta.description.as_deref(), Some("d"));
    assert_eq!(
        accepted.questions[0].inputs,
        Inputs::Select { options: vec!["mit".to_string()] }
    );
}

#[test]
fn default_answer_follows_the_question() {
    assert_eq!(default_answer(&question(Inputs::Text, None)), None);
    assert_eq!(
        default_answer(&question(Inputs::Text, Some(DefaultValue::Text("demo".to_string())))),
        Some(Answer::Text("demo".to_string()))
    );
    assert_eq!(
        default_answer(&question(Inputs::Flag, Some(DefaultValue::Flag(true)))),
        Some(Answer::Flag(true))
    );
    assert_eq!(
        default_answer(&question(
            Inputs::Select { options: vec!["a".to_string()] },
            Some(DefaultValue::Text("a".to_string()))
        )),
        Some(Answer::Text("a".to_string()))
    );
    let choice = |id: &str, default: bool| Choice {
        id: id.to_string(),
        prompt: String::new(),
        default,
    };
    assert_eq!(
        default_answer(&question(
            Inputs::MultiSelect {
                choices: vec![choice("a", true), choice("b", false), choice("c", true)]
            },
            None
        )),
        Some(Answer::Chosen(vec!["a".to_string(), "c".to_string()]))
    );
    assert_eq!(
        default_answer(&question(Inputs::MultiSelect { choices: Vec::new() }, None)),
        Some(Answer::Chosen(Vec::new()))
    );
}

#[test]
fn missing_name_is_reported() {
    assert_eq!(
        NotRegistered { name: "web".to_string() }.describe(),
        "Template 'web' not found in registry"
    );
}

#[test]
fn failed_removal_is_reported_with_backticks() {
    assert_eq!(
        NotRegistered { name: "web".to_string() }.describe_removal(),
        "Template `web` not found in registry"
    );
}

#[test]
fn removing_a_name_twice_reports_the_second() {
    let mut registry = Registry::new();
    registry.register("a".to_string(), info("/t/a", None), false);
    let (removed, missing) = registry.remove_each(&vec!["a".to_string(), "a".to_string()]);
    assert_eq!(removed, 1);
    assert_eq!(missing.unwrap().describe_removal(), "Template `a` not found in registry");
    assert!(registry.is_empty());
}

#[test]
fn removal_with_a_missing_name_keeps_the_rest() {
    let mut registry = Registry::new();
    for name in ["a", "b", "c", "d"] {
        registry.register(name.to_string(), info(name, None), false);
    }
    let names = vec!["c".to_string(), "a".to_string(), "x".to_string(), "d".to_string()];
    let (removed, missing) = registry.remove_each(&names);
    assert_eq!(removed, 2);
    assert_eq!(missing.unwrap().describe_removal(), "Template `x` not found in registry");
    let left: Vec<&str> = registry.entries().iter().map(|e| e.name.as_str()).collect();
    assert_eq!(left, ["b", "d"]);
}

#[test]
fn batch_registration_keeps_the_order_of_names() {
    let mut registry = Registry::new();
    registry.register("old".to_string(), info("/old", None), false);
    registry.register_all(
        vec![
            candidate("web", "/1"),
            candidate("old", "/2"),
            candidate("cli", "/3"),
            candidate("web", "/4"),
        ],
        true,
    );
    let names: Vec<&str> = registry.entries().iter().map(|e| e.name.as_str()).collect();
    assert_eq!(names, ["old", "web", "cli"]);
}

#[test]
fn registrations_are_reported() {
    assert_eq!(Registration::Added.describe("web"), "Adding template `web`");
    assert_eq!(Registration::Overwritten.describe("web"), "Overwriting template `web`");
    assert_eq!(
        Registration::AlreadyRegistered.describe("web"),
        "Template `web` already registered - not adding"
    );
    assert!(Registration::Added.has_changed());
    assert!(Registration::Overwritten.has_changed());
    assert!(!Registration::AlreadyRegistered.has_changed());
}

#[test]
fn template_is_named_by_manifest_or_directory() {
    assert_eq!(registered_name(Some("web".to_string()), "dir"), "web");
    assert_eq!(registered_name(None, "dir"), "dir");
}

#[test]
fn listing_shows_each_template() {
    let mut registry = Registry::new();
    assert!(registry.listing().is_empty());
    registry.register("web".to_string(), info("/t/web", Some("a site")), false);
    registry.register("cli".to_string(), info("/t/cli", None), false);
    assert_eq!(
        registry.listing(),
        ["web:\n\tdescription: a site\n\tpath: /t/web", "cli:\n\tpath: /t/cli"]
    );
    assert_eq!(info("/p", None).describe("n"), "n:\n\tpath: /p");
}

#[test]
fn candidates_register_in_turn() {
    let mut registry = Registry::new();
    registry.register("old".to_string(), info("/old", None), false);
    let candidates =
        vec![candidate("web", "/1"), candidate("old", "/2"), candidate("web", "/3")];
    let outcomes = registry.register_all(candidates.clone(), false);
    assert_eq!(
        outcomes,
        [Registration::Added, Registration::AlreadyRegistered, Registration::AlreadyRegistered]
    );
    assert_eq!(count_changes(&outcomes), 1);
    assert_eq!(registry.lookup("web"), Some(&info("/1", None)));
    assert_eq!(registry.lookup("old"), Some(&info("/old", None)));

    let outcomes = registry.register_all(candidates, true);
    assert_eq!(
        outcomes,
        [Registration::Overwritten, Registration::Overwritten, Registration::Overwritten]
    );
    assert_eq!(count_changes(&outcomes), 3);
    assert_eq!(registry.lookup("web"), Some(&info("/3", None)));
    assert_eq!(registry.lookup("old"), Some(&info("/2", None)));
    assert_eq!(registry.len(), 2);
    assert_eq!(count_changes(&Vec::new()), 0);
}

#[test]
fn removal_stops_at_the_first_missing_name() {
    let mut registry = Registry::new();
    for name in ["a", "b", "c"] {
        registry.register(name.to_string(), info(name, None), false);
    }
    let names = vec!["a".to_string(), "x".to_string(), "b".to_string()];
    assert_eq!(
        registry.remove_each(&names),
        (1, Some(NotRegistered { name: "x".to_string() }))
    );
    assert_eq!(registry.lookup("a"), None);
    assert!(registry.lookup("b").is_some());
    assert_eq!(registry.remove_each(&vec!["b".to_string(), "c".to_string()]), (2, None));
    assert!(registry.is_empty());
    assert_eq!(registry.remove_each(&Vec::new()), (0, None));
    registry.register("a".to_string(), info("a", None), false);
    assert_eq!(
        registry.remove_each(&vec!["a".to_string(), "a".to_string()]),
        (1, Some(NotRegistered { name: "a".to_string() }))
    );
}
