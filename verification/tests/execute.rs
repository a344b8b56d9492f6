use std::collections::BTreeMap;

use stamp::conflict::{resolve, ConflictError, ConflictStrategy};
use stamp::context::RunContext;
use stamp::execute::{Command, ExecError, Executor, Reply};
use stamp::plan::{plan, FileAction, Planning, TemplateEntry};
use stamp::render::Renderer;

type Files = BTreeMap<String, Vec<u8>>;

fn files(entries: &[(&str, &str)]) -> Files {
    entries.iter().map(|(path, content)| (path.to_string(), content.as_bytes().to_vec())).collect()
}

fn entry(segments: &[&str]) -> TemplateEntry {
    TemplateEntry { segments: segments.iter().map(|s| s.to_string()).collect() }
}

fn action(source: &str, destination: &str, is_template: bool) -> FileAction {
    FileAction {
        source: source.to_string(),
        destination: destination.to_string(),
        is_template,
    }
}

fn demo_context() -> RunContext {
    let mut context = RunContext::new();
    context.insert_text("project", "demo");
    context.insert_text("name", "Ada");
    context
}

fn demo_tree() -> (Vec<TemplateEntry>, Files) {
    (
        vec![
            entry(&["stamp.yaml"]),
            entry(&["{{project}}", "README.md.tera"]),
            entry(&["{{project}}", "logo.bin"]),
        ],
        files(&[
            ("t/stamp.yaml", "questions: []"),
            ("t/{{project}}/README.md.tera", "Hello {{name}}"),
            ("t/{{project}}/logo.bin", "{{name}} stays"),
        ]),
    )
}

fn render(engine: &mut tera::Tera, context: &RunContext, template: &str) -> Result<String, String> {
    engine.render_str(template, context.engine_context()).map_err(|error| error.to_string())
}

/// Carries the commands out on maps that stand for the two trees.
fn drive(
    actions: Vec<FileAction>,
    sources: &Files,
    destination: &mut Files,
    context: &RunContext,
) -> Result<Vec<String>, ExecError> {
    let mut engine = Renderer::new().into_engine();
    let mut parents = Vec::new();
    let (mut executor, mut command) = Executor::start(actions);
    loop {
        let reply = match command {
            Command::CreateParent { destination } => {
                parents.push(destination);
                Reply::Done
            }
            Command::ReadTemplate { source } => match sources.get(&source) {
                Some(bytes) => Reply::Content(String::from_utf8(bytes.clone()).unwrap()),
                None => Reply::Failed(format!("no such file: {source}")),
            },
            Command::Render { template } => match render(&mut engine, context, &template) {
                Ok(text) => Reply::Content(text),
                Err(reason) => Reply::Failed(reason),
            },
            Command::WriteRendered { destination: path, content } => {
                destination.insert(path, content.into_bytes());
                Reply::Done
            }
            Command::CopyFile { source, destination: path } => match sources.get(&source) {
                Some(bytes) => {
                    destination.insert(path, bytes.clone());
                    Reply::Done
                }
                None => Reply::Failed(format!("no such file: {source}")),
            },
            Command::Finished => {
                assert!(executor.is_over());
                return Ok(parents);
            }
            Command::Failed(error) => {
                assert!(executor.is_over());
                return Err(error);
            }
        };
        assert!(!executor.is_over());
        command = executor.step(reply);
    }
}

fn instantiate(
    entries: &[TemplateEntry],
    sources: &Files,
    destination: &mut Files,
    strategy: ConflictStrategy,
) -> Result<(), ConflictError> {
    let context = demo_context();
    let mut engine = Renderer::new().into_engine();
    let mut planning = plan("t", "out", entries.to_vec());
    let planned = loop {
        planning = match planning {
            Planning::Asks(planner) => {
                let answer = render(&mut engine, &context, planner.segment());
                planner.answer(answer)
            }
            Planning::Planned(actions) => break actions,
            Planning::Refused(error) => panic!("{}", error.describe()),
        };
    };
    let existing: Vec<String> = planned
        .iter()
        .map(|a| a.destination.clone())
        .filter(|d| destination.contains_key(d))
        .collect();
    let resolved = resolve(planned, &existing, strategy)?;
    drive(resolved, sources, destination, &context).unwrap();
    Ok(())
}

#[test]
fn empty_destination_gets_the_rendered_tree() {
    let (entries, sources) = demo_tree();
    let mut destination = Files::new();
    instantiate(&entries, &sources, &mut destination, ConflictStrategy::Fail).unwrap();
    assert_eq!(
        destination,
        files(&[("out/demo/README.md", "Hello Ada"), ("out/demo/logo.bin", "{{name}} stays")])
    );
}

#[test]
fn fail_policy_aborts_and_leaves_the_file() {
    let (entries, sources) = demo_tree();
    let mut destination = files(&[("out/demo/README.md", "mine")]);
    let error =
        instantiate(&entries, &sources, &mut destination, ConflictStrategy::Fail).unwrap_err();
    assert_eq!(error.destinations, ["out/demo/README.md"]);
    assert_eq!(destination, files(&[("out/demo/README.md", "mine")]));
}

#[test]
fn skip_policy_leaves_the_file_and_writes_the_rest() {
    let (entries, sources) = demo_tree();
    let mut destination = files(&[("out/demo/README.md", "mine")]);
    instantiate(&entries, &sources, &mut destination, ConflictStrategy::Skip).unwrap();
    assert_eq!(
        destination,
        files(&[("out/demo/README.md", "mine"), ("out/demo/logo.bin", "{{name}} stays")])
    );
}

#[test]
fn overwrite_policy_replaces_the_file() {
    let (entries, sources) = demo_tree();
    let mut destination = files(&[("out/demo/README.md", "mine"), ("out/other", "kept")]);
    instantiate(&entries, &sources, &mut destination, ConflictStrategy::Overwrite).unwrap();
    assert_eq!(
        destination,
        files(&[
            ("out/demo/README.md", "Hello Ada"),
            ("out/demo/logo.bin", "{{name}} stays"),
            ("out/other", "kept"),
        ])
    );
}

#[test]
fn second_run_under_overwrite_changes_nothing() {
    let (entries, sources) = demo_tree();
    let mut destination = files(&[("out/demo/logo.bin", "old")]);
    instantiate(&entries, &sources, &mut destination, ConflictStrategy::Overwrite).unwrap();
    let after_first = destination.clone();
    instantiate(&entries, &sources, &mut destination, ConflictStrategy::Overwrite).unwrap();
    assert_eq!(destination, after_first);
}

#[test]
fn skip_writes_missing_files_as_overwrite_does() {
    let (entries, sources) = demo_tree();
    let before = files(&[("out/demo/logo.bin", "old")]);
    let mut skipped = before.clone();
    instantiate(&entries, &sources, &mut skipped, ConflictStrategy::Skip).unwrap();
    let mut overwritten = before.clone();
    instantiate(&entries, &sources, &mut overwritten, ConflictStrategy::Overwrite).unwrap();
    assert_eq!(skipped["out/demo/logo.bin"], before["out/demo/logo.bin"]);
    assert_eq!(skipped["out/demo/README.md"], overwritten["out/demo/README.md"]);
    assert_eq!(skipped.len(), overwritten.len());
}

#[test]
fn commands_come_in_order() {
    let actions = vec![action("t/a.tera", "out/a", true), action("t/b", "out/sub/b", false)];
    let (mut executor, first) = Executor::start(actions);
    assert_eq!(first, Command::CreateParent { destination: "out/a".to_string() });
    assert_eq!(
        executor.step(Reply::Done),
        Command::ReadTemplate { source: "t/a.tera".to_string() }
    );
    assert_eq!(
        executor.step(Reply::Content("Hi {{ name }}".to_string())),
        Command::Render { template: "Hi {{ name }}".to_string() }
    );
    assert_eq!(
        executor.step(Reply::Content("Hi Ada".to_string())),
        Command::WriteRendered { destination: "out/a".to_string(), content: "Hi Ada".to_string() }
    );
    assert_eq!(
        executor.step(Reply::Done),
        Command::CreateParent { destination: "out/sub/b".to_string() }
    );
    assert_eq!(
        executor.step(Reply::Done),
        Command::CopyFile { source: "t/b".to_string(), destination: "out/sub/b".to_string() }
    );
    assert!(!executor.is_over());
    assert_eq!(executor.step(Reply::Done), Command::Finished);
    assert!(executor.is_over());
    assert_eq!(executor.step(Reply::Done), Command::Finished);
    assert_eq!(
        executor.step(Reply::Failed("late".to_string())),
        Command::Finished
    );
}

#[test]
fn empty_run_is_finished_at_once() {
    let (executor, first) = Executor::start(Vec::new());
    assert_eq!(first, Command::Finished);
    assert!(executor.is_over());
}

#[test]
fn failure_names_the_pair_and_keeps_earlier_files() {
    let sources = files(&[("t/a", "A"), ("t/c", "C")]);
    let actions = vec![
        action("t/a", "out/a", false),
        action("t/b", "out/b", false),
        action("t/c", "out/c", false),
    ];
    let mut destination = Files::new();
    let error = drive(actions, &sources, &mut destination, &demo_context()).unwrap_err();
    assert_eq!(
        error,
        ExecError {
            source: "t/b".to_string(),
            destination: "out/b".to_string(),
            message: "no such file: t/b".to_string(),
        }
    );
    assert_eq!(destination, files(&[("out/a", "A")]));
}

#[test]
fn content_that_does_not_render_fails_the_action() {
    let sources = files(&[("t/a.tera", "{{ nobody }}"), ("t/b", "B")]);
    let actions = vec![action("t/a.tera", "out/a", true), action("t/b", "out/b", false)];
    let mut destination = Files::new();
    let error = drive(actions, &sources, &mut destination, &demo_context()).unwrap_err();
    assert_eq!(error.source, "t/a.tera");
    assert_eq!(error.destination, "out/a");
    assert!(!error.message.is_empty());
    assert!(destination.is_empty());
}

#[test]
fn failed_run_repeats_its_failure() {
    let (mut executor, _) = Executor::start(vec![action("t/a", "out/a", false)]);
    let failure = Command::Failed(ExecError {
        source: "t/a".to_string(),
        destination: "out/a".to_string(),
        message: "disk full".to_string(),
    });
    assert_eq!(
        executor.step(Reply::Failed("disk full".to_string())),
        failure
    );
    assert!(executor.is_over());
    assert_eq!(executor.step(Reply::Done), failure);
    assert_eq!(
        executor.step(Reply::Failed("again".to_string())),
        failure
    );
}

#[test]
fn reply_that_does_not_answer_fails_the_action() {
    let unexpected = |source: &str, destination: &str| {
        Command::Failed(ExecError {
            source: source.to_string(),
            destination: destination.to_string(),
            message: "unexpected reply".to_string(),
        })
    };

    let (mut executor, _) = Executor::start(vec![action("t/a", "out/a", false)]);
    assert_eq!(
        executor.step(Reply::Content("text".to_string())),
        unexpected("t/a", "out/a")
    );

    let (mut executor, _) = Executor::start(vec![action("t/a.tera", "out/a", true)]);
    executor.step(Reply::Done);
    assert_eq!(
        executor.step(Reply::Done),
        unexpected("t/a.tera", "out/a")
    );

    let (mut executor, _) = Executor::start(vec![action("t/a", "out/a", false)]);
    executor.step(Reply::Done);
    assert_eq!(
        executor.step(Reply::Content("{{ project }}".to_string())),
        unexpected("t/a", "out/a")
    );
}

#[test]
fn refusal_of_the_renderer_fails_the_action() {
    let (mut executor, _) = Executor::start(vec![
        action("t/a.tera", "out/a", true),
        action("t/b", "out/b", false),
    ]);
    assert_eq!(
        executor.step(Reply::Done),
        Command::ReadTemplate { source: "t/a.tera".to_string() }
    );
    assert_eq!(
        executor.step(Reply::Content("{{ raw }}".to_string())),
        Command::Render { template: "{{ raw }}".to_string() }
    );
    let failure = Command::Failed(ExecError {
        source: "t/a.tera".to_string(),
        destination: "out/a".to_string(),
        message: "refused".to_string(),
    });
    assert_eq!(executor.step(Reply::Failed("refused".to_string())), failure);
    assert!(executor.is_over());
    assert_eq!(executor.step(Reply::Done), failure);
}

#[test]
fn rendered_text_is_stored_as_it_comes_back() {
    let (mut executor, _) = Executor::start(vec![action("t/a.tera", "out/a", true)]);
    executor.step(Reply::Done);
    executor.step(Reply::Content("raw".to_string()));
    assert_eq!(
        executor.step(Reply::Content("cooked".to_string())),
        Command::WriteRendered { destination: "out/a".to_string(), content: "cooked".to_string() }
    );
    assert_eq!(executor.step(Reply::Done), Command::Finished);
}

#[test]
fn rendering_has_to_be_answered() {
    let (mut executor, _) = Executor::start(vec![action("t/a.tera", "out/a", true)]);
    executor.step(Reply::Done);
    executor.step(Reply::Content("raw".to_string()));
    assert_eq!(
        executor.step(Reply::Done),
        Command::Failed(ExecError {
            source: "t/a.tera".to_string(),
            destination: "out/a".to_string(),
            message: "unexpected reply".to_string(),
        })
    );
}
