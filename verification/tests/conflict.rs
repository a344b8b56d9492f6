use stamp::conflict::{
    drop_conflicting, find_conflicts, resolve, ConflictError, ConflictStrategy,
};
use stamp::plan::FileAction;

fn action(source: &str, destination: &str) -> FileAction {
    FileAction {
        source: source.to_string(),
        destination: destination.to_string(),
        is_template: false,
    }
}

fn actions() -> Vec<FileAction> {
    vec![
        action("t/a", "out/a"),
        action("t/b", "out/b"),
        action("t/c", "out/c"),
        action("t/b2", "out/b"),
    ]
}

fn existing(paths: &[&str]) -> Vec<String> {
    paths.iter().map(|p| p.to_string()).collect()
}

#[test]
fn overwrite_keeps_every_action() {
    assert_eq!(
        resolve(actions(), &existing(&["out/a", "out/b"]), ConflictStrategy::Overwrite),
        Ok(actions())
    );
    assert_eq!(resolve(actions(), &Vec::new(), ConflictStrategy::Overwrite), Ok(actions()));
}

#[test]
fn skip_drops_the_actions_whose_destination_exists() {
    assert_eq!(
        resolve(actions(), &existing(&["out/b", "elsewhere"]), ConflictStrategy::Skip),
        Ok(vec![action("t/a", "out/a"), action("t/c", "out/c")])
    );
    assert_eq!(resolve(actions(), &Vec::new(), ConflictStrategy::Skip), Ok(actions()));
    assert_eq!(
        resolve(actions(), &existing(&["out/a", "out/b", "out/c"]), ConflictStrategy::Skip),
        Ok(Vec::new())
    );
}

#[test]
fn fail_reports_every_conflict() {
    assert_eq!(
        resolve(actions(), &existing(&["out/c", "out/b"]), ConflictStrategy::Fail),
        Err(ConflictError { destinations: existing(&["out/b", "out/c", "out/b"]) })
    );
    assert_eq!(
        resolve(actions(), &existing(&["out/a"]), ConflictStrategy::Fail),
        Err(ConflictError { destinations: existing(&["out/a"]) })
    );
}

#[test]
fn fail_lets_a_clean_run_go_ahead() {
    assert_eq!(
        resolve(actions(), &existing(&["out/other"]), ConflictStrategy::Fail),
        Ok(actions())
    );
    assert_eq!(resolve(Vec::new(), &existing(&["out/a"]), ConflictStrategy::Fail), Ok(Vec::new()));
}

#[test]
fn conflicts_and_free_actions_part_the_plan() {
    let there = existing(&["out/a", "out/c"]);
    assert_eq!(find_conflicts(&actions(), &there), existing(&["out/a", "out/c"]));
    assert_eq!(
        drop_conflicting(actions(), &there),
        vec![action("t/b", "out/b"), action("t/b2", "out/b")]
    );
}

#[test]
fn strategy_follows_the_switches() {
    assert_eq!(ConflictStrategy::from_flags(false, false), Some(ConflictStrategy::Fail));
    assert_eq!(ConflictStrategy::from_flags(true, false), Some(ConflictStrategy::Overwrite));
    assert_eq!(ConflictStrategy::from_flags(false, true), Some(ConflictStrategy::Skip));
    assert_eq!(ConflictStrategy::from_flags(true, true), None);
}
