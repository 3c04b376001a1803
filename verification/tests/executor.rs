use cargo_sleek::executor::{
    execute_cargo_command, exit_code, key_for, ChildEnd, KeyPolicy, BUILD_TOOL,
};
use cargo_sleek::stats::{save_stats, StatsStore, UsageRecord};

fn words(list: &[&str]) -> Vec<String> {
    list.iter().map(|w| w.to_string()).collect()
}

#[test]
fn the_exit_code_of_the_tool_is_passed_on_and_the_command_is_counted() {
    let mut store = StatsStore::new();
    let argv = execute_cargo_command(&mut store, KeyPolicy::CommandOnly, "build", &words(&[]), 42);
    assert_eq!(argv, words(&["build"]));
    assert_eq!(store.count("build"), 1);
    assert_eq!(exit_code(ChildEnd::Exited(Some(7))), 7);
    assert_eq!(store.count("build"), 1);
}

#[test]
fn the_command_is_counted_whatever_comes_of_the_run() {
    let ends = [
        ChildEnd::Exited(Some(0)),
        ChildEnd::Exited(Some(101)),
        ChildEnd::Exited(None),
        ChildEnd::SpawnFailed,
    ];
    for end in ends {
        let mut store = StatsStore::new();
        execute_cargo_command(&mut store, KeyPolicy::CommandOnly, "test", &words(&["--all"]), 5);
        let _ = exit_code(end);
        assert_eq!(
            save_stats(&store),
            vec![UsageRecord { name: "test".to_string(), count: 1, last_used: 5 }]
        );
    }
}

#[test]
fn exit_codes_are_passed_on_unchanged() {
    assert_eq!(exit_code(ChildEnd::Exited(Some(0))), 0);
    assert_eq!(exit_code(ChildEnd::Exited(Some(1))), 1);
    assert_eq!(exit_code(ChildEnd::Exited(Some(-1))), -1);
    assert_eq!(exit_code(ChildEnd::Exited(Some(255))), 255);
    assert_eq!(exit_code(ChildEnd::Exited(Some(i32::MIN))), i32::MIN);
}

#[test]
fn a_child_without_a_code_and_a_failed_start_give_one() {
    assert_eq!(exit_code(ChildEnd::Exited(None)), 1);
    assert_eq!(exit_code(ChildEnd::SpawnFailed), 1);
}

#[test]
fn commands_are_handed_to_cargo() {
    assert_eq!(BUILD_TOOL, "cargo");
}

#[test]
fn arguments_are_forwarded_as_they_came() {
    let mut store = StatsStore::new();
    let args = words(&["--release", "", "--", "a b", "-x=1"]);
    let argv = execute_cargo_command(&mut store, KeyPolicy::CommandOnly, "run", &args, 1);
    assert_eq!(argv, words(&["run", "--release", "", "--", "a b", "-x=1"]));
}

#[test]
fn the_command_alone_is_the_key_by_default() {
    assert_eq!(KeyPolicy::default(), KeyPolicy::CommandOnly);
    let mut store = StatsStore::new();
    execute_cargo_command(&mut store, KeyPolicy::default(), "build", &words(&["--release"]), 1);
    execute_cargo_command(&mut store, KeyPolicy::default(), "build", &words(&[]), 2);
    assert_eq!(store.count("build"), 2);
    assert_eq!(store.len(), 1);
}

#[test]
fn the_command_line_may_be_the_key() {
    assert_eq!(
        key_for(KeyPolicy::CommandLine, "run", &words(&["run", "--release"])),
        "run run --release"
    );
    assert_eq!(key_for(KeyPolicy::CommandLine, "build", &words(&[])), "build");
    assert_eq!(key_for(KeyPolicy::CommandLine, "t", &words(&["", "x"])), "t  x");
    assert_eq!(key_for(KeyPolicy::CommandOnly, "run", &words(&["--release"])), "run");
    let mut store = StatsStore::new();
    execute_cargo_command(&mut store, KeyPolicy::CommandLine, "build", &words(&["--release"]), 1);
    execute_cargo_command(&mut store, KeyPolicy::CommandLine, "build", &words(&[]), 2);
    execute_cargo_command(&mut store, KeyPolicy::CommandLine, "build", &words(&["--release"]), 3);
    assert_eq!(store.count("build --release"), 2);
    assert_eq!(store.count("build"), 1);
}
