use cargo_sleek::deps::check_unused_deps;

fn names(found: Vec<String>) -> Vec<String> {
    found
}

#[test]
fn reports_the_dependency_missing_from_the_lock() {
    let manifest =
        "[dependencies]\nfoo = \"1.0\"\nbar = \"2.0\"\n[dev-dependencies]\nbaz = \"3.0\"";
    let lock = "[[package]]\nname = \"foo\"\nversion = \"1.0.0\"\n";
    assert_eq!(names(check_unused_deps(manifest, lock)), vec!["bar"]);
}

#[test]
fn a_lock_that_only_holds_the_quoted_name_is_enough() {
    let manifest =
        "[dependencies]\nfoo = \"1.0\"\nbar = \"2.0\"\n[dev-dependencies]\nbaz = \"3.0\"";
    assert_eq!(names(check_unused_deps(manifest, "\"foo\"")), vec!["bar"]);
}

#[test]
fn an_empty_lock_reports_every_declared_dependency_in_manifest_order() {
    let manifest = "[package]\nname = \"demo\"\n\n[dependencies]\nzeta = \"1\"\n\
                    alpha = \"2\"\nmid = { version = \"3\" }\n";
    assert_eq!(names(check_unused_deps(manifest, "")), vec!["zeta", "alpha", "mid"]);
}

#[test]
fn nothing_is_reported_without_a_dependencies_section() {
    let manifest = "[package]\nname = \"demo\"\n[dev-dependencies]\nfoo = \"1\"\n";
    assert_eq!(names(check_unused_deps(manifest, "")), Vec::<String>::new());
    assert_eq!(names(check_unused_deps("", "")), Vec::<String>::new());
    assert_eq!(names(check_unused_deps("foo = \"1\"", "")), Vec::<String>::new());
}

#[test]
fn a_name_inside_a_longer_name_counts_as_used() {
    let manifest = "[dependencies]\nserde = \"1\"\nlog = \"0.4\"\n";
    let lock = "name = \"serde_json\"\n";
    assert_eq!(names(check_unused_deps(manifest, lock)), vec!["log"]);
}

#[test]
fn lines_and_names_are_trimmed() {
    let manifest = "  [dependencies]  \r\n\t foo\t=\t\"1\"\r\n   bar=\"2\"   \r\n";
    assert_eq!(names(check_unused_deps(manifest, "foo")), vec!["bar"]);
    let wide = "\u{a0}[dependencies]\u{3000}\n\u{2003}baz\u{2028} = \"1\"\n";
    assert_eq!(names(check_unused_deps(wide, "")), vec!["baz"]);
}

#[test]
fn a_line_without_an_equals_sign_is_a_name_as_a_whole() {
    let manifest = "[dependencies]\nlonely\n# a note\n";
    assert_eq!(names(check_unused_deps(manifest, "")), vec!["lonely", "# a note"]);
    assert_eq!(names(check_unused_deps(manifest, "lonely # a note")), Vec::<String>::new());
}

#[test]
fn blank_lines_are_never_reported() {
    let manifest = "[dependencies]\n\n   \nfoo = \"1\"\n\n";
    assert_eq!(names(check_unused_deps(manifest, "")), vec!["foo"]);
    assert_eq!(names(check_unused_deps("[dependencies]\n= \"1\"\n", "")), Vec::<String>::new());
}

#[test]
fn only_the_first_equals_sign_splits_a_line() {
    let manifest = "[dependencies]\nfoo = { version = \"=1.2\" }\n";
    assert_eq!(names(check_unused_deps(manifest, "")), vec!["foo"]);
}

#[test]
fn any_other_section_header_closes_the_section() {
    let manifest = "[dependencies]\na = \"1\"\n[features]\nb = []\n[dependencies.c]\n\
                    version = \"1\"\n[dependencies] # again\nd = \"1\"\n";
    assert_eq!(names(check_unused_deps(manifest, "")), vec!["a"]);
}

#[test]
fn the_section_may_open_again() {
    let manifest = "[dependencies]\na = \"1\"\n[features]\nb = []\n[dependencies]\nc = \"1\"\n";
    assert_eq!(names(check_unused_deps(manifest, "")), vec!["a", "c"]);
}

#[test]
fn a_name_is_reported_as_often_as_it_is_declared() {
    let manifest = "[dependencies]\na = \"1\"\na = \"2\"\n";
    assert_eq!(names(check_unused_deps(manifest, "b")), vec!["a", "a"]);
}
