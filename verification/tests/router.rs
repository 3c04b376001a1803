use cargo_sleek::router::{route, Route};

#[test]
fn the_analytic_subcommands_have_their_own_routes() {
    assert_eq!(route("stats"), Route::ShowStats);
    assert_eq!(route("reset"), Route::ResetStats);
    assert_eq!(route("check-deps"), Route::CheckDependencies);
    assert_eq!(route("build-time"), Route::ProfileBuild);
}

#[test]
fn every_other_token_is_passed_through() {
    for token in ["build", "run", "clean", "test", "fmt", "", "x", "+nightly"] {
        assert_eq!(route(token), Route::Passthrough);
    }
}

#[test]
fn reserved_names_match_exactly() {
    let near = ["Stats", "stats ", " stats", "stat", "statss", "check_deps", "buildtime", "RESET"];
    for token in near {
        assert_eq!(route(token), Route::Passthrough);
    }
}
