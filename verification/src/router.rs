//! The subcommand router: which handler an invocation goes to.
use crate::text::{chars_of, same_chars};
use vstd::prelude::*;

verus! {

/// Where an invocation is dispatched to.
#[derive(Clone, Copy, Debug, PartialEq, Eq, Structural)]
pub enum Route {
    /// `stats`: show the usage table.
    ShowStats,
    /// `reset`: empty the statistics, if confirmed.
    ResetStats,
    /// `check-deps`: look for declared dependencies that the lock never mentions.
    CheckDependencies,
    /// `build-time`: profile a build.
    ProfileBuild,
    /// Any other token: hand the invocation on to the build tool unchanged.
    Passthrough,
}

/// The route of a subcommand token. The four analytic names are reserved;
/// every other token is a passthrough command.
pub open spec fn route_of(token: Seq<char>) -> Route {
    if token == "stats"@ {
        Route::ShowStats
    } else if token == "reset"@ {
        Route::ResetStats
    } else if token == "check-deps"@ {
        Route::CheckDependencies
    } else if token == "build-time"@ {
        Route::ProfileBuild
    } else {
        Route::Passthrough
    }
}

/// Classifies a subcommand token.
pub fn route(token: &str) -> (r: Route)
    ensures
        r == route_of(token@),
{
    let chars = chars_of(token);
    if same_chars(chars.as_slice(), chars_of("stats").as_slice()) {
        Route::ShowStats
    } else if same_chars(chars.as_slice(), chars_of("reset").as_slice()) {
        Route::ResetStats
    } else if same_chars(chars.as_slice(), chars_of("check-deps").as_slice()) {
        Route::CheckDependencies
    } else if same_chars(chars.as_slice(), chars_of("build-time").as_slice()) {
        Route::ProfileBuild
    } else {
        Route::Passthrough
    }
}

} // verus!
