//! The passthrough executor: what is recorded and what is run when a command
//! is handed on to the build tool, and the exit code that comes back.
//!
//! The invocation is recorded before the build tool runs, so a command that
//! fails, or that cannot be started at all, still counts as used.
use crate::stats::{count_of, recorded, track_command, well_formed, StatsStore};
use vstd::prelude::*;
use vstd::string::StringExecFns;

verus! {

/// The build tool that commands are handed on to.
pub const BUILD_TOOL: &'static str = "cargo";

/// Under which key a passthrough invocation is counted.
#[derive(Clone, Copy, Debug, PartialEq, Eq, Structural)]
pub enum KeyPolicy {
    /// The subcommand alone: `build` and `build --release` share one record.
    CommandOnly,
    /// The subcommand and its arguments, separated by single spaces.
    CommandLine,
}

impl Default for KeyPolicy {
    fn default() -> (policy: KeyPolicy)
        ensures
            policy == KeyPolicy::CommandOnly,
    {
        KeyPolicy::CommandOnly
    }
}

/// How the attempt to run the build tool ended.
#[derive(Clone, Copy, Debug, PartialEq, Eq)]
pub enum ChildEnd {
    /// The tool could not be started.
    SpawnFailed,
    /// The tool ran and ended, with its exit code where it reported one.
    Exited(Option<i32>),
}

/// `command` followed by each of `args`, separated by single spaces.
pub open spec fn command_line(command: Seq<char>, args: Seq<Seq<char>>) -> Seq<char>
    decreases args.len(),
{
    if args.len() == 0 {
        command
    } else {
        command_line(command, args.drop_last()) + seq![' '] + args.last()
    }
}

/// The key under which an invocation is counted.
pub open spec fn usage_key(policy: KeyPolicy, command: Seq<char>, args: Seq<Seq<char>>) -> Seq<
    char,
> {
    match policy {
        KeyPolicy::CommandOnly => command,
        KeyPolicy::CommandLine => command_line(command, args),
    }
}

/// The argument vector handed to the build tool: the command, then the
/// forwarded arguments as they came.
pub open spec fn forwarded(command: Seq<char>, args: Seq<Seq<char>>) -> Seq<Seq<char>> {
    seq![command] + args
}

/// The exit code of this process after the attempt to run the build tool: the
/// child's own code; 1 where the child ended without one; 1 where it could
/// not be started.
pub open spec fn exit_code_of(end: ChildEnd) -> i32 {
    match end {
        ChildEnd::Exited(Some(code)) => code,
        ChildEnd::Exited(None) => 1,
        ChildEnd::SpawnFailed => 1,
    }
}

/// Computes the key under which an invocation is counted.
pub fn key_for(policy: KeyPolicy, command: &str, args: &Vec<String>) -> (key: String)
    ensures
        key@ == usage_key(policy, command@, args.deep_view()),
{
    let mut key = String::from_str(command);
    match policy {
        KeyPolicy::CommandOnly => {},
        KeyPolicy::CommandLine => {
            let mut i: usize = 0;
            while i < args.len()
                invariant
                    i <= args.len(),
                    key@ == command_line(command@, args.deep_view().take(i as int)),
                decreases args.len() - i,
            {
                proof {
                    reveal_strlit(" ");
                    let upto = args.deep_view().take(i as int + 1);
                    assert(upto.drop_last() == args.deep_view().take(i as int));
                }
                key.append(" ");
                key.append(args[i].as_str());
                i += 1;
            }
            assert(args.deep_view().take(args.len() as int) == args.deep_view());
        },
    }
    key
}

/// Records the invocation of `command` at the instant `now` and returns the
/// argument vector with which the build tool is to be run.
pub fn execute_cargo_command(
    store: &mut StatsStore,
    policy: KeyPolicy,
    command: &str,
    args: &Vec<String>,
    now: u64,
) -> (argv: Vec<String>)
    requires
        count_of(old(store)@, usage_key(policy, command@, args.deep_view())) < u32::MAX,
    ensures
        final(store)@ == recorded(
            old(store)@,
            usage_key(policy, command@, args.deep_view()),
            now as nat,
        ),
        well_formed(final(store)@),
        argv.deep_view() == forwarded(command@, args.deep_view()),
{
    let key = key_for(policy, command, args);
    track_command(store, key.as_str(), now);
    let mut argv: Vec<String> = Vec::new();
    argv.push(String::from_str(command));
    let mut i: usize = 0;
    while i < args.len()
        invariant
            i <= args.len(),
            argv.deep_view() == seq![command@] + args.deep_view().take(i as int),
        decreases args.len() - i,
    {
        let ghost before = argv.deep_view();
        argv.push(args[i].clone());
        assert(argv.deep_view() == before.push(args[i as int]@));
        assert(args.deep_view().take(i as int + 1) == args.deep_view().take(i as int).push(
            args[i as int]@,
        ));
        i += 1;
    }
    argv
}

/// The exit code with which this process ends.
pub fn exit_code(end: ChildEnd) -> (code: i32)
    ensures
        code == exit_code_of(end),
        end is SpawnFailed ==> code != 0,
{
    match end {
        ChildEnd::Exited(Some(code)) => code,
        ChildEnd::Exited(None) => 1,
        ChildEnd::SpawnFailed => 1,
    }
}

} // verus!
