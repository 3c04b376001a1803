//! Build profiling: what one run of the build tool with its timings flag
//! amounts to, once the run itself is over.
use crate::text::{chars_of, contains, lines, occurs_in, split_first_line, string_of, text_of};
use vstd::prelude::*;
use vstd::string::StringExecFns;

verus! {

/// What was observed of one run of the build tool.
#[derive(Clone, Debug, PartialEq, Eq)]
pub struct BuildRun {
    /// Whether the tool reported success.
    pub succeeded: bool,
    /// The wall-clock time from the start of the run to its end.
    pub elapsed_ms: u64,
    /// Everything the tool wrote, as captured.
    pub output: String,
    /// The size of the build directory in bytes, where it could be read.
    pub artifact_bytes: Option<u64>,
}

/// Why a build could not be profiled.
#[derive(Clone, Copy, Debug, PartialEq, Eq, Structural)]
pub enum ProfilingError {
    /// The build tool could not be started.
    SpawnFailed,
}

/// How the profiled build ended, and what is reported of it.
#[derive(Clone, Copy, Debug, PartialEq, Eq, Structural)]
pub enum BuildOutcome {
    /// The tool reported a failure; neither size nor timing detail is reported.
    Failed,
    /// The tool reported success.
    Completed {
        /// The approximate size of the build in kilobytes, 0 where unknown.
        size_kb: u64,
        /// Whether to mention where the timing report was saved.
        mention_report: bool,
    },
}

/// The result of one profiling run.
#[derive(Clone, Debug, PartialEq, Eq)]
pub struct BuildTiming {
    pub duration_ms: u64,
    /// The raw output of the tool.
    pub report_text: String,
    /// The last line of the output that names a slowest unit, if any.
    pub slowest_unit: Option<String>,
    pub outcome: BuildOutcome,
}

/// The arguments with which the build tool is run for profiling: a build
/// with its timings flag.
pub open spec fn profiling_arguments() -> Seq<Seq<char>> {
    seq!["build"@, "--timings"@]
}

/// The last of the given lines in which `marker` occurs.
pub open spec fn last_line_with(lines: Seq<Seq<char>>, marker: Seq<char>) -> Option<Seq<char>>
    decreases lines.len(),
{
    if lines.len() == 0 {
        None
    } else if occurs_in(marker, lines.last()) {
        Some(lines.last())
    } else {
        last_line_with(lines.drop_last(), marker)
    }
}

/// The last line of `output` that contains `slowest`.
pub open spec fn slowest_unit(output: Seq<char>) -> Option<Seq<char>> {
    last_line_with(lines(output), "slowest"@)
}

/// The approximate size in kilobytes of a build directory of the given size
/// in bytes; 0 where the size is not known.
pub open spec fn size_in_kb(artifact_bytes: Option<u64>) -> u64 {
    match artifact_bytes {
        Some(bytes) => bytes / 1024,
        None => 0,
    }
}

/// What is reported of a run that ended with the given status.
pub open spec fn outcome_of(succeeded: bool, artifact_bytes: Option<u64>, verbose: bool)
    -> BuildOutcome {
    if succeeded {
        BuildOutcome::Completed { size_kb: size_in_kb(artifact_bytes), mention_report: verbose }
    } else {
        BuildOutcome::Failed
    }
}

/// `last_line_with` finds a line that contains the marker and has no such line
/// behind it, and finds none only where no line contains the marker.
pub proof fn lemma_last_line_with(lines: Seq<Seq<char>>, marker: Seq<char>)
    ensures
        match last_line_with(lines, marker) {
            Some(line) => exists|i: int|
                {
                    &&& 0 <= i < lines.len()
                    &&& #[trigger] lines[i] == line
                    &&& occurs_in(marker, line)
                    &&& forall|j: int|
                        i < j < lines.len() ==> !occurs_in(marker, #[trigger] lines[j])
                },
            None => forall|i: int| 0 <= i < lines.len() ==> !occurs_in(marker, #[trigger] lines[i]),
        },
    decreases lines.len(),
{
    if lines.len() > 0 {
        let earlier = lines.drop_last();
        lemma_last_line_with(earlier, marker);
        if !occurs_in(marker, lines.last()) {
            match last_line_with(earlier, marker) {
                Some(line) => {
                    let i = choose|i: int|
                        {
                            &&& 0 <= i < earlier.len()
                            &&& #[trigger] earlier[i] == line
                            &&& occurs_in(marker, line)
                            &&& forall|j: int|
                                i < j < earlier.len() ==> !occurs_in(marker, #[trigger] earlier[j])
                        };
                    assert forall|j: int| i < j < lines.len() implies !occurs_in(
                        marker,
                        #[trigger] lines[j],
                    ) by {
                        if j < earlier.len() {
                            assert(earlier[j] == lines[j]);
                        }
                    }
                },
                None => {
                    assert forall|i: int| 0 <= i < lines.len() implies !occurs_in(
                        marker,
                        #[trigger] lines[i],
                    ) by {
                        if i < earlier.len() {
                            assert(earlier[i] == lines[i]);
                        }
                    }
                },
            }
        }
    }
}

/// The arguments with which to run the build tool for profiling.
pub fn timing_arguments() -> (argv: Vec<String>)
    ensures
        argv.deep_view() == profiling_arguments(),
{
    let mut argv: Vec<String> = Vec::new();
    argv.push(String::from_str("build"));
    argv.push(String::from_str("--timings"));
    argv
}

/// Finds the last line of the tool's output that contains `slowest`.
pub fn find_slowest_unit(output: &str) -> (unit: Option<String>)
    ensures
        text_of(unit) == slowest_unit(output@),
{
    let text = chars_of(output);
    let marker = chars_of("slowest");
    let mut rest: &[char] = text.as_slice();
    let mut found: Option<&[char]> = None;
    let ghost mut done: Seq<Seq<char>> = Seq::empty();
    while rest.len() > 0
        invariant
            lines(text@) == done + lines(rest@),
            marker@ == "slowest"@,
            match found {
                Some(line) => last_line_with(done, marker@) == Some(line@),
                None => last_line_with(done, marker@) is None,
            },
        decreases rest@.len(),
    {
        let (line, tail) = split_first_line(rest);
        proof {
            assert(done.push(line@).drop_last() == done);
        }
        if contains(line, marker.as_slice()) {
            found = Some(line);
        }
        proof {
            done = done.push(line@);
        }
        rest = tail;
    }
    match found {
        Some(line) => Some(string_of(line)),
        None => None,
    }
}

/// Sums up a profiling run: `run` is what was observed of the build tool, or
/// `None` where it could not be started.
pub fn analyze_build_time(run: Option<BuildRun>, verbose: bool) -> (result: Result<
    BuildTiming,
    ProfilingError,
>)
    ensures
        run is None ==> result == Err::<BuildTiming, ProfilingError>(ProfilingError::SpawnFailed),
        run matches Some(seen) ==> (result matches Ok(timing) && {
            &&& timing.duration_ms == seen.elapsed_ms
            &&& timing.report_text@ == seen.output@
            &&& text_of(timing.slowest_unit) == slowest_unit(seen.output@)
            &&& timing.outcome == outcome_of(seen.succeeded, seen.artifact_bytes, verbose)
        }),
{
    match run {
        None => Err(ProfilingError::SpawnFailed),
        Some(seen) => {
            let slowest_unit = find_slowest_unit(seen.output.as_str());
            let outcome = if seen.succeeded {
                let size_kb = match seen.artifact_bytes {
                    Some(bytes) => bytes / 1024,
                    None => 0,
                };
                BuildOutcome::Completed { size_kb, mention_report: verbose }
            } else {
                BuildOutcome::Failed
            };
            Ok(
                BuildTiming {
                    duration_ms: seen.elapsed_ms,
                    report_text: seen.output,
                    slowest_unit,
                    outcome,
                },
            )
        },
    }
}

} // verus!
