//! Heuristic detection of dependencies that a manifest declares and a lock
//! description never mentions.
//!
//! The analysis is textual. A declared name counts as used when it occurs
//! anywhere in the lock text as a substring, so a name that is part of a longer
//! one (`serde` in `serde_json`) is never reported, and nothing is known about
//! whether the code really uses a dependency. This is the intended behaviour of
//! the analysis, not an approximation of a dependency-graph resolver.
use crate::text::{
    before, chars_of, contains, find, lines, occurs_in, same_chars, split_first_line, string_of,
    trim, trimmed,
};
use vstd::prelude::*;
use vstd::slice::*;

verus! {

/// A trimmed line that opens a manifest section.
pub open spec fn is_section_header(line: Seq<char>) -> bool {
    line.len() > 0 && line.first() == '['
}

/// A trimmed line that opens the dependencies section.
pub open spec fn is_dependencies_header(line: Seq<char>) -> bool {
    line == "[dependencies]"@
}

/// The dependency name that a trimmed line declares: what stands before the
/// first `=`, or the whole line where there is none, trimmed.
pub open spec fn declared_name(line: Seq<char>) -> Seq<char> {
    trimmed(before(line, '='))
}

/// Whether the scan is inside the dependencies section after the given lines:
/// the last section header among them is the dependencies header.
pub open spec fn section_open(lines: Seq<Seq<char>>) -> bool
    decreases lines.len(),
{
    if lines.len() == 0 {
        false
    } else {
        let line = trimmed(lines.last());
        if is_dependencies_header(line) {
            true
        } else if is_section_header(line) {
            false
        } else {
            section_open(lines.drop_last())
        }
    }
}

/// Whether line `i` opens the dependencies section and no later line closes
/// it: line `i` is the dependencies header and no section header follows.
pub open spec fn opens_section_at(lines: Seq<Seq<char>>, i: int) -> bool {
    &&& 0 <= i < lines.len()
    &&& is_dependencies_header(trimmed(lines[i]))
    &&& forall|j: int| i < j < lines.len() ==> !is_section_header(trimmed(#[trigger] lines[j]))
}

/// The scan is inside the dependencies section after the given lines exactly
/// when one of them is the dependencies header and no section header follows
/// it.
pub proof fn lemma_section_open(lines: Seq<Seq<char>>)
    ensures
        section_open(lines) <==> exists|i: int| opens_section_at(lines, i),
    decreases lines.len(),
{
    if lines.len() > 0 {
        let earlier = lines.drop_last();
        let last = lines.len() - 1;
        let line = trimmed(lines.last());
        lemma_section_open(earlier);
        if is_dependencies_header(line) {
            assert(opens_section_at(lines, last));
        } else if is_section_header(line) {
            assert forall|i: int| !opens_section_at(lines, i) by {}
        } else {
            if section_open(earlier) {
                let i = choose|i: int| opens_section_at(earlier, i);
                assert forall|j: int| i < j < lines.len() implies !is_section_header(
                    trimmed(#[trigger] lines[j]),
                ) by {
                    if j < last {
                        assert(lines[j] == earlier[j]);
                    }
                }
                assert(opens_section_at(lines, i));
            } else {
                assert forall|i: int| !opens_section_at(lines, i) by {
                    if opens_section_at(lines, i) {
                        assert forall|j: int| i < j < earlier.len() implies !is_section_header(
                            trimmed(#[trigger] earlier[j]),
                        ) by {}
                        assert(opens_section_at(earlier, i));
                    }
                }
            }
        }
    }
}

/// Whether the last of the given lines declares a dependency that is reported
/// against `lock`: the line is no section header, stands inside the
/// dependencies section, and its declared name does not occur in `lock`.
pub open spec fn reports_last(lines: Seq<Seq<char>>, lock: Seq<char>) -> bool
    recommends
        lines.len() > 0,
{
    let line = trimmed(lines.last());
    &&& !is_section_header(line)
    &&& section_open(lines.drop_last())
    &&& !occurs_in(declared_name(line), lock)
}

/// The names reported for the given manifest lines, in line order.
pub open spec fn unused_in(lines: Seq<Seq<char>>, lock: Seq<char>) -> Seq<Seq<char>>
    decreases lines.len(),
{
    if lines.len() == 0 {
        Seq::empty()
    } else if reports_last(lines, lock) {
        unused_in(lines.drop_last(), lock).push(declared_name(trimmed(lines.last())))
    } else {
        unused_in(lines.drop_last(), lock)
    }
}

/// No reported name occurs in the lock text, and no more names are reported
/// than there are lines.
pub proof fn lemma_unused_absent_from_lock(lines: Seq<Seq<char>>, lock: Seq<char>)
    ensures
        unused_in(lines, lock).len() <= lines.len(),
        forall|k: int|
            0 <= k < unused_in(lines, lock).len() ==> !occurs_in(
                #[trigger] unused_in(lines, lock)[k],
                lock,
            ),
    decreases lines.len(),
{
    if lines.len() > 0 {
        lemma_unused_absent_from_lock(lines.drop_last(), lock);
    }
}

/// The declared dependencies of `manifest` that do not occur in `lock`.
pub open spec fn unused_dependencies(manifest: Seq<char>, lock: Seq<char>) -> Seq<Seq<char>> {
    unused_in(lines(manifest), lock)
}

/// Reports the dependencies that `manifest` declares in its `[dependencies]`
/// section and that `lock` does not mention, in manifest order.
pub fn check_unused_deps(manifest: &str, lock: &str) -> (unused: Vec<String>)
    ensures
        unused.deep_view() == unused_dependencies(manifest@, lock@),
{
    let text = chars_of(manifest);
    let hay = chars_of(lock);
    let header = chars_of("[dependencies]");
    let mut rest: &[char] = text.as_slice();
    let mut in_section = false;
    let mut unused: Vec<String> = Vec::new();
    let ghost mut done: Seq<Seq<char>> = Seq::empty();
    while rest.len() > 0
        invariant
            lines(text@) == done + lines(rest@),
            in_section == section_open(done),
            unused.deep_view() == unused_in(done, hay@),
            header@ == "[dependencies]"@,
        decreases rest@.len(),
    {
        let (raw, tail) = split_first_line(rest);
        let line = trim(raw);
        proof {
            assert(done.push(raw@).drop_last() == done);
        }
        if same_chars(line, header.as_slice()) {
            proof {
                reveal_strlit("[dependencies]");
            }
            in_section = true;
        } else if line.len() > 0 && line[0] == '[' {
            in_section = false;
        } else if in_section {
            let name = trim(
                match find(line, '=') {
                    Some(i) => slice_subrange(line, 0, i),
                    None => line,
                },
            );
            if !contains(hay.as_slice(), name) {
                unused.push(string_of(name));
            }
        }
        proof {
            done = done.push(raw@);
        }
        rest = tail;
    }
    unused
}

} // verus!
