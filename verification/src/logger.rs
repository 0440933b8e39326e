//! The shape of a log line.

use crate::text::{chars_of, contains_text, first_occurrence, matches_at, occurs_at, slice_text};
use vstd::prelude::*;

verus! {

/// The filter of the log unless the environment names another one.
pub open spec fn default_filter() -> Seq<char> {
    "info"@
}

/// The filter of the log unless the environment names another one.
pub fn default_log_filter() -> (filter: String)
    ensures
        filter@ == default_filter(),
{
    String::from_str("info")
}

/// The part of a target behind its last `::`, or all of it where it has
/// none. The separators are found from the left, and none of them
/// overlaps the one before it.
pub open spec fn short_target(target: Seq<char>) -> Seq<char>
    decreases target.len(),
{
    if contains_text(target, "::"@) {
        let at = choose|i: int| first_occurrence(target, "::"@, i);
        if 0 <= at && at + 2 <= target.len() {
            short_target(target.skip(at + 2))
        } else {
            target
        }
    } else {
        target
    }
}

/// Behind the first `::` of a target stands what is left to look at.
proof fn lemma_skip_separator(target: Seq<char>, at: int)
    requires
        first_occurrence(target, "::"@, at),
        "::"@.len() == 2,
    ensures
        short_target(target) == short_target(target.skip(at + 2)),
{
    let k = choose|i: int| first_occurrence(target, "::"@, i);
    if k < at {
        assert(false);
    }
    if at < k {
        assert(false);
    }
}

/// The part of a target behind its last `::`.
pub fn target_name(target: &str) -> (name: String)
    ensures
        name@ == short_target(target@),
{
    let chars = chars_of(target);
    let separator = chars_of("::");
    proof {
        reveal_strlit("::");
    }
    let n = chars.len();
    let mut start: usize = 0;
    let mut i: usize = 0;
    assert(target@.skip(0) =~= target@);
    while i < n
        invariant
            n == chars@.len(),
            chars@ == target@,
            separator@ == "::"@,
            separator@.len() == 2,
            start <= i <= n,
            short_target(target@) == short_target(target@.skip(start as int)),
            forall|j: int| 0 <= j < i - start ==> !occurs_at(target@.skip(start as int), "::"@, j),
        decreases n - i,
    {
        let ghost rest = target@.skip(start as int);
        if matches_at(&chars, &separator, i) {
            proof {
                assert(rest.subrange(i - start, i - start + 2) =~= target@.subrange(
                    i as int,
                    i + 2,
                ));
                assert(first_occurrence(rest, "::"@, i - start));
                lemma_skip_separator(rest, i - start);
                assert(rest.skip(i - start + 2) =~= target@.skip(i + 2));
            }
            i += 2;
            start = i;
        } else {
            proof {
                if i + 2 <= n {
                    assert(rest.subrange(i - start, i - start + 2) =~= target@.subrange(
                        i as int,
                        i + 2,
                    ));
                }
            }
            i += 1;
        }
    }
    proof {
        let rest = target@.skip(start as int);
        assert forall|j: int| !occurs_at(rest, "::"@, j) by {
            if 0 <= j && j + 2 <= rest.len() {
                assert(j < i - start);
            }
        }
    }
    let name = slice_text(target, start, n);
    assert(name@ =~= target@.skip(start as int));
    name
}

/// A log line: time, the first letter of the level and the short target
/// in brackets, then the message.
pub open spec fn line_text(
    time: Seq<char>,
    level: Seq<char>,
    target: Seq<char>,
    message: Seq<char>,
) -> Seq<char> {
    let initial = if level.len() > 0 {
        level.take(1)
    } else {
        "I"@
    };
    "["@ + time + " "@ + initial + " "@ + short_target(target) + "] "@ + message
}

/// Formats a log line.
pub fn log_line(time: &str, level: &str, target: &str, message: &str) -> (line: String)
    ensures
        line@ == line_text(time@, level@, target@, message@),
{
    let level_chars = chars_of(level);
    let initial = if level_chars.len() > 0 {
        let first = slice_text(level, 0, 1);
        assert(first@ =~= level@.take(1));
        first
    } else {
        String::from_str("I")
    };
    let mut line = String::from_str("[");
    line.append(time);
    line.append(" ");
    line.append(initial.as_str());
    line.append(" ");
    line.append(target_name(target).as_str());
    line.append("] ");
    line.append(message);
    line
}

} // verus!
