//! The decisions of the test runner: which tests a name filter selects,
//! which mode a test runs in, what a solver outcome means, and when a
//! fuzzing loop goes on.  The runner's terminal output and the calls into
//! the proof-system backend live with the caller.

use vstd::prelude::*;

use vstd::string::StringSliceAdditionalSpecFns;

use crate::fuzz::Abi;

verus! {

/// The needle occurs in the haystack starting at byte `i`.
pub open spec fn contains_at(hay: Seq<u8>, needle: Seq<u8>, i: int) -> bool {
    0 <= i && i + needle.len() <= hay.len() && hay.subrange(i, i + needle.len()) == needle
}

/// The needle occurs somewhere in the haystack.
pub open spec fn spec_contains(hay: Seq<u8>, needle: Seq<u8>) -> bool {
    exists|i: int| contains_at(hay, needle, i)
}

/// Whether a test's name passes the filter: it does exactly when the
/// filter occurs in the name.  An empty filter selects every test.
pub fn test_name_matches(name: &str, filter: &str) -> (r: bool)
    ensures
        r == spec_contains(name.spec_bytes(), filter.spec_bytes()),
{
    let hay = name.as_bytes();
    let needle = filter.as_bytes();
    proof {
        assert(hay@ == name.spec_bytes());
        assert(needle@ == filter.spec_bytes());
    }
    let hay_len = hay.len();
    let needle_len = needle.len();
    if needle_len > hay_len {
        proof {
            assert forall|i: int| !contains_at(hay@, needle@, i) by {}
        }
        return false;
    }
    let mut i: usize = 0;
    while i <= hay_len - needle_len
        invariant
            hay@ == name.spec_bytes(),
            needle@ == filter.spec_bytes(),
            hay@.len() == hay_len,
            needle@.len() == needle_len,
            needle_len <= hay_len,
            i <= hay_len - needle_len + 1,
            forall|k: int| 0 <= k < i ==> !contains_at(hay@, needle@, k),
        decreases hay_len - needle_len + 1 - i,
    {
        let mut j: usize = 0;
        let mut all_equal = true;
        while j < needle_len
            invariant
                hay@.len() == hay_len,
                needle@.len() == needle_len,
                needle_len <= hay_len,
                i <= hay_len - needle_len,
                j <= needle_len,
                all_equal <==> (forall|m: int|
                    0 <= m < j ==> hay@[i + m] == needle@[m]),
            decreases needle_len - j,
        {
            if hay[i + j] != needle[j] {
                all_equal = false;
                proof {
                    assert(hay@[i as int + j as int] != needle@[j as int]);
                }
                j = needle_len;
            } else {
                proof {
                    assert(hay@[i as int + j as int] == needle@[j as int]);
                }
                j += 1;
            }
        }
        if all_equal {
            proof {
                assert forall|m: int|
                    0 <= m < needle_len implies hay@.subrange(
                    i as int,
                    i as int + needle_len as int,
                )[m] == needle@[m] by {
                    assert(hay@[i + m] == needle@[m]);
                }
                assert(hay@.subrange(i as int, i as int + needle_len as int) =~= needle@);
                assert(contains_at(hay@, needle@, i as int));
                assert(spec_contains(hay@, needle@));
            }
            return true;
        }
        proof {
            if contains_at(hay@, needle@, i as int) {
                assert forall|m: int| 0 <= m < needle_len implies hay@[i + m] == needle@[m] by {
                    assert(hay@.subrange(i as int, i as int + needle_len as int)[m]
                        == needle@[m]);
                }
            }
        }
        i += 1;
    }
    proof {
        assert forall|k: int| !contains_at(hay@, needle@, k) by {
            if k >= i {
                assert(k + needle@.len() > hay@.len());
            }
        }
    }
    false
}

/// How a single test runs.
#[derive(Clone, Copy, Debug, PartialEq, Eq, Structural)]
pub enum TestMode {
    /// The program takes parameters: fuzz them.
    Fuzz,
    /// No parameters: solve the circuit once.
    Normal,
}

/// A test with parameters is a fuzz test; one without runs once.
pub fn choose_test_mode(abi: &Abi) -> (r: TestMode)
    ensures
        r is Fuzz <==> abi.parameters@.len() > 0,
{
    if abi.parameters.len() > 0 {
        TestMode::Fuzz
    } else {
        TestMode::Normal
    }
}

/// What solving a circuit's opcodes concluded.
#[derive(Clone, Copy, Debug, PartialEq, Eq, Structural)]
pub enum SolveOutcome {
    /// The solver resolved everything.
    Solved,
    /// The solver returned leftover work; running it further is not
    /// supported here.
    UnsupportedPartial,
    /// The solver reported an unsatisfied constraint.
    Failed,
}

/// Classifies the result of one solver call from the sizes of its
/// leftover work lists and whether it reported failure.
pub fn classify_solve(
    solve_failed: bool,
    unresolved_opcodes: usize,
    unresolved_oracles: usize,
    unresolved_brilligs: usize,
) -> (r: SolveOutcome)
    ensures
        r is Failed <==> solve_failed,
        r is Solved <==> (!solve_failed && unresolved_opcodes == 0 && unresolved_oracles == 0
            && unresolved_brilligs == 0),
        r is UnsupportedPartial <==> (!solve_failed && (unresolved_opcodes > 0
            || unresolved_oracles > 0 || unresolved_brilligs > 0)),
{
    if solve_failed {
        SolveOutcome::Failed
    } else if unresolved_opcodes == 0 && unresolved_oracles == 0 && unresolved_brilligs == 0 {
        SolveOutcome::Solved
    } else {
        SolveOutcome::UnsupportedPartial
    }
}

/// The next step of a fuzzing loop.
#[derive(Clone, Copy, Debug, PartialEq, Eq, Structural)]
pub enum FuzzNext {
    /// Draw fresh calldata and solve again.
    RunAnother,
    /// Every run passed.
    AllPassed,
    /// A run failed; stop and report it.
    ReportFailure,
}

/// Decides whether a fuzzing loop draws another run: it stops at the
/// first failure, and otherwise after the configured number of runs.
pub fn fuzz_next(completed_runs: u32, fuzz_runs: u32, last_failed: bool) -> (r: FuzzNext)
    ensures
        r is ReportFailure <==> last_failed,
        r is AllPassed <==> (!last_failed && completed_runs >= fuzz_runs),
        r is RunAnother <==> (!last_failed && completed_runs < fuzz_runs),
{
    if last_failed {
        FuzzNext::ReportFailure
    } else if completed_runs >= fuzz_runs {
        FuzzNext::AllPassed
    } else {
        FuzzNext::RunAnother
    }
}

/// The verdict over a whole run of tests.
#[derive(Clone, Copy, Debug, PartialEq, Eq, Structural)]
pub enum TestRunOutcome {
    AllPassed,
    Failed { failing: u32 },
}

/// Summarizes a run: success exactly when no test failed.
pub fn summarize_test_run(failing: u32) -> (r: TestRunOutcome)
    ensures
        r is AllPassed <==> failing == 0,
        r matches TestRunOutcome::Failed { failing: f } ==> f == failing,
{
    if failing == 0 {
        TestRunOutcome::AllPassed
    } else {
        TestRunOutcome::Failed { failing }
    }
}

} // verus!
