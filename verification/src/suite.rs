//! Results of the end-to-end test runs.
use vstd::prelude::*;
use std::time::Duration;
use crate::text::{decimal, u64_to_string};

verus! {

/// The outcome of one end-to-end test.
#[derive(Debug)]
pub struct TestResult {
    pub name: String,
    pub passed: bool,
    pub duration: Duration,
    pub message: Option<String>,
}

/// How many results of a sequence passed.
pub open spec fn count_passed(rs: Seq<TestResult>) -> nat
    decreases rs.len(),
{
    if rs.len() == 0 {
        0
    } else {
        count_passed(rs.drop_last()) + if rs.last().passed {
            1nat
        } else {
            0nat
        }
    }
}

/// How many results of a sequence failed.
pub open spec fn count_failed(rs: Seq<TestResult>) -> nat
    decreases rs.len(),
{
    if rs.len() == 0 {
        0
    } else {
        count_failed(rs.drop_last()) + if rs.last().passed {
            0nat
        } else {
            1nat
        }
    }
}

/// Every result counts once: as passed or as failed.
pub proof fn law_passed_plus_failed(rs: Seq<TestResult>)
    ensures
        count_passed(rs) + count_failed(rs) == rs.len(),
    decreases rs.len(),
{
    if rs.len() > 0 {
        law_passed_plus_failed(rs.drop_last());
    }
}

/// The results of a run, in the order they were added.
#[derive(Debug)]
pub struct TestSuite {
    pub results: Vec<TestResult>,
}

/// The summary line printed after the results.
pub open spec fn summary_text(rs: Seq<TestResult>) -> Seq<char> {
    "SUMMARY: Total: "@ + decimal(rs.len()) + " | Passed: "@ + decimal(count_passed(rs))
        + " | Failed: "@ + decimal(count_failed(rs))
}

impl TestSuite {
    /// A suite with no results.
    pub fn new() -> (s: Self)
        ensures
            s.results@.len() == 0,
    {
        TestSuite { results: Vec::new() }
    }

    /// Appends a result.
    pub fn add_result(&mut self, result: TestResult)
        ensures
            final(self).results@ == old(self).results@.push(result),
    {
        self.results.push(result);
    }

    /// How many results passed.
    pub fn passed(&self) -> (n: usize)
        ensures
            n == count_passed(self.results@),
    {
        let mut n: usize = 0;
        let mut i: usize = 0;
        while i < self.results.len()
            invariant
                i <= self.results.len(),
                n == count_passed(self.results@.take(i as int)),
                n <= i,
            decreases self.results.len() - i,
        {
            assert(self.results@.take(i + 1).drop_last() =~= self.results@.take(i as int));
            if self.results[i].passed {
                n = n + 1;
            }
            i = i + 1;
        }
        assert(self.results@.take(self.results.len() as int) =~= self.results@);
        n
    }

    /// How many results failed.
    pub fn failed(&self) -> (n: usize)
        ensures
            n == count_failed(self.results@),
    {
        let mut n: usize = 0;
        let mut i: usize = 0;
        while i < self.results.len()
            invariant
                i <= self.results.len(),
                n == count_failed(self.results@.take(i as int)),
                n <= i,
            decreases self.results.len() - i,
        {
            assert(self.results@.take(i + 1).drop_last() =~= self.results@.take(i as int));
            if !self.results[i].passed {
                n = n + 1;
            }
            i = i + 1;
        }
        assert(self.results@.take(self.results.len() as int) =~= self.results@);
        n
    }

    /// Whether no result failed.
    pub fn all_passed(&self) -> (b: bool)
        ensures
            b == (count_failed(self.results@) == 0),
    {
        self.failed() == 0
    }

    /// The summary line: the number of results, of passes and of failures.
    pub fn summary_line(&self) -> (s: String)
        ensures
            s@ == summary_text(self.results@),
    {
        proof {
            reveal_strlit("SUMMARY: Total: ");
            reveal_strlit(" | Passed: ");
            reveal_strlit(" | Failed: ");
        }
        let total = self.results.len();
        let p = self.passed();
        let f = self.failed();
        let mut s = String::from_str("SUMMARY: Total: ");
        s.append(u64_to_string(total as u64).as_str());
        s.append(" | Passed: ");
        s.append(u64_to_string(p as u64).as_str());
        s.append(" | Failed: ");
        s.append(u64_to_string(f as u64).as_str());
        s
    }

    /// Whether the message of a result is printed: always in verbose mode,
    /// else only for a failed result.
    pub fn shows_message(result: &TestResult, verbose: bool) -> (b: bool)
        ensures
            b == (result.message is Some && (verbose || !result.passed)),
    {
        result.message.is_some() && (verbose || !result.passed)
    }
}

impl Default for TestSuite {
    /// A suite with no results.
    fn default() -> (s: Self)
        ensures
            s.results@.len() == 0,
    {
        TestSuite::new()
    }
}

} // verus!
