//! Results of the protocol conformance suite and their JSON report.
use vstd::prelude::*;
use std::time::Duration;
use crate::text::{decimal, push_char, u64_to_string};
use crate::tokens::duration_seconds;

verus! {

/// `Duration::from_secs`: a duration of `secs` whole seconds, as
/// [`duration_seconds`] names them.
#[verifier::external_body]
pub(crate) fn duration_from_secs(secs: u64) -> (d: Duration)
    ensures
        duration_seconds(d) == secs,
{
    Duration::from_secs(secs)
}

/// The outcome of one conformance test.
#[derive(Clone, Debug)]
pub struct TestResult {
    pub name: String,
    pub category: String,
    pub passed: bool,
    pub duration_ms: u64,
    pub error: Option<String>,
    pub spec_reference: Option<String>,
}

impl TestResult {
    /// A passed test.
    pub fn pass(name: &str, category: &str, duration_ms: u64) -> (r: Self)
        ensures
            r.name@ == name@,
            r.category@ == category@,
            r.passed,
            r.duration_ms == duration_ms,
            r.error is None,
            r.spec_reference is None,
    {
        TestResult {
            name: String::from_str(name),
            category: String::from_str(category),
            passed: true,
            duration_ms,
            error: None,
            spec_reference: None,
        }
    }

    /// A failed test with its error.
    pub fn fail(name: &str, category: &str, duration_ms: u64, error: &str) -> (r: Self)
        ensures
            r.name@ == name@,
            r.category@ == category@,
            !r.passed,
            r.duration_ms == duration_ms,
            r.error matches Some(e) && e@ == error@,
            r.spec_reference is None,
    {
        TestResult {
            name: String::from_str(name),
            category: String::from_str(category),
            passed: false,
            duration_ms,
            error: Some(String::from_str(error)),
            spec_reference: None,
        }
    }

    /// The result with a reference into the protocol specification.
    pub fn with_spec_reference(self, reference: &str) -> (r: Self)
        ensures
            r.spec_reference matches Some(s) && s@ == reference@,
            r.name == self.name,
            r.category == self.category,
            r.passed == self.passed,
            r.duration_ms == self.duration_ms,
            r.error == self.error,
    {
        let mut r = self;
        r.spec_reference = Some(String::from_str(reference));
        r
    }
}

/// The results of a conformance run and their counts.
#[derive(Clone, Debug)]
pub struct ConformanceReport {
    pub total_tests: usize,
    pub passed: usize,
    pub failed: usize,
    pub skipped: usize,
    pub results: Vec<TestResult>,
    pub duration_ms: u64,
}

impl ConformanceReport {
    /// An empty report.
    pub fn new() -> (r: Self)
        ensures
            r.total_tests == 0,
            r.passed == 0,
            r.failed == 0,
            r.skipped == 0,
            r.results@.len() == 0,
            r.duration_ms == 0,
            counts_agree(r),
    {
        ConformanceReport {
            total_tests: 0,
            passed: 0,
            failed: 0,
            skipped: 0,
            results: Vec::new(),
            duration_ms: 0,
        }
    }

    /// Records a result: one more test, counted as passed or failed.
    pub fn add_result(&mut self, result: TestResult)
        requires
            old(self).total_tests < usize::MAX,
            result.passed ==> old(self).passed < usize::MAX,
            !result.passed ==> old(self).failed < usize::MAX,
        ensures
            final(self).total_tests == old(self).total_tests + 1,
            final(self).passed == old(self).passed + if result.passed {
                1int
            } else {
                0int
            },
            final(self).failed == old(self).failed + if result.passed {
                0int
            } else {
                1int
            },
            final(self).skipped == old(self).skipped,
            final(self).results@ == old(self).results@.push(result),
            final(self).duration_ms == old(self).duration_ms,
            counts_agree(*old(self)) ==> counts_agree(*final(self)),
    {
        self.total_tests = self.total_tests + 1;
        if result.passed {
            self.passed = self.passed + 1;
        } else {
            self.failed = self.failed + 1;
        }
        self.results.push(result);
    }
}

/// The report's counts agree: every test recorded passed or failed, and
/// each has its result.
pub open spec fn counts_agree(r: ConformanceReport) -> bool {
    &&& r.total_tests == r.passed + r.failed
    &&& r.total_tests == r.results@.len()
}

/// A string with each `"` preceded by a backslash.
pub open spec fn escape_quotes(s: Seq<char>) -> Seq<char>
    decreases s.len(),
{
    if s.len() == 0 {
        Seq::empty()
    } else {
        escape_quotes(s.drop_last()) + if s.last() == '"' {
            seq!['\\', '"']
        } else {
            seq![s.last()]
        }
    }
}

/// The JSON text of `true` or `false`.
pub open spec fn bool_text(b: bool) -> Seq<char> {
    if b {
        "true"@
    } else {
        "false"@
    }
}

/// The JSON object of one result, indented as in the report.
pub open spec fn result_json(r: TestResult) -> Seq<char> {
    "    {\n      \"name\": \""@ + r.name@ + "\",\n      \"category\": \""@ + r.category@
        + "\",\n      \"passed\": "@ + bool_text(r.passed) + ",\n      \"duration_ms\": "@
        + decimal(r.duration_ms as nat) + ",\n      \"error\": "@ + match r.error {
        Some(e) => "\""@ + escape_quotes(e@) + "\""@,
        None => "null"@,
    } + "\n    }"@
}

/// The result objects, separated by a comma and a line break.
pub open spec fn results_json(rs: Seq<TestResult>) -> Seq<char>
    decreases rs.len(),
{
    if rs.len() == 0 {
        Seq::empty()
    } else if rs.len() == 1 {
        result_json(rs[0])
    } else {
        results_json(rs.drop_last()) + ",\n"@ + result_json(rs.last())
    }
}

/// The JSON report, with the pass rate given as its text.
pub open spec fn report_json(r: ConformanceReport, pass_rate: Seq<char>) -> Seq<char> {
    "{\n  \"total_tests\": "@ + decimal(r.total_tests as nat) + ",\n  \"passed\": "@ + decimal(
        r.passed as nat,
    ) + ",\n  \"failed\": "@ + decimal(r.failed as nat) + ",\n  \"pass_rate\": "@ + pass_rate
        + ",\n  \"duration_ms\": "@ + decimal(r.duration_ms as nat) + ",\n  \"results\": [\n"@
        + results_json(r.results@) + "\n  ]\n}"@
}

/// Appends `s` with each `"` escaped.
fn append_escaped(out: &mut String, s: &str)
    ensures
        final(out)@ == old(out)@ + escape_quotes(s@),
{
    let cs = crate::text::chars_of(s);
    let mut i: usize = 0;
    while i < cs.len()
        invariant
            i <= cs.len(),
            cs@ == s@,
            out@ == old(out)@ + escape_quotes(s@.take(i as int)),
        decreases cs.len() - i,
    {
        let c = cs[i];
        assert(s@.take(i + 1).drop_last() == s@.take(i as int));
        if c == '"' {
            push_char(out, '\\');
            push_char(out, '"');
        } else {
            push_char(out, c);
        }
        i = i + 1;
        assert(out@ =~= old(out)@ + escape_quotes(s@.take(i as int)));
    }
    assert(s@.take(cs.len() as int) =~= s@);
}

/// Appends the JSON object of one result.
fn append_result_json(out: &mut String, r: &TestResult)
    ensures
        final(out)@ == old(out)@ + result_json(*r),
{
    proof {
        reveal_strlit("    {\n      \"name\": \"");
        reveal_strlit("\",\n      \"category\": \"");
        reveal_strlit("\",\n      \"passed\": ");
        reveal_strlit(",\n      \"duration_ms\": ");
        reveal_strlit(",\n      \"error\": ");
        reveal_strlit("\n    }");
        reveal_strlit("\"");
        reveal_strlit("null");
        reveal_strlit("true");
        reveal_strlit("false");
    }
    let ghost start = out@;
    out.append("    {\n      \"name\": \"");
    out.append(r.name.as_str());
    out.append("\",\n      \"category\": \"");
    out.append(r.category.as_str());
    out.append("\",\n      \"passed\": ");
    if r.passed {
        out.append("true");
    } else {
        out.append("false");
    }
    out.append(",\n      \"duration_ms\": ");
    let d = u64_to_string(r.duration_ms);
    out.append(d.as_str());
    out.append(",\n      \"error\": ");
    match &r.error {
        Some(e) => {
            out.append("\"");
            append_escaped(out, e.as_str());
            out.append("\"");
        },
        None => {
            out.append("null");
        },
    }
    out.append("\n    }");
    assert(out@ =~= start + result_json(*r));
}

impl ConformanceReport {
    /// The report as JSON, with `pass_rate` as the text of the pass rate
    /// (the percentage of passed tests with two decimals).
    pub fn to_json(&self, pass_rate: &str) -> (s: String)
        ensures
            s@ == report_json(*self, pass_rate@),
    {
        proof {
            reveal_strlit("{\n  \"total_tests\": ");
            reveal_strlit(",\n  \"passed\": ");
            reveal_strlit(",\n  \"failed\": ");
            reveal_strlit(",\n  \"pass_rate\": ");
            reveal_strlit(",\n  \"duration_ms\": ");
            reveal_strlit(",\n  \"results\": [\n");
            reveal_strlit("\n  ]\n}");
            reveal_strlit(",\n");
        }
        let mut out = String::from_str("{\n  \"total_tests\": ");
        out.append(u64_to_string(self.total_tests as u64).as_str());
        out.append(",\n  \"passed\": ");
        out.append(u64_to_string(self.passed as u64).as_str());
        out.append(",\n  \"failed\": ");
        out.append(u64_to_string(self.failed as u64).as_str());
        out.append(",\n  \"pass_rate\": ");
        out.append(pass_rate);
        out.append(",\n  \"duration_ms\": ");
        out.append(u64_to_string(self.duration_ms).as_str());
        out.append(",\n  \"results\": [\n");
        let ghost head = out@;
        let mut i: usize = 0;
        while i < self.results.len()
            invariant
                i <= self.results.len(),
                out@ == head + results_json(self.results@.take(i as int)),
            decreases self.results.len() - i,
        {
            if i > 0 {
                out.append(",\n");
            }
            append_result_json(&mut out, &self.results[i]);
            proof {
                let t = self.results@.take(i + 1);
                assert(t.drop_last() =~= self.results@.take(i as int));
                assert(t.last() == self.results@[i as int]);
                if i == 0 {
                    assert(t.len() == 1);
                    assert(t[0] == self.results@[0]);
                }
            }
            i = i + 1;
        }
        assert(self.results@.take(self.results.len() as int) =~= self.results@);
        out.append("\n  ]\n}");
        out
    }
}

/// How a conformance run is set up.
#[derive(Debug)]
pub struct ConformanceConfig {
    pub router_url: String,
    pub timeout: Duration,
    pub verbose: bool,
}

impl Default for ConformanceConfig {
    /// The local router at `ws://127.0.0.1:7330`, a five-second timeout,
    /// not verbose.
    fn default() -> (c: Self)
        ensures
            c.router_url@ == "ws://127.0.0.1:7330"@,
            duration_seconds(c.timeout) == 5,
            !c.verbose,
    {
        ConformanceConfig {
            router_url: String::from_str("ws://127.0.0.1:7330"),
            timeout: duration_from_secs(5),
            verbose: false,
        }
    }
}

} // verus!
