//! Outcome accumulation and reporting: per-test results, the retention
//! policy for end-of-run detail, the aggregate tallies, and the
//! deterministic coloring of service names for log rendering.

use vstd::prelude::*;

verus! {

/// One line of live log output, tagged with the service that produced it.
#[derive(Debug)]
pub struct LogLine {
    pub name: String,
    pub data: String,
}

/// A 24-bit terminal color.
#[derive(Clone, Copy, Debug, PartialEq, Eq, Structural)]
pub struct Rgb {
    pub r: u8,
    pub g: u8,
    pub b: u8,
}

/// One round of the rolling hash behind the service-name coloring: shift the
/// accumulator left by five, fold the five evicted bits back in, then mix in
/// the next character.
pub open spec fn hash_step(h: u32, c: char) -> u32 {
    ((h << 5) ^ ((h & 0xf800_0000u32) >> 27)) ^ (c as u32)
}

/// The rolling hash of a whole name, starting from zero.
pub open spec fn name_hash(s: Seq<char>) -> u32
    decreases s.len(),
{
    if s.len() == 0 {
        0u32
    } else {
        hash_step(name_hash(s.drop_last()), s.last())
    }
}

/// The color a service name renders with: the top three bytes of its hash.
/// A pure function of the name, so the same name always gets the same color.
pub open spec fn color_of(s: Seq<char>) -> Rgb {
    let h = name_hash(s);
    Rgb {
        r: ((h >> 24) & 0xff) as u8,
        g: ((h >> 16) & 0xff) as u8,
        b: ((h >> 8) & 0xff) as u8,
    }
}

/// Equal service names always render the same color, on every run: the color
/// is a function of the name's characters and of nothing else.
pub proof fn lemma_color_deterministic(a: Seq<char>, b: Seq<char>)
    requires
        a == b,
    ensures
        color_of(a) == color_of(b),
{
}

impl LogLine {
    /// Picks the color for this line's service name.
    pub fn name_color(&self) -> (c: Rgb)
        ensures
            c == color_of(self.name@),
    {
        let s = self.name.as_str();
        let n = s.unicode_len();
        let mut h: u32 = 0;
        let mut i: usize = 0;
        while i < n
            invariant
                n == s@.len(),
                s@ == self.name@,
                i <= n,
                h == name_hash(s@.take(i as int)),
            decreases n - i,
        {
            let ch = s.get_char(i);
            proof {
                assert(s@.take(i + 1).drop_last() =~= s@.take(i as int));
            }
            let high: u32 = h & 0xf800_0000u32;
            h = ((h << 5u32) ^ (high >> 27u32)) ^ (ch as u32);
            i = i + 1;
        }
        proof {
            assert(s@.take(n as int) =~= s@);
        }
        assert((h >> 24) & 0xff <= 0xff) by (bit_vector);
        assert((h >> 16) & 0xff <= 0xff) by (bit_vector);
        assert((h >> 8) & 0xff <= 0xff) by (bit_vector);
        Rgb {
            r: ((h >> 24) & 0xff) as u8,
            g: ((h >> 16) & 0xff) as u8,
            b: ((h >> 8) & 0xff) as u8,
        }
    }
}

/// The recorded result of one executed test.
#[derive(Debug)]
pub enum TestOutcome {
    Pass,
    Fail { output: String },
    Ignore,
}

/// One test's name, outcome, and the log lines captured while it ran.
#[derive(Debug)]
pub struct TestResult {
    pub name: String,
    pub outcome: TestOutcome,
    pub logs: Option<Vec<LogLine>>,
}

impl TestResult {
    pub fn pass(name: &str, logs: Option<Vec<LogLine>>) -> (r: Self)
        ensures
            r.name@ == name@,
            r.outcome is Pass,
            r.logs == logs,
    {
        TestResult { name: String::from_str(name), outcome: TestOutcome::Pass, logs }
    }

    pub fn fail(name: &str, e: String, logs: Option<Vec<LogLine>>) -> (r: Self)
        ensures
            r.name@ == name@,
            r.outcome matches TestOutcome::Fail { output } && output == e,
            r.logs == logs,
    {
        TestResult { name: String::from_str(name), outcome: TestOutcome::Fail { output: e }, logs }
    }

    pub fn ignore(name: &str) -> (r: Self)
        ensures
            r.name@ == name@,
            r.outcome is Ignore,
            r.logs is None,
    {
        TestResult { name: String::from_str(name), outcome: TestOutcome::Ignore, logs: None }
    }
}

/// How many of the outcomes in a history are passes.
pub open spec fn count_pass(s: Seq<TestOutcome>) -> nat
    decreases s.len(),
{
    if s.len() == 0 {
        0nat
    } else {
        count_pass(s.drop_last()) + (if s.last() is Pass {
            1nat
        } else {
            0nat
        })
    }
}

/// How many of the outcomes in a history are failures.
pub open spec fn count_fail(s: Seq<TestOutcome>) -> nat
    decreases s.len(),
{
    if s.len() == 0 {
        0nat
    } else {
        count_fail(s.drop_last()) + (if s.last() is Fail {
            1nat
        } else {
            0nat
        })
    }
}

/// How many of the outcomes in a history are ignored tests.
pub open spec fn count_ignored(s: Seq<TestOutcome>) -> nat
    decreases s.len(),
{
    if s.len() == 0 {
        0nat
    } else {
        count_ignored(s.drop_last()) + (if s.last() is Ignore {
            1nat
        } else {
            0nat
        })
    }
}

/// Every outcome is a pass, a failure, or ignored, so the three tallies
/// always add up to the number of outcomes emitted.
pub proof fn lemma_counts_partition(s: Seq<TestOutcome>)
    ensures
        count_pass(s) + count_fail(s) + count_ignored(s) == s.len(),
    decreases s.len(),
{
    if s.len() > 0 {
        lemma_counts_partition(s.drop_last());
    }
}

pub(crate) proof fn lemma_counts_push(s: Seq<TestOutcome>, o: TestOutcome)
    ensures
        count_pass(s.push(o)) == count_pass(s) + (if o is Pass {
            1int
        } else {
            0int
        }),
        count_fail(s.push(o)) == count_fail(s) + (if o is Fail {
            1int
        } else {
            0int
        }),
        count_ignored(s.push(o)) == count_ignored(s) + (if o is Ignore {
            1int
        } else {
            0int
        }),
{
    assert(s.push(o).drop_last() =~= s);
    assert(s.push(o).last() == o);
}

pub(crate) proof fn lemma_count_fail_at(s: Seq<TestOutcome>, i: int)
    requires
        0 <= i < s.len(),
        s[i] is Fail,
    ensures
        count_fail(s) >= 1,
    decreases s.len(),
{
    if i < s.len() - 1 {
        assert(s.drop_last()[i] == s[i]);
        lemma_count_fail_at(s.drop_last(), i);
    }
}

/// A run in which every outcome is a pass is reported as "ok": the pass tally
/// equals the number of tests and the failure tally is zero.
pub proof fn lemma_all_pass_reports_ok(s: Seq<TestOutcome>)
    requires
        forall|i: int| 0 <= i < s.len() ==> s[i] is Pass,
    ensures
        count_pass(s) == s.len(),
        count_fail(s) == 0,
        count_ignored(s) == 0,
    decreases s.len(),
{
    if s.len() > 0 {
        assert(s[s.len() - 1] is Pass);
        lemma_all_pass_reports_ok(s.drop_last());
    }
}

/// The end-of-run report: aggregate tallies, the overall status, and the
/// outcomes retained for detailed reprinting.
#[derive(Debug)]
pub struct Report {
    pub passed: usize,
    pub failed: usize,
    pub ignored: usize,
    /// "ok" exactly when no test failed.
    pub ok: bool,
    pub retained: Vec<TestResult>,
}

/// Accumulates outcomes as tests complete. Failing and ignored outcomes are
/// always retained for end-of-run detail; passing ones only when `log_all`
/// was chosen. The aggregate tallies cover every emitted outcome, retained or
/// not.
pub struct Emitter {
    results: Vec<TestResult>,
    log_all: bool,
    passed: usize,
    failed: usize,
    ignored: usize,
    history: Ghost<Seq<TestOutcome>>,
}

impl Emitter {
    /// The outcomes emitted so far, in order.
    pub closed spec fn emitted(&self) -> Seq<TestOutcome> {
        self.history@
    }

    /// The results retained for end-of-run detail, in order of emission.
    pub closed spec fn retained(&self) -> Seq<TestResult> {
        self.results@
    }

    /// Whether passing outcomes are retained too.
    pub closed spec fn logs_all(&self) -> bool {
        self.log_all
    }

    /// The tallies agree with the emission history.
    pub closed spec fn wf(&self) -> bool {
        &&& self.passed == count_pass(self.history@)
        &&& self.failed == count_fail(self.history@)
        &&& self.ignored == count_ignored(self.history@)
    }

    pub fn new(log_all: bool) -> (e: Self)
        ensures
            e.wf(),
            e.emitted() == Seq::<TestOutcome>::empty(),
            e.retained() == Seq::<TestResult>::empty(),
            e.logs_all() == log_all,
    {
        Emitter {
            results: Vec::new(),
            log_all,
            passed: 0,
            failed: 0,
            ignored: 0,
            history: Ghost(Seq::empty()),
        }
    }

    /// Record one completed test. Failing and ignored results are always
    /// retained; passing results only under `log_all`. Tallies count every
    /// emission either way.
    pub fn emit(&mut self, result: TestResult)
        requires
            old(self).wf(),
            old(self).emitted().len() < usize::MAX,
        ensures
            final(self).wf(),
            final(self).logs_all() == old(self).logs_all(),
            final(self).emitted() == old(self).emitted().push(result.outcome),
            result.outcome is Pass ==> final(self).retained() == (if old(self).logs_all() {
                old(self).retained().push(result)
            } else {
                old(self).retained()
            }),
            !(result.outcome is Pass) ==> final(self).retained() == old(self).retained().push(
                result,
            ),
    {
        proof {
            lemma_counts_partition(self.history@);
            lemma_counts_push(self.history@, result.outcome);
        }
        self.history = Ghost(self.history@.push(result.outcome));
        match result.outcome {
            TestOutcome::Pass => {
                self.passed = self.passed + 1;
                if self.log_all {
                    self.results.push(result);
                }
            },
            TestOutcome::Fail { .. } => {
                self.failed = self.failed + 1;
                self.results.push(result);
            },
            TestOutcome::Ignore => {
                self.ignored = self.ignored + 1;
                self.results.push(result);
            },
        }
    }

    /// Close the run: hand back the aggregate tallies, the overall status,
    /// and the retained outcomes. The status is "ok" exactly when the failure
    /// tally is zero.
    pub fn finalize(self) -> (r: Report)
        requires
            self.wf(),
        ensures
            r.passed == count_pass(self.emitted()),
            r.failed == count_fail(self.emitted()),
            r.ignored == count_ignored(self.emitted()),
            r.ok == (count_fail(self.emitted()) == 0),
            r.retained@ == self.retained(),
    {
        Report {
            passed: self.passed,
            failed: self.failed,
            ignored: self.ignored,
            ok: self.failed == 0,
            retained: self.results,
        }
    }
}

} // verus!
