//! The per-suite runner: a state machine that walks the declared tests in
//! order, provisions one fresh environment per live test (network first,
//! then every service in declared order), captures log lines while the
//! test's unit runs, and derives each outcome.

use vstd::prelude::*;

use crate::App;
use crate::SuiteOutcome;
use crate::TestSuite;
use crate::driver::fresh_network_name;
use crate::emitter::LogLine;
use crate::emitter::TestOutcome;
use crate::emitter::TestResult;
use crate::emitter::count_fail;
use crate::emitter::lemma_counts_push;
use crate::resource::Resource;
use crate::resource::Resources;
use crate::resource::has_network;
use crate::resource::is_network_named;
use crate::resource::ledger_wf;
use crate::resource::lemma_ledger_push_network;
use crate::resource::lemma_ledger_push_service;
use crate::resource::lemma_push_keeps_network;
use crate::service::Network;
use crate::service::Service;
use crate::service::ServiceConfig;

verus! {

/// How the independently scheduled unit of one test ended: normal
/// completion, or a runtime fault carrying its extractable message, if any.
#[derive(Debug)]
pub enum UnitResult {
    Completed,
    Fault { message: Option<String> },
}

/// The failure text attached to a faulted unit: the fault's own message
/// where one could be extracted, the fixed generic text otherwise.
pub open spec fn fault_text(message: Option<String>) -> Seq<char> {
    match message {
        Some(m) => m@,
        None => "unit terminated abnormally"@,
    }
}

/// Turn a fault's extracted payload into the reported failure message.
pub fn fail_message(message: Option<String>) -> (m: String)
    ensures
        m@ == fault_text(message),
{
    match message {
        Some(m) => m,
        None => String::from_str("unit terminated abnormally"),
    }
}

/// The outcome a unit result dictates: normal completion is a Pass, a
/// runtime fault is a Fail carrying the fault's text.
pub open spec fn outcome_of_result(u: UnitResult, o: TestOutcome) -> bool {
    match u {
        UnitResult::Completed => o is Pass,
        UnitResult::Fault { message } => o matches TestOutcome::Fail { output } && output@
            == fault_text(message),
    }
}

/// How many of the declared tests are live: each non-ignored test consumes
/// exactly one unit result, ignored ones consume none.
pub open spec fn live_count(tests: Seq<crate::TestDecl>) -> nat
    decreases tests.len(),
{
    if tests.len() == 0 {
        0nat
    } else {
        live_count(tests.drop_last()) + (if tests.last().ignore {
            0nat
        } else {
            1nat
        })
    }
}

proof fn lemma_live_count_take_step(tests: Seq<crate::TestDecl>, i: int)
    requires
        0 <= i < tests.len(),
    ensures
        live_count(tests.take(i + 1)) == live_count(tests.take(i)) + (if tests[i].ignore {
            0int
        } else {
            1int
        }),
{
    assert(tests.take(i + 1).drop_last() =~= tests.take(i));
    assert(tests.take(i + 1).last() == tests[i]);
}

proof fn lemma_live_count_mono(tests: Seq<crate::TestDecl>, i: int, j: int)
    requires
        0 <= i <= j <= tests.len(),
    ensures
        live_count(tests.take(i)) <= live_count(tests.take(j)),
    decreases j - i,
{
    if i < j {
        lemma_live_count_take_step(tests, j - 1);
        lemma_live_count_mono(tests, i, j - 1);
    }
}

proof fn lemma_live_count_no_ignore(tests: Seq<crate::TestDecl>, i: int)
    requires
        0 <= i <= tests.len(),
        forall|j: int| 0 <= j < i ==> !(#[trigger] tests[j]).ignore,
    ensures
        live_count(tests.take(i)) == i,
    decreases i,
{
    if i == 0 {
        assert(tests.take(0) =~= Seq::<crate::TestDecl>::empty());
    } else {
        lemma_live_count_take_step(tests, i - 1);
        lemma_live_count_no_ignore(tests, i - 1);
    }
}

/// Where a suite's run stands between two interactions with the backend.
#[derive(Debug)]
pub enum Phase {
    /// Ready to take the next declared test, or to close the suite.
    Idle,
    /// A network named `network` was requested; its creation is in flight.
    NetPending { network: String },
    /// The network exists; service number `created` is in flight.
    ServicePending { network: String, created: usize },
    /// The environment is complete and the test unit is running.
    Running { network: String },
    /// Every test was handled, or provisioning failed: only cleanup is left.
    Done,
}

/// What the driving loop must do next for this suite.
#[derive(Debug)]
pub enum Action {
    /// Allocate an isolated network under this fresh name, with name
    /// resolution enabled, and report back.
    CreateNetwork { name: String },
    /// Create and start the application's service at index `service`,
    /// attached to `network` under an alias equal to its configured name,
    /// and report back.
    CreateService { service: usize, network: String },
    /// Run the test at index `test` as its own unit of concurrency against
    /// `app`, draining its environment's merged logs meanwhile.
    StartUnit { test: usize, app: App },
    /// Print and record this outcome.
    Emit { result: TestResult },
    /// The suite is over; roll its ledger back.
    Finished,
}

/// The first `n` provisioned services mirror the first `n` configured ones:
/// same name, in declared order, all attached to `network`.
pub open spec fn services_match(
    svcs: Seq<Service>,
    configs: Seq<ServiceConfig>,
    network: Seq<char>,
    n: int,
) -> bool {
    forall|k: int|
        0 <= k < n ==> (#[trigger] svcs[k]).name == configs[k].name && svcs[k].net.name@ == network
}

/// The service resource created for `config` on `network`, as the backend
/// identified it.
pub open spec fn provisioned_service(config: ServiceConfig, network: String, id: String) -> Service {
    Service { name: config.name, net: (Network { name: network }), id: id }
}

/// The per-suite state machine. The driving loop executes each returned
/// Action against the backend and reports what happened; every decision —
/// which test is next, what to provision, what outcome a test gets, when
/// the suite is over — is taken here.
pub struct SuiteRun {
    suite: TestSuite,
    idx: usize,
    phase: Phase,
    success: bool,
    aborted: Option<String>,
    logs: Vec<LogLine>,
    current: Vec<Service>,
    ledger: Resources,
    emitted: Ghost<Seq<TestOutcome>>,
    fed: Ghost<Seq<UnitResult>>,
}

impl SuiteRun {
    /// The application this suite provisions for every non-ignored test.
    pub closed spec fn app(&self) -> crate::AppConfig {
        self.suite.app
    }

    /// The declared tests, in order.
    pub closed spec fn tests(&self) -> Seq<crate::TestDecl> {
        self.suite.tests@
    }

    /// The index of the test being handled next (or currently).
    pub closed spec fn cur(&self) -> int {
        self.idx as int
    }

    pub closed spec fn phase(&self) -> Phase {
        self.phase
    }

    /// Whether no test has failed so far.
    pub closed spec fn success(&self) -> bool {
        self.success
    }

    /// The provisioning failure that aborted the suite, if any.
    pub closed spec fn aborted(&self) -> Option<String> {
        self.aborted
    }

    /// The log lines captured for the running test so far.
    pub closed spec fn captured(&self) -> Seq<LogLine> {
        self.logs@
    }

    /// The services provisioned for the current test so far.
    pub closed spec fn provisioned(&self) -> Seq<Service> {
        self.current@
    }

    /// Everything registered into the suite's ledger so far, across all its
    /// tests.
    pub closed spec fn ledger(&self) -> Seq<Resource> {
        self.ledger@
    }

    /// The outcomes emitted so far, in order.
    pub closed spec fn emitted(&self) -> Seq<TestOutcome> {
        self.emitted@
    }

    /// The unit results consumed so far, one per non-ignored test handled,
    /// in order.
    pub closed spec fn fed(&self) -> Seq<UnitResult> {
        self.fed@
    }

    pub closed spec fn wf(&self) -> bool {
        &&& self.idx <= self.suite.tests@.len()
        &&& ledger_wf(self.ledger@)
        &&& (self.success <==> count_fail(self.emitted@) == 0)
        &&& self.emitted@.len() == self.idx
        &&& self.fed@.len() == live_count(self.suite.tests@.take(self.idx as int))
        &&& forall|i: int|
            #![trigger self.emitted@[i]]
            0 <= i < self.idx ==> {
                if self.suite.tests@[i].ignore {
                    self.emitted@[i] is Ignore
                } else {
                    outcome_of_result(
                        self.fed@[live_count(self.suite.tests@.take(i)) as int],
                        self.emitted@[i],
                    )
                }
            }
        &&& match self.phase {
            Phase::Idle => self.aborted is None && self.logs@.len() == 0 && self.current@.len()
                == 0,
            Phase::NetPending { network } => {
                &&& self.idx < self.suite.tests@.len()
                &&& !self.suite.tests@[self.idx as int].ignore
                &&& self.aborted is None
                &&& self.logs@.len() == 0
                &&& self.current@.len() == 0
            },
            Phase::ServicePending { network, created } => {
                &&& self.idx < self.suite.tests@.len()
                &&& !self.suite.tests@[self.idx as int].ignore
                &&& self.aborted is None
                &&& self.logs@.len() == 0
                &&& created < self.suite.app.services@.len()
                &&& has_network(self.ledger@, network@)
                &&& self.current@.len() == created
                &&& services_match(
                    self.current@,
                    self.suite.app.services@,
                    network@,
                    created as int,
                )
            },
            Phase::Running { network } => {
                &&& self.idx < self.suite.tests@.len()
                &&& !self.suite.tests@[self.idx as int].ignore
                &&& self.aborted is None
                &&& self.current@.len() == 0
            },
            Phase::Done => true,
        }
    }

    /// Take a fresh suite in hand: first test next, nothing provisioned,
    /// nothing emitted, success until a failure says otherwise.
    pub fn new(suite: TestSuite) -> (r: SuiteRun)
        ensures
            r.wf(),
            r.app() == suite.app,
            r.tests() == suite.tests@,
            r.cur() == 0,
            r.phase() is Idle,
            r.success(),
            r.emitted() == Seq::<TestOutcome>::empty(),
            r.fed() == Seq::<UnitResult>::empty(),
            r.ledger() == Seq::<Resource>::empty(),
            r.captured() == Seq::<LogLine>::empty(),
    {
        let r = SuiteRun {
            suite,
            idx: 0,
            phase: Phase::Idle,
            success: true,
            aborted: None,
            logs: Vec::new(),
            current: Vec::new(),
            ledger: Resources::new(),
            emitted: Ghost(Seq::empty()),
            fed: Ghost(Seq::empty()),
        };
        proof {
            assert(r.suite.tests@.take(0) =~= Seq::<crate::TestDecl>::empty());
        }
        r
    }

    /// Decide what the next declared test needs. An ignored test gets its
    /// Ignored outcome immediately, with no provisioning and no ledger
    /// growth; a live one gets a freshly named network requested; when no
    /// test is left the suite closes.
    pub fn next_action(&mut self) -> (a: Action)
        requires
            old(self).wf(),
            old(self).phase() is Idle,
        ensures
            final(self).wf(),
            final(self).app() == old(self).app(),
            final(self).tests() == old(self).tests(),
            final(self).ledger() == old(self).ledger(),
            final(self).success() == old(self).success(),
            final(self).fed() == old(self).fed(),
            final(self).aborted() is None,
            old(self).cur() == old(self).tests().len() ==> {
                &&& a is Finished
                &&& final(self).phase() is Done
                &&& final(self).emitted() == old(self).emitted()
                &&& final(self).cur() == old(self).cur()
            },
            old(self).cur() < old(self).tests().len() && old(self).tests()[old(self).cur()].ignore
                ==> {
                &&& a matches Action::Emit { result } && result.outcome is Ignore && result.name@
                    == old(self).tests()[old(self).cur()].name@ && result.logs is None
                &&& final(self).cur() == old(self).cur() + 1
                &&& final(self).phase() is Idle
                &&& final(self).emitted() == old(self).emitted().push(TestOutcome::Ignore)
            },
            old(self).cur() < old(self).tests().len() && !old(self).tests()[old(self).cur()].ignore
                ==> {
                &&& a matches Action::CreateNetwork { name } && name@.len() == 36
                    && (final(self).phase() matches Phase::NetPending { network } && network
                    == name)
                &&& final(self).cur() == old(self).cur()
                &&& final(self).emitted() == old(self).emitted()
            },
    {
        if self.idx == self.suite.tests.len() {
            self.phase = Phase::Done;
            Action::Finished
        } else if self.suite.tests[self.idx].ignore {
            let result = TestResult::ignore(self.suite.tests[self.idx].name.as_str());
            proof {
                lemma_counts_push(self.emitted@, TestOutcome::Ignore);
                lemma_live_count_take_step(self.suite.tests@, self.idx as int);
            }
            self.emitted = Ghost(self.emitted@.push(TestOutcome::Ignore));
            self.idx = self.idx + 1;
            proof {
                assert forall|i: int|
                    #![trigger self.emitted@[i]]
                    0 <= i < self.idx implies {
                    if self.suite.tests@[i].ignore {
                        self.emitted@[i] is Ignore
                    } else {
                        outcome_of_result(
                            self.fed@[live_count(self.suite.tests@.take(i)) as int],
                            self.emitted@[i],
                        )
                    }
                } by {
                    if i < old(self).idx {
                        assert(self.emitted@[i] == old(self).emitted@[i]);
                    } else {
                        assert(self.emitted@[i] == TestOutcome::Ignore);
                    }
                }
            }
            Action::Emit { result }
        } else {
            let name = fresh_network_name();
            self.phase = Phase::NetPending { network: name.clone() };
            Action::CreateNetwork { name }
        }
    }

    /// The backend created the requested network: register it — before any
    /// further fallible step — and move on to the first service, or start
    /// the unit right away if the application declares none.
    pub fn network_created(&mut self) -> (a: Action)
        requires
            old(self).wf(),
            old(self).phase() matches Phase::NetPending { .. },
        ensures
            final(self).wf(),
            final(self).app() == old(self).app(),
            final(self).tests() == old(self).tests(),
            final(self).cur() == old(self).cur(),
            final(self).success() == old(self).success(),
            final(self).emitted() == old(self).emitted(),
            final(self).fed() == old(self).fed(),
            final(self).aborted() is None,
            old(self).phase() matches Phase::NetPending { network } ==> {
                &&& final(self).ledger() == old(self).ledger().push(
                    Resource::Network((Network { name: network })),
                )
                &&& old(self).app().services@.len() == 0 ==> (a matches Action::StartUnit {
                    test,
                    app,
                } && test == old(self).cur() && app.services@.len() == 0
                    && (final(self).phase() matches Phase::Running { network: n2 } && n2
                    == network))
                &&& old(self).app().services@.len() > 0 ==> (a matches Action::CreateService {
                    service,
                    network: n2,
                } && service == 0 && n2 == network
                    && (final(self).phase() matches Phase::ServicePending { network: n3, created }
                    && n3 == network && created == 0))
            },
    {
        let mut ph = Phase::Idle;
        std::mem::swap(&mut ph, &mut self.phase);
        match ph {
            Phase::NetPending { network } => {
                proof {
                    lemma_ledger_push_network(self.ledger@, (Network { name: network }));
                }
                self.ledger.register(Resource::Network(Network { name: network.clone() }));
                proof {
                    let n = self.ledger@.len() - 1;
                    assert(is_network_named(self.ledger@[n], network@));
                    assert(has_network(self.ledger@, network@));
                }
                if self.suite.app.services.len() == 0 {
                    self.phase = Phase::Running { network };
                    let mut svcs: Vec<Service> = Vec::new();
                    std::mem::swap(&mut svcs, &mut self.current);
                    Action::StartUnit { test: self.idx, app: (App { services: svcs }) }
                } else {
                    let n2 = network.clone();
                    self.phase = Phase::ServicePending { network, created: 0 };
                    Action::CreateService { service: 0, network: n2 }
                }
            },
            _ => {
                proof {
                    assert(false);
                }
                Action::Finished
            },
        }
    }

    /// The backend created and started one service: register it and move on
    /// to the next one, or hand the completed environment to the test unit
    /// once every declared service exists.
    pub fn service_created(&mut self, id: String) -> (a: Action)
        requires
            old(self).wf(),
            old(self).phase() matches Phase::ServicePending { .. },
        ensures
            final(self).wf(),
            final(self).app() == old(self).app(),
            final(self).tests() == old(self).tests(),
            final(self).cur() == old(self).cur(),
            final(self).success() == old(self).success(),
            final(self).emitted() == old(self).emitted(),
            final(self).fed() == old(self).fed(),
            final(self).aborted() is None,
            old(self).phase() matches Phase::ServicePending { network, created } ==> {
                &&& final(self).ledger() == old(self).ledger().push(
                    Resource::Service(
                        provisioned_service(
                            old(self).app().services@[created as int],
                            network,
                            id,
                        ),
                    ),
                )
                &&& created + 1 < old(self).app().services@.len() ==> (a
                    matches Action::CreateService { service, network: n2 } && service == created
                    + 1 && n2 == network && (final(self).phase() matches Phase::ServicePending {
                    network: n3,
                    created: c3,
                } && n3 == network && c3 == created + 1) && final(self).provisioned()
                    == old(self).provisioned().push(
                    provisioned_service(old(self).app().services@[created as int], network, id),
                ))
                &&& created + 1 == old(self).app().services@.len() ==> (a
                    matches Action::StartUnit { test, app } && test == old(self).cur()
                    && app.services@ == old(self).provisioned().push(
                    provisioned_service(old(self).app().services@[created as int], network, id),
                ) && app.services@.len() == old(self).app().services@.len() && services_match(
                    app.services@,
                    old(self).app().services@,
                    network@,
                    app.services@.len() as int,
                ) && (final(self).phase() matches Phase::Running { network: n2 } && n2 == network))
            },
    {
        let mut ph = Phase::Idle;
        std::mem::swap(&mut ph, &mut self.phase);
        match ph {
            Phase::ServicePending { network, created } => {
                let config_name = self.suite.app.services[created].name.clone();
                let svc = Service {
                    name: config_name,
                    net: Network { name: network.clone() },
                    id,
                };
                let ghost svc_snap = svc;
                proof {
                    lemma_ledger_push_service(self.ledger@, svc_snap);
                }
                let svc2 = Service {
                    name: svc.name.clone(),
                    net: Network { name: svc.net.name.clone() },
                    id: svc.id.clone(),
                };
                self.ledger.register(Resource::Service(svc));
                self.current.push(svc2);
                proof {
                    lemma_push_keeps_network(
                        old(self).ledger@,
                        Resource::Service(svc_snap),
                        network@,
                    );
                }
                let total = self.suite.app.services.len();
                proof {
                    assert(created < total);
                }
                let next = created + 1;
                if next < total {
                    let n2 = network.clone();
                    self.phase = Phase::ServicePending { network, created: next };
                    Action::CreateService { service: next, network: n2 }
                } else {
                    self.phase = Phase::Running { network };
                    let mut svcs: Vec<Service> = Vec::new();
                    std::mem::swap(&mut svcs, &mut self.current);
                    Action::StartUnit { test: self.idx, app: (App { services: svcs }) }
                }
            },
            _ => {
                proof {
                    assert(false);
                }
                Action::Finished
            },
        }
    }

    /// A network or service creation failed: the suite's remaining tests
    /// are abandoned and only the rollback is left. What was already
    /// registered stays in the ledger for it.
    pub fn provision_failed(&mut self, message: String) -> (a: Action)
        requires
            old(self).wf(),
            old(self).phase() matches Phase::NetPending { .. } || old(self).phase()
                matches Phase::ServicePending { .. },
        ensures
            final(self).wf(),
            a is Finished,
            final(self).phase() is Done,
            final(self).aborted() matches Some(m) && m == message,
            final(self).app() == old(self).app(),
            final(self).tests() == old(self).tests(),
            final(self).cur() == old(self).cur(),
            final(self).ledger() == old(self).ledger(),
            final(self).success() == old(self).success(),
            final(self).emitted() == old(self).emitted(),
            final(self).fed() == old(self).fed(),
    {
        self.aborted = Some(message);
        self.phase = Phase::Done;
        Action::Finished
    }

    /// One merged log line arrived while the unit runs: capture it.
    pub fn log_arrived(&mut self, line: LogLine)
        requires
            old(self).wf(),
            old(self).phase() matches Phase::Running { .. },
        ensures
            final(self).wf(),
            final(self).phase() == old(self).phase(),
            final(self).app() == old(self).app(),
            final(self).tests() == old(self).tests(),
            final(self).cur() == old(self).cur(),
            final(self).ledger() == old(self).ledger(),
            final(self).success() == old(self).success(),
            final(self).emitted() == old(self).emitted(),
            final(self).fed() == old(self).fed(),
            final(self).aborted() is None,
            final(self).captured() == old(self).captured().push(line),
    {
        self.logs.push(line);
    }

    /// The test unit finished: derive its outcome. Normal completion is a
    /// Pass; a runtime fault is a Fail carrying the fault's message (or the
    /// fallback text), and flips the suite's success flag — but the next
    /// test is taken up regardless. The captured logs travel with the
    /// outcome and capture stops here.
    pub fn unit_finished(&mut self, result: UnitResult) -> (a: Action)
        requires
            old(self).wf(),
            old(self).phase() matches Phase::Running { .. },
        ensures
            final(self).wf(),
            final(self).app() == old(self).app(),
            final(self).tests() == old(self).tests(),
            final(self).ledger() == old(self).ledger(),
            final(self).aborted() is None,
            final(self).cur() == old(self).cur() + 1,
            final(self).phase() is Idle,
            final(self).captured() == Seq::<LogLine>::empty(),
            final(self).fed() == old(self).fed().push(result),
            a matches Action::Emit { result: tr } && tr.name@
                == old(self).tests()[old(self).cur()].name@ && (tr.logs matches Some(lg) && lg@
                == old(self).captured()) && final(self).emitted()
                == old(self).emitted().push(tr.outcome) && (match result {
                UnitResult::Completed => tr.outcome is Pass && final(self).success()
                    == old(self).success(),
                UnitResult::Fault { message } => (tr.outcome matches TestOutcome::Fail { output }
                    && output@ == fault_text(message)) && !final(self).success(),
            }),
    {
        let ghost result_snap = result;
        let mut logs: Vec<LogLine> = Vec::new();
        std::mem::swap(&mut logs, &mut self.logs);
        let name_owned = self.suite.tests[self.idx].name.clone();
        let tr = match result {
            UnitResult::Completed => TestResult::pass(name_owned.as_str(), Some(logs)),
            UnitResult::Fault { message } => {
                self.success = false;
                let ghost message_snap = message;
                let msg = fail_message(message);
                let tr = TestResult::fail(name_owned.as_str(), msg, Some(logs));
                proof {
                    assert(result_snap == (UnitResult::Fault { message: message_snap }));
                }
                tr
            },
        };
        proof {
            lemma_counts_push(self.emitted@, tr.outcome);
            assert(outcome_of_result(result_snap, tr.outcome));
            lemma_live_count_take_step(self.suite.tests@, self.idx as int);
        }
        self.emitted = Ghost(self.emitted@.push(tr.outcome));
        self.fed = Ghost(self.fed@.push(result_snap));
        let total = self.suite.tests.len();
        proof {
            assert(self.idx < total);
        }
        self.idx = self.idx + 1;
        self.phase = Phase::Idle;
        proof {
            assert forall|i: int|
                #![trigger self.emitted@[i]]
                0 <= i < self.idx implies {
                if self.suite.tests@[i].ignore {
                    self.emitted@[i] is Ignore
                } else {
                    outcome_of_result(
                        self.fed@[live_count(self.suite.tests@.take(i)) as int],
                        self.emitted@[i],
                    )
                }
            } by {
                if i < old(self).idx {
                    assert(self.emitted@[i] == old(self).emitted@[i]);
                    if !self.suite.tests@[i].ignore {
                        lemma_live_count_take_step(self.suite.tests@, i);
                        lemma_live_count_mono(self.suite.tests@, i + 1, old(self).idx as int);
                        assert(self.fed@[live_count(self.suite.tests@.take(i)) as int] == old(
                            self,
                        ).fed@[live_count(self.suite.tests@.take(i)) as int]);
                    }
                } else {
                    assert(self.emitted@[i] == tr.outcome);
                    assert(self.fed@[live_count(self.suite.tests@.take(i)) as int]
                        == result_snap);
                }
            }
        }
        Action::Emit { result: tr }
    }

    /// Close the run: hand the accumulated ledger out for its rollback,
    /// together with how the suite went.
    pub fn finish(self) -> (r: (Resources, SuiteOutcome))
        requires
            self.wf(),
            self.phase() is Done,
        ensures
            r.0@ == self.ledger(),
            ledger_wf(r.0@),
            match self.aborted() {
                Some(m) => r.1 matches SuiteOutcome::Aborted { message } && message == m,
                None => r.1 matches SuiteOutcome::Completed { success } && success == self.success(),
            },
    {
        let outcome = match self.aborted {
            Some(m) => SuiteOutcome::Aborted { message: m },
            None => SuiteOutcome::Completed { success: self.success },
        };
        (self.ledger, outcome)
    }

    /// How many tests the suite declares.
    pub fn num_tests(&self) -> (n: usize)
        ensures
            n == self.tests().len(),
    {
        self.suite.tests.len()
    }

    /// The application's name, for the suite's banner line.
    pub fn app_name(&self) -> (n: &String)
        ensures
            n@ == self.app().name@,
    {
        &self.suite.app.name
    }

    /// The declared test at `i`, for the driving loop to start its unit.
    pub fn test_name(&self, i: usize) -> (n: &String)
        requires
            i < self.tests().len(),
        ensures
            n@ == self.tests()[i as int].name@,
    {
        &self.suite.tests[i].name
    }

    /// The configured service at `i`, for the driving loop to create it.
    pub fn service_config(&self, i: usize) -> (c: &ServiceConfig)
        requires
            i < self.app().services@.len(),
        ensures
            *c == self.app().services@[i as int],
    {
        &self.suite.app.services[i]
    }
}

/// A suite's success flag is exactly "no failure has been emitted so far":
/// it starts true, survives passes and ignored tests, and flips on the
/// first failure, never back.
pub proof fn lemma_success_iff_no_failure(r: &SuiteRun)
    requires
        r.wf(),
    ensures
        r.success() <==> count_fail(r.emitted()) == 0,
{
}

/// A suite of N non-ignored tests whose units all completed normally, once
/// every test was handled, has emitted exactly N outcomes — one Pass per
/// declared test, in declaration order — and its success flag is true.
pub proof fn lemma_suite_all_completions_pass(r: &SuiteRun)
    requires
        r.wf(),
        r.cur() == r.tests().len(),
        forall|i: int| 0 <= i < r.tests().len() ==> !(#[trigger] r.tests()[i]).ignore,
        forall|i: int| 0 <= i < r.fed().len() ==> (#[trigger] r.fed()[i]) is Completed,
    ensures
        r.emitted().len() == r.tests().len(),
        forall|i: int| 0 <= i < r.emitted().len() ==> (#[trigger] r.emitted()[i]) is Pass,
        r.success(),
{
    let n = r.tests().len() as int;
    lemma_live_count_no_ignore(r.tests(), n);
    assert forall|i: int| 0 <= i < r.emitted().len() implies (#[trigger] r.emitted()[i])
        is Pass by {
        lemma_live_count_no_ignore(r.tests(), i);
        assert(r.fed()[i] is Completed);
    }
    crate::emitter::lemma_all_pass_reports_ok(r.emitted());
}

/// A suite of non-ignored tests in which exactly one unit raised a runtime
/// fault, once every test was handled, has emitted exactly one Fail — at
/// that test's position, carrying the fault's message per `fault_text` —
/// while every other test still ran and passed; the success flag is false.
pub proof fn lemma_suite_single_fault(r: &SuiteRun, k: int)
    requires
        r.wf(),
        r.cur() == r.tests().len(),
        forall|i: int| 0 <= i < r.tests().len() ==> !(#[trigger] r.tests()[i]).ignore,
        0 <= k < r.fed().len(),
        r.fed()[k] matches UnitResult::Fault { .. },
        forall|i: int|
            0 <= i < r.fed().len() && i != k ==> (#[trigger] r.fed()[i]) is Completed,
    ensures
        r.emitted().len() == r.tests().len(),
        outcome_of_result(r.fed()[k], r.emitted()[k]),
        r.emitted()[k] is Fail,
        forall|i: int|
            0 <= i < r.emitted().len() && i != k ==> (#[trigger] r.emitted()[i]) is Pass,
        !r.success(),
{
    let n = r.tests().len() as int;
    lemma_live_count_no_ignore(r.tests(), n);
    assert forall|i: int| 0 <= i < r.emitted().len() && i != k implies (#[trigger] r.emitted()[i])
        is Pass by {
        lemma_live_count_no_ignore(r.tests(), i);
        assert(r.fed()[i] is Completed);
    }
    lemma_live_count_no_ignore(r.tests(), k);
    assert(outcome_of_result(r.fed()[k], r.emitted()[k]));
    crate::emitter::lemma_count_fail_at(r.emitted(), k);
}

/// A suite all of whose emitted outcomes are passes reports success: no
/// provisioning happened in vain and nothing flipped the flag.
pub proof fn lemma_all_pass_suite_succeeds(r: &SuiteRun)
    requires
        r.wf(),
        forall|i: int| 0 <= i < r.emitted().len() ==> r.emitted()[i] is Pass,
    ensures
        r.success(),
{
    crate::emitter::lemma_all_pass_reports_ok(r.emitted());
}

/// Every service resource a suite ever registers is preceded in its ledger
/// by the network resource it is attached to.
pub proof fn lemma_ledger_service_after_network(r: &SuiteRun)
    requires
        r.wf(),
    ensures
        ledger_wf(r.ledger()),
{
}

} // verus!
