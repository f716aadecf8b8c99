//! An integration-test orchestration engine for multi-service containerized
//! applications. A caller declares applications as named topologies of
//! services and binds tests to them; the engine assembles suites, decides
//! what to provision for each test, derives outcomes — including runtime
//! faults — and rolls every provisioned resource back through an ordered
//! ledger. All backend work (the container runtime, the async run loop, the
//! terminal output) is performed by an unverified driving loop that executes
//! the actions these state machines hand it.

pub mod driver;
pub mod emitter;
pub mod resource;
pub mod runner;
pub mod service;

use vstd::prelude::*;

use crate::service::Service;
use crate::service::ServiceConfig;

verus! {

/// A named topology of services under test. Immutable once handed to the
/// engine.
#[derive(Debug)]
pub struct AppConfig {
    pub name: String,
    pub services: Vec<ServiceConfig>,
}

impl AppConfig {
    pub fn new(name: &str) -> (c: Self)
        ensures
            c.name@ == name@,
            c.services@ == Seq::<ServiceConfig>::empty(),
    {
        AppConfig { name: String::from_str(name), services: Vec::new() }
    }

    pub fn add_service(&mut self, config: ServiceConfig)
        ensures
            final(self).name == old(self).name,
            final(self).services@ == old(self).services@.push(config),
    {
        self.services.push(config);
    }
}

/// One declared test: its fully qualified name, the application it runs
/// against, and whether it is ignored. The caller assembles the list of
/// declarations before constructing the engine; the engine only reads it.
#[derive(Debug)]
pub struct TestDecl {
    pub name: String,
    pub app: String,
    pub ignore: bool,
}

/// An application paired with the declared tests that run against it, in
/// declaration order.
#[derive(Debug)]
pub struct TestSuite {
    pub app: AppConfig,
    pub tests: Vec<TestDecl>,
}

/// Whether some provisioned service in the list carries `name`.
pub open spec fn has_service(services: Seq<Service>, name: Seq<char>) -> bool {
    exists|i: int| 0 <= i < services.len() && (#[trigger] services[i]).name@ == name
}

/// The position of the earliest provisioned service carrying `name`.
pub open spec fn first_service(services: Seq<Service>, name: Seq<char>) -> int {
    choose|i: int|
        0 <= i < services.len() && (#[trigger] services[i]).name@ == name && (forall|j: int|
            0 <= j < i ==> services[j].name@ != name)
}

/// The handle a running test receives: the services provisioned for it,
/// looked up by their configured names.
#[derive(Debug)]
pub struct App {
    pub services: Vec<Service>,
}

impl App {
    /// Look a provisioned service up by its configured name.
    pub fn service(&self, service: &str) -> (r: Option<&Service>)
        ensures
            has_service(self.services@, service@) ==> (r matches Some(s) && *s
                == self.services@[first_service(self.services@, service@)]),
            !has_service(self.services@, service@) ==> r is None,
    {
        let key = String::from_str(service);
        let mut i: usize = 0;
        while i < self.services.len()
            invariant
                i <= self.services@.len(),
                key@ == service@,
                forall|j: int| 0 <= j < i ==> (#[trigger] self.services@[j]).name@ != service@,
            decreases self.services@.len() - i,
        {
            if self.services[i].name == key {
                proof {
                    assert((i as int) < self.services@.len() && self.services@[i as int].name@
                        == service@ && (forall|j: int|
                        0 <= j < i as int ==> self.services@[j].name@ != service@));
                    let w = first_service(self.services@, service@);
                    if w < i as int {
                        assert(self.services@[w].name@ != service@);
                    }
                    if w > i as int {
                        assert(self.services@[i as int].name@ != service@);
                    }
                    assert(w == i as int);
                }
                return Some(&self.services[i]);
            }
            i = i + 1;
        }
        None
    }
}

/// A declaration referencing an application the engine does not know. Fatal
/// at construction, before any provisioning.
#[derive(Debug)]
pub struct ConfigError {
    /// The test whose declaration failed to resolve.
    pub test: String,
    /// The application name that no configured application carries.
    pub app: String,
}

impl ConfigError {
    pub fn message(&self) -> (m: String)
        ensures
            m@ == "unknown app `"@ + self.app@ + "` in test `"@ + self.test@ + "`"@,
    {
        let mut m = String::from_str("unknown app `");
        m.append(self.app.as_str());
        m.append("` in test `");
        m.append(self.test.as_str());
        m.append("`");
        proof {
            assert(m@ =~= "unknown app `"@ + self.app@ + "` in test `"@ + self.test@ + "`"@);
        }
        m
    }
}

/// Whether some configured application carries `name`.
pub open spec fn has_app(apps: Seq<AppConfig>, name: Seq<char>) -> bool {
    exists|i: int| 0 <= i < apps.len() && #[trigger] apps[i].name@ == name
}

/// Whether some assembled suite's application carries `name`.
pub open spec fn suites_have_app(suites: Seq<TestSuite>, name: Seq<char>) -> bool {
    exists|i: int| 0 <= i < suites.len() && #[trigger] suites[i].app.name@ == name
}

/// The declarations bound to the application called `app_name`, in
/// declaration order.
pub open spec fn tests_for(decls: Seq<TestDecl>, app_name: Seq<char>) -> Seq<TestDecl> {
    decls.filter(|d: TestDecl| d.app@ == app_name)
}

/// The assembled suites pair the applications, in order, with exactly the
/// declarations bound to each.
pub open spec fn suites_built(
    suites: Seq<TestSuite>,
    apps: Seq<AppConfig>,
    decls: Seq<TestDecl>,
) -> bool {
    &&& suites.len() == apps.len()
    &&& forall|i: int|
        0 <= i < suites.len() ==> #[trigger] suites[i].app == apps[i] && suites[i].tests@
            == tests_for(decls, apps[i].name@)
}

proof fn lemma_tests_for_empty(app_name: Seq<char>)
    ensures
        tests_for(Seq::<TestDecl>::empty(), app_name) == Seq::<TestDecl>::empty(),
{
    reveal(Seq::filter);
}

proof fn lemma_tests_for_step(s: Seq<TestDecl>, d: TestDecl, app_name: Seq<char>)
    ensures
        d.app@ == app_name ==> tests_for(s.push(d), app_name) == tests_for(s, app_name).push(d),
        d.app@ != app_name ==> tests_for(s.push(d), app_name) == tests_for(s, app_name),
{
    reveal(Seq::filter);
    assert(s.push(d).drop_last() =~= s);
    assert(s.push(d).last() == d);
}

/// How one finished suite went: every test ran and the flag says whether all
/// non-ignored ones passed, or provisioning failed and the suite's remaining
/// tests were abandoned.
#[derive(Debug)]
pub enum SuiteOutcome {
    Completed { success: bool },
    Aborted { message: String },
}

/// Every suite in the record ran to completion with all its tests passing.
/// An aborted suite's tests did not all pass, so it counts against this as
/// much as a completed-but-failing one.
pub open spec fn every_suite_passed(outcomes: Seq<SuiteOutcome>) -> bool {
    forall|i: int|
        0 <= i < outcomes.len() ==> (#[trigger] outcomes[i]) matches SuiteOutcome::Completed {
            success: true,
        }
}

proof fn lemma_every_passed_push(s: Seq<SuiteOutcome>, o: SuiteOutcome)
    ensures
        every_suite_passed(s.push(o)) <==> (every_suite_passed(s) && o
            matches SuiteOutcome::Completed { success: true }),
{
    if every_suite_passed(s) && o matches SuiteOutcome::Completed { success: true } {
        assert forall|i: int| 0 <= i < s.push(o).len() implies (#[trigger] s.push(o)[i])
            matches SuiteOutcome::Completed { success: true } by {
            if i < s.len() {
                assert(s.push(o)[i] == s[i]);
            } else {
                assert(s.push(o)[i] == o);
            }
        }
    }
    if every_suite_passed(s.push(o)) {
        assert forall|i: int| 0 <= i < s.len() implies (#[trigger] s[i])
            matches SuiteOutcome::Completed { success: true } by {
            assert(s.push(o)[i] == s[i]);
        }
        assert(s.push(o)[s.len() as int] == o);
    }
}

/// The orchestration engine: the assembled suites, the backend endpoint they
/// run against, the reporting policy, and the running all-suites-passed
/// flag.
pub struct Octopod {
    addr: String,
    suites: Vec<TestSuite>,
    log_all: bool,
    success: bool,
    history: Ghost<Seq<SuiteOutcome>>,
}

impl Octopod {
    /// The backend endpoint address the engine was constructed with.
    pub closed spec fn addr(&self) -> Seq<char> {
        self.addr@
    }

    /// The suites not yet handed out, in order.
    pub closed spec fn suites(&self) -> Seq<TestSuite> {
        self.suites@
    }

    /// Whether passing tests keep their detail in the final report.
    pub closed spec fn logs_all(&self) -> bool {
        self.log_all
    }

    /// Whether every suite recorded so far passed all its tests.
    pub closed spec fn success(&self) -> bool {
        self.success
    }

    /// The suite outcomes recorded so far, in order.
    pub closed spec fn recorded(&self) -> Seq<SuiteOutcome> {
        self.history@
    }

    /// The verdict tracks the record: success exactly while every recorded
    /// suite completed with all its tests passing.
    pub closed spec fn wf(&self) -> bool {
        self.success <==> every_suite_passed(self.history@)
    }

    /// Assemble the engine: pair every application with the declarations
    /// bound to it, in declaration order. Fails, naming both names, on the
    /// first declaration referencing an unknown application — eagerly,
    /// before any backend interaction.
    pub fn init(podman_addr: &str, apps: Vec<AppConfig>, decls: Vec<TestDecl>) -> (r: Result<
        Self,
        ConfigError,
    >)
        requires
            forall|i: int, j: int|
                #![trigger apps@[i].name@, apps@[j].name@]
                0 <= i < j < apps@.len() ==> apps@[i].name@ != apps@[j].name@,
        ensures
            r matches Ok(o) ==> {
                &&& forall|k: int| 0 <= k < decls@.len() ==> has_app(apps@, decls@[k].app@)
                &&& o.addr() == podman_addr@
                &&& !o.logs_all()
                &&& o.success()
                &&& o.wf()
                &&& o.recorded() == Seq::<SuiteOutcome>::empty()
                &&& o.suites().len() == apps@.len()
                &&& forall|i: int|
                    0 <= i < apps@.len() ==> #[trigger] o.suites()[i].app == apps@[i]
                        && o.suites()[i].tests@ == tests_for(decls@, apps@[i].name@)
            },
            r matches Err(e) ==> exists|k: int|
                {
                    &&& 0 <= k < decls@.len()
                    &&& !has_app(apps@, #[trigger] decls@[k].app@)
                    &&& forall|j: int| 0 <= j < k ==> has_app(apps@, #[trigger] decls@[j].app@)
                    &&& e.test == decls@[k].name
                    &&& e.app == decls@[k].app
                },
    {
        // Eager validation: reject the first declaration whose application is
        // unknown, before anything is provisioned.
        let mut k: usize = 0;
        while k < decls.len()
            invariant
                k <= decls@.len(),
                forall|j: int| 0 <= j < k ==> has_app(apps@, #[trigger] decls@[j].app@),
            decreases decls@.len() - k,
        {
            if find_app(&apps, &decls[k].app).is_none() {
                return Err(
                    ConfigError { test: decls[k].name.clone(), app: decls[k].app.clone() },
                );
            }
            k = k + 1;
        }

        // One empty suite per application, in the given order.
        let ghost apps_seq = apps@;
        let mut apps = apps;
        let mut suites: Vec<TestSuite> = Vec::new();
        while apps.len() > 0
            invariant
                suites@.len() + apps@.len() == apps_seq.len(),
                apps@ =~= apps_seq.skip(suites@.len() as int),
                forall|i: int|
                    0 <= i < suites@.len() ==> #[trigger] suites@[i].app == apps_seq[i]
                        && suites@[i].tests@ == Seq::<TestDecl>::empty(),
            decreases apps@.len(),
        {
            let app = apps.remove(0);
            suites.push(TestSuite { app, tests: Vec::new() });
        }

        // Distribute the declarations, keeping declaration order per suite.
        let ghost all = decls@;
        let mut rest = decls;
        let ghost mut p: int = 0;
        proof {
            assert(all.take(0) =~= Seq::<TestDecl>::empty());
            assert forall|i: int| 0 <= i < suites@.len() implies #[trigger] suites@[i].app
                == apps_seq[i] && suites@[i].tests@ == tests_for(
                all.take(0),
                apps_seq[i].name@,
            ) by {
                assert(suites@[i].app == apps_seq[i]);
                assert(suites@[i].tests@ == Seq::<TestDecl>::empty());
                lemma_tests_for_empty(apps_seq[i].name@);
                assert(all.take(0) == Seq::<TestDecl>::empty());
            }
            assert(suites_built(suites@, apps_seq, all.take(0)));
        }
        while rest.len() > 0
            invariant
                forall|i: int, j: int|
                    #![trigger apps_seq[i].name@, apps_seq[j].name@]
                    0 <= i < j < apps_seq.len() ==> apps_seq[i].name@ != apps_seq[j].name@,
                0 <= p,
                p + rest@.len() == all.len(),
                rest@ =~= all.skip(p),
                forall|j: int| 0 <= j < all.len() ==> has_app(apps_seq, #[trigger] all[j].app@),
                suites_built(suites@, apps_seq, all.take(p)),
            decreases rest@.len(),
        {
            let d = rest.remove(0);
            proof {
                assert(d == all[p]);
                assert(has_app(apps_seq, all[p].app@));
                let wi = choose|wi: int|
                    0 <= wi < apps_seq.len() && #[trigger] apps_seq[wi].name@ == d.app@;
                assert(suites@[wi].app.name@ == d.app@);
                assert(suites_have_app(suites@, d.app@));
            }
            let idx = find_suite(&suites, &d.app);
            let ghost old_suites = suites@;
            let ghost d_snap = d;
            let mut s = suites.remove(idx);
            s.tests.push(d);
            let ghost s_snap = s;
            suites.insert(idx, s);
            proof {
                assert(suites@ =~= old_suites.update(idx as int, s_snap));
                assert(all.take(p + 1) =~= all.take(p).push(d_snap));
                assert(apps_seq[idx as int].name@ == d_snap.app@);
                assert forall|i: int| 0 <= i < suites@.len() implies #[trigger] suites@[i].app
                    == apps_seq[i] && suites@[i].tests@ == tests_for(
                    all.take(p + 1),
                    apps_seq[i].name@,
                ) by {
                    lemma_tests_for_step(all.take(p), d_snap, apps_seq[i].name@);
                    assert(old_suites[i].app == apps_seq[i]);
                    assert(old_suites[i].tests@ == tests_for(all.take(p), apps_seq[i].name@));
                    if i == idx as int {
                        assert(suites@[i] == s_snap);
                        assert(s_snap.app == old_suites[i].app);
                        assert(s_snap.tests@ == old_suites[i].tests@.push(d_snap));
                        assert(d_snap.app@ == apps_seq[i].name@);
                        assert(tests_for(all.take(p + 1), apps_seq[i].name@) == tests_for(
                            all.take(p),
                            apps_seq[i].name@,
                        ).push(d_snap));
                    } else {
                        assert(suites@[i] == old_suites[i]);
                        if i < idx as int {
                            assert(apps_seq[i].name@ != apps_seq[idx as int].name@);
                        } else {
                            assert(apps_seq[idx as int].name@ != apps_seq[i].name@);
                        }
                        assert(d_snap.app@ != apps_seq[i].name@);
                        assert(tests_for(all.take(p + 1), apps_seq[i].name@) == tests_for(
                            all.take(p),
                            apps_seq[i].name@,
                        ));
                    }
                }
                assert(suites_built(suites@, apps_seq, all.take(p + 1)));
                assert(rest@ =~= all.skip(p + 1));
                p = p + 1;
            }
        }
        proof {
            assert(all.take(p) =~= all);
            assert(suites_built(suites@, apps_seq, all));
            assert forall|i: int| 0 <= i < apps_seq.len() implies #[trigger] suites@[i].app
                == apps_seq[i] && suites@[i].tests@ == tests_for(all, apps_seq[i].name@) by {
                assert(suites@[i].app == apps_seq[i]);
            }
        }

        Ok(
            Octopod {
                addr: String::from_str(podman_addr),
                suites,
                log_all: false,
                success: true,
                history: Ghost(Seq::empty()),
            },
        )
    }

    /// Keep passing tests' detail in the final report too.
    pub fn log_all(self) -> (o: Self)
        ensures
            o.logs_all(),
            o.addr() == self.addr(),
            o.suites() == self.suites(),
            o.success() == self.success(),
            o.recorded() == self.recorded(),
            self.wf() ==> o.wf(),
    {
        let mut o = self;
        o.log_all = true;
        o
    }

    pub fn is_log_all(&self) -> (b: bool)
        ensures
            b == self.logs_all(),
    {
        self.log_all
    }

    pub fn podman_addr(&self) -> (a: &str)
        ensures
            a@ == self.addr(),
    {
        self.addr.as_str()
    }

    /// Hand out the next suite to drive, in assembly order.
    pub fn next_suite(&mut self) -> (s: Option<TestSuite>)
        ensures
            final(self).addr() == old(self).addr(),
            final(self).logs_all() == old(self).logs_all(),
            final(self).success() == old(self).success(),
            final(self).recorded() == old(self).recorded(),
            old(self).wf() ==> final(self).wf(),
            old(self).suites().len() == 0 ==> s is None && final(self).suites() == old(
                self,
            ).suites(),
            old(self).suites().len() > 0 ==> (s matches Some(t) && t == old(self).suites()[0]
                && final(self).suites() == old(self).suites().remove(0)),
    {
        if self.suites.len() == 0 {
            None
        } else {
            Some(self.suites.remove(0))
        }
    }

    /// Fold one finished suite into the engine's overall result: the verdict
    /// stays true only for a suite that completed with all its tests
    /// passing. An aborted suite's tests did not all pass, so it flips the
    /// verdict too, besides being reported by the caller.
    pub fn record_suite(&mut self, outcome: &SuiteOutcome)
        requires
            old(self).wf(),
        ensures
            final(self).wf(),
            final(self).addr() == old(self).addr(),
            final(self).logs_all() == old(self).logs_all(),
            final(self).suites() == old(self).suites(),
            final(self).recorded() == old(self).recorded().push(*outcome),
            final(self).success() == (match outcome {
                SuiteOutcome::Completed { success } => old(self).success() && *success,
                SuiteOutcome::Aborted { .. } => false,
            }),
    {
        proof {
            lemma_every_passed_push(self.history@, *outcome);
        }
        self.history = Ghost(self.history@.push(*outcome));
        match outcome {
            SuiteOutcome::Completed { success } => {
                self.success = self.success && *success;
            },
            SuiteOutcome::Aborted { .. } => {
                self.success = false;
            },
        }
    }

    /// Whether every suite recorded so far passed all its tests.
    pub fn succeeded(&self) -> (b: bool)
        ensures
            b == self.success(),
    {
        self.success
    }
}

/// The engine's overall verdict is exactly "every recorded suite completed
/// with all its tests passing": one failed or aborted suite keeps the
/// verdict false for good.
pub proof fn lemma_engine_verdict(o: &Octopod)
    requires
        o.wf(),
    ensures
        o.success() <==> every_suite_passed(o.recorded()),
{
}

/// The position of the application called `name`, if any, scanning in order.
fn find_app(apps: &Vec<AppConfig>, name: &String) -> (r: Option<usize>)
    ensures
        r matches Some(i) ==> i < apps@.len() && apps@[i as int].name@ == name@,
        r is None ==> !has_app(apps@, name@),
{
    let mut i: usize = 0;
    while i < apps.len()
        invariant
            i <= apps@.len(),
            forall|j: int| 0 <= j < i ==> #[trigger] apps@[j].name@ != name@,
        decreases apps@.len() - i,
    {
        if apps[i].name == *name {
            return Some(i);
        }
        i = i + 1;
    }
    None
}

/// The position of the suite whose application is called `name`; the caller
/// guarantees there is one.
fn find_suite(suites: &Vec<TestSuite>, name: &String) -> (i: usize)
    requires
        suites_have_app(suites@, name@),
    ensures
        i < suites@.len(),
        suites@[i as int].app.name@ == name@,
{
    let mut i: usize = 0;
    while i < suites.len()
        invariant
            i <= suites@.len(),
            suites_have_app(suites@, name@),
            forall|j: int| 0 <= j < i ==> #[trigger] suites@[j].app.name@ != name@,
        decreases suites@.len() - i,
    {
        if suites[i].app.name == *name {
            return i;
        }
        i = i + 1;
    }
    proof {
        assert(false);
    }
    0
}

} // verus!
