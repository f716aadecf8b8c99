use octopod::emitter::{Emitter, LogLine, TestOutcome};
use octopod::runner::{Action, SuiteRun, UnitResult, fail_message};
use octopod::service::ServiceConfig;
use octopod::{AppConfig, Octopod, SuiteOutcome, TestDecl};

fn decl(name: &str, app: &str, ignore: bool) -> TestDecl {
    TestDecl { name: name.to_string(), app: app.to_string(), ignore }
}

fn suite_of(app: AppConfig, decls: Vec<TestDecl>) -> octopod::TestSuite {
    let name = app.name.clone();
    let mut engine = Octopod::init("addr", vec![app], decls).expect("suite assembles");
    let suite = engine.next_suite().expect("one suite");
    assert_eq!(suite.app.name, name);
    suite
}

fn web_app() -> AppConfig {
    let mut app = AppConfig::new("web");
    app.add_service(ServiceConfig::new("api", "img-x"));
    app.add_service(ServiceConfig::new("db", "img-y"));
    app
}

/// Drive one non-ignored test through provisioning up to its running unit,
/// returning the network name and the App handed to the unit.
fn provision_current(run: &mut SuiteRun) -> (String, octopod::App) {
    let action = run.next_action();
    let network = match action {
        Action::CreateNetwork { name } => name,
        other => panic!("expected CreateNetwork, got {:?}", other),
    };
    let mut action = run.network_created();
    let mut counter = 0u32;
    loop {
        match action {
            Action::CreateService { service, network: net } => {
                assert_eq!(net, network, "services attach to the suite's fresh network");
                assert_eq!(service as u32, counter, "services come in declared order");
                counter += 1;
                action = run.service_created(format!("cid-{}", service));
            }
            Action::StartUnit { app, .. } => return (network, app),
            other => panic!("expected CreateService or StartUnit, got {:?}", other),
        }
    }
}

#[test]
fn all_units_completing_yields_all_passes_and_success() {
    let decls = vec![decl("t::alpha", "web", false), decl("t::beta", "web", false)];
    let mut run = SuiteRun::new(suite_of(web_app(), decls));
    let mut emitter = Emitter::new(false);

    for expected in ["t::alpha", "t::beta"] {
        let (_net, _app) = provision_current(&mut run);
        match run.unit_finished(UnitResult::Completed) {
            Action::Emit { result } => {
                assert_eq!(result.name, expected);
                assert!(matches!(result.outcome, TestOutcome::Pass));
                emitter.emit(result);
            }
            other => panic!("expected Emit, got {:?}", other),
        }
    }
    match run.next_action() {
        Action::Finished => {}
        other => panic!("expected Finished, got {:?}", other),
    }
    let (_ledger, outcome) = run.finish();
    assert!(matches!(outcome, SuiteOutcome::Completed { success: true }));

    let report = emitter.finalize();
    assert_eq!((report.passed, report.failed, report.ignored), (2, 0, 0));
    assert!(report.ok);
}

#[test]
fn faulting_unit_fails_with_its_message_and_suite_continues() {
    let decls = vec![decl("t::boom", "web", false), decl("t::calm", "web", false)];
    let mut run = SuiteRun::new(suite_of(web_app(), decls));

    let (_net, _app) = provision_current(&mut run);
    match run.unit_finished(UnitResult::Fault { message: Some("index out of range".to_string()) }) {
        Action::Emit { result } => {
            assert_eq!(result.name, "t::boom");
            match result.outcome {
                TestOutcome::Fail { output } => assert_eq!(output, "index out of range"),
                other => panic!("expected Fail, got {:?}", other),
            }
        }
        other => panic!("expected Emit, got {:?}", other),
    }

    // The next test still executes, and its pass does not win success back.
    let (_net, _app) = provision_current(&mut run);
    match run.unit_finished(UnitResult::Completed) {
        Action::Emit { result } => assert!(matches!(result.outcome, TestOutcome::Pass)),
        other => panic!("expected Emit, got {:?}", other),
    }
    match run.next_action() {
        Action::Finished => {}
        other => panic!("expected Finished, got {:?}", other),
    }
    let (_ledger, outcome) = run.finish();
    assert!(matches!(outcome, SuiteOutcome::Completed { success: false }));
}

#[test]
fn fault_without_payload_gets_the_fallback_text() {
    assert_eq!(fail_message(None), "unit terminated abnormally");
    assert_eq!(fail_message(Some("boom".to_string())), "boom");

    let decls = vec![decl("t::silent", "web", false)];
    let mut run = SuiteRun::new(suite_of(web_app(), decls));
    let (_net, _app) = provision_current(&mut run);
    match run.unit_finished(UnitResult::Fault { message: None }) {
        Action::Emit { result } => match result.outcome {
            TestOutcome::Fail { output } => assert_eq!(output, "unit terminated abnormally"),
            other => panic!("expected Fail, got {:?}", other),
        },
        other => panic!("expected Emit, got {:?}", other),
    }
}

#[test]
fn ignored_tests_provision_nothing_and_tally_separately() {
    let decls = vec![
        decl("t::skipped", "web", true),
        decl("t::ran", "web", false),
        decl("t::also_skipped", "web", true),
    ];
    let mut run = SuiteRun::new(suite_of(web_app(), decls));
    let mut emitter = Emitter::new(false);

    match run.next_action() {
        Action::Emit { result } => {
            assert_eq!(result.name, "t::skipped");
            assert!(matches!(result.outcome, TestOutcome::Ignore));
            assert!(result.logs.is_none());
            emitter.emit(result);
        }
        other => panic!("expected Emit for the ignored test, got {:?}", other),
    }

    let (_net, _app) = provision_current(&mut run);
    match run.unit_finished(UnitResult::Completed) {
        Action::Emit { result } => emitter.emit(result),
        other => panic!("expected Emit, got {:?}", other),
    }

    match run.next_action() {
        Action::Emit { result } => {
            assert!(matches!(result.outcome, TestOutcome::Ignore));
            emitter.emit(result);
        }
        other => panic!("expected Emit for the ignored test, got {:?}", other),
    }
    match run.next_action() {
        Action::Finished => {}
        other => panic!("expected Finished, got {:?}", other),
    }
    let (ledger, outcome) = run.finish();
    // Only the one live test provisioned anything: one network, two services.
    assert_eq!(ledger.len(), 3);
    assert!(matches!(outcome, SuiteOutcome::Completed { success: true }));

    let report = emitter.finalize();
    assert_eq!((report.passed, report.failed, report.ignored), (1, 0, 2));
    assert!(report.ok);
}

#[test]
fn provisioning_failure_aborts_remaining_tests_but_keeps_ledger() {
    let decls = vec![decl("t::first", "web", false), decl("t::never_runs", "web", false)];
    let mut run = SuiteRun::new(suite_of(web_app(), decls));

    match run.next_action() {
        Action::CreateNetwork { .. } => {}
        other => panic!("expected CreateNetwork, got {:?}", other),
    }
    match run.network_created() {
        Action::CreateService { service: 0, .. } => {}
        other => panic!("expected the first CreateService, got {:?}", other),
    }
    match run.provision_failed("image pull failed".to_string()) {
        Action::Finished => {}
        other => panic!("expected Finished, got {:?}", other),
    }
    let (ledger, outcome) = run.finish();
    // The network was registered before the failure and is still rolled back.
    assert_eq!(ledger.len(), 1);
    match outcome {
        SuiteOutcome::Aborted { message } => assert_eq!(message, "image pull failed"),
        other => panic!("expected Aborted, got {:?}", other),
    }
}

#[test]
fn an_app_without_services_starts_its_unit_right_after_the_network() {
    let decls = vec![decl("t::bare", "bare", false)];
    let mut run = SuiteRun::new(suite_of(AppConfig::new("bare"), decls));
    match run.next_action() {
        Action::CreateNetwork { .. } => {}
        other => panic!("expected CreateNetwork, got {:?}", other),
    }
    let app = match run.network_created() {
        Action::StartUnit { test: 0, app } => app,
        other => panic!("expected StartUnit, got {:?}", other),
    };
    assert!(app.services.is_empty());
    assert!(app.service("anything").is_none());
    match run.unit_finished(UnitResult::Completed) {
        Action::Emit { result } => assert!(matches!(result.outcome, TestOutcome::Pass)),
        other => panic!("expected Emit, got {:?}", other),
    }
    match run.next_action() {
        Action::Finished => {}
        other => panic!("expected Finished, got {:?}", other),
    }
    let (ledger, outcome) = run.finish();
    assert_eq!(ledger.len(), 1);
    assert!(matches!(outcome, SuiteOutcome::Completed { success: true }));
}

#[test]
fn captured_logs_travel_with_the_outcome() {
    let decls = vec![decl("t::logs", "web", false)];
    let mut run = SuiteRun::new(suite_of(web_app(), decls));
    let (_net, _app) = provision_current(&mut run);
    run.log_arrived(LogLine { name: "api".to_string(), data: "listening".to_string() });
    run.log_arrived(LogLine { name: "db".to_string(), data: "ready".to_string() });
    match run.unit_finished(UnitResult::Completed) {
        Action::Emit { result } => {
            let logs = result.logs.expect("logs are attached");
            assert_eq!(logs.len(), 2);
            assert_eq!(logs[0].name, "api");
            assert_eq!(logs[0].data, "listening");
            assert_eq!(logs[1].name, "db");
            assert_eq!(logs[1].data, "ready");
        }
        other => panic!("expected Emit, got {:?}", other),
    }
}
