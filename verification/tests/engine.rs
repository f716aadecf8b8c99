use octopod::service::ServiceConfig;
use octopod::{AppConfig, Octopod, SuiteOutcome, TestDecl};

fn decl(name: &str, app: &str, ignore: bool) -> TestDecl {
    TestDecl { name: name.to_string(), app: app.to_string(), ignore }
}

fn web_app() -> AppConfig {
    let mut app = AppConfig::new("web");
    app.add_service(ServiceConfig::new("api", "img-x"));
    app.add_service(ServiceConfig::new("db", "img-y"));
    app
}

#[test]
fn init_succeeds_when_every_declaration_resolves() {
    let apps = vec![web_app(), AppConfig::new("batch")];
    let decls = vec![
        decl("crate::t_one", "web", false),
        decl("crate::t_two", "batch", false),
        decl("crate::t_three", "web", true),
    ];
    let engine = Octopod::init("unix:///run/podman.sock", apps, decls);
    let mut engine = engine.expect("all declarations resolve");
    assert!(engine.succeeded());
    assert!(!engine.is_log_all());
    assert_eq!(engine.podman_addr(), "unix:///run/podman.sock");

    // Suites come back in application order, each with its declarations in
    // declaration order.
    let web = engine.next_suite().expect("first suite");
    assert_eq!(web.app.name, "web");
    assert_eq!(web.tests.len(), 2);
    assert_eq!(web.tests[0].name, "crate::t_one");
    assert_eq!(web.tests[1].name, "crate::t_three");
    assert!(web.tests[1].ignore);

    let batch = engine.next_suite().expect("second suite");
    assert_eq!(batch.app.name, "batch");
    assert_eq!(batch.tests.len(), 1);
    assert_eq!(batch.tests[0].name, "crate::t_two");

    assert!(engine.next_suite().is_none());
}

#[test]
fn init_fails_naming_test_and_missing_app() {
    let apps = vec![web_app()];
    let decls = vec![
        decl("crate::good", "web", false),
        decl("crate::lost", "ghost", false),
        decl("crate::later", "web", false),
    ];
    let err = Octopod::init("addr", apps, decls).err().expect("unknown app is fatal");
    assert_eq!(err.test, "crate::lost");
    assert_eq!(err.app, "ghost");
    assert_eq!(err.message(), "unknown app `ghost` in test `crate::lost`");
}

#[test]
fn init_accepts_app_with_no_tests() {
    let apps = vec![web_app(), AppConfig::new("idle")];
    let decls = vec![decl("crate::t", "web", false)];
    let mut engine = Octopod::init("addr", apps, decls).expect("empty suite is fine");
    let _web = engine.next_suite().expect("web suite");
    let idle = engine.next_suite().expect("idle suite");
    assert_eq!(idle.app.name, "idle");
    assert!(idle.tests.is_empty());
}

#[test]
fn engine_success_folds_suite_outcomes() {
    let apps = vec![web_app()];
    let mut engine = Octopod::init("addr", apps, Vec::new()).expect("no declarations");
    assert!(engine.succeeded());
    engine.record_suite(&SuiteOutcome::Completed { success: true });
    assert!(engine.succeeded());
    engine.record_suite(&SuiteOutcome::Completed { success: false });
    assert!(!engine.succeeded());
    engine.record_suite(&SuiteOutcome::Completed { success: true });
    assert!(!engine.succeeded());
}

#[test]
fn an_aborted_suite_flips_the_engine_verdict() {
    let apps = vec![web_app()];
    let mut engine = Octopod::init("addr", apps, Vec::new()).expect("no declarations");
    engine.record_suite(&SuiteOutcome::Completed { success: true });
    assert!(engine.succeeded());
    // An aborted suite's tests did not all pass: the verdict goes false.
    engine.record_suite(&SuiteOutcome::Aborted { message: "network down".to_string() });
    assert!(!engine.succeeded());
    engine.record_suite(&SuiteOutcome::Completed { success: true });
    assert!(!engine.succeeded());
}

#[test]
fn log_all_flag_is_kept() {
    let engine = Octopod::init("addr", vec![web_app()], Vec::new()).expect("init");
    let engine = engine.log_all();
    assert!(engine.is_log_all());
}

#[test]
fn service_config_builders_accumulate() {
    let cfg = ServiceConfig::new("api", "img-x")
        .env(vec![("A".to_string(), "1".to_string())])
        .env(vec![("B".to_string(), "2".to_string())])
        .health("/health", 8080);
    assert_eq!(cfg.name, "api");
    assert_eq!(cfg.image, "img-x");
    assert_eq!(cfg.env.len(), 2);
    assert_eq!(cfg.env[0], ("A".to_string(), "1".to_string()));
    assert_eq!(cfg.env[1], ("B".to_string(), "2".to_string()));
    assert_eq!(cfg.health, Some(("/health".to_string(), 8080)));

    let plain = ServiceConfig::new("db", "img-y");
    assert!(plain.health.is_none());
    assert!(plain.env.is_empty());
}
