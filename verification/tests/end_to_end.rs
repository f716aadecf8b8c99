use octopod::driver::{InspectReport, NetworkAttachment, service_address};
use octopod::resource::Resource;
use octopod::runner::{Action, SuiteRun, UnitResult};
use octopod::service::ServiceConfig;
use octopod::{AppConfig, Octopod, SuiteOutcome, TestDecl};

/// The end-to-end scenario: application "web" declares services "api" and
/// "db"; one non-ignored test resolves "db"'s address on the provisioned
/// network; provisioning creates exactly one network and two services
/// aliased to their configured names; the test passes; the suite ledger
/// holds exactly three resources pending end-of-suite cleanup.
#[test]
fn web_scenario_provisions_one_network_and_two_services() {
    let mut web = AppConfig::new("web");
    web.add_service(ServiceConfig::new("api", "img-x"));
    web.add_service(ServiceConfig::new("db", "img-y"));
    assert!(web.services[1].health.is_none());

    let decls = vec![TestDecl {
        name: "t::db_reachable_from_api".to_string(),
        app: "web".to_string(),
        ignore: false,
    }];
    let mut engine = Octopod::init("addr", vec![web], decls).expect("init");
    let suite = engine.next_suite().expect("the web suite");
    let mut run = SuiteRun::new(suite);

    let network = match run.next_action() {
        Action::CreateNetwork { name } => {
            // The freshly generated network name is a rendered UUID.
            assert_eq!(name.len(), 36);
            name
        }
        other => panic!("expected CreateNetwork, got {:?}", other),
    };

    let action = run.network_created();
    match &action {
        Action::CreateService { service: 0, network: net } => assert_eq!(*net, network),
        other => panic!("expected CreateService for api, got {:?}", other),
    }
    assert_eq!(run.service_config(0).name, "api");
    assert_eq!(run.service_config(0).image, "img-x");

    let action = run.service_created("cid-api".to_string());
    match &action {
        Action::CreateService { service: 1, network: net } => assert_eq!(*net, network),
        other => panic!("expected CreateService for db, got {:?}", other),
    }
    assert_eq!(run.service_config(1).name, "db");
    assert_eq!(run.service_config(1).image, "img-y");

    let app = match run.service_created("cid-db".to_string()) {
        Action::StartUnit { test: 0, app } => app,
        other => panic!("expected StartUnit, got {:?}", other),
    };

    // The unit looks "db" up by name and resolves its address on the network.
    let db = app.service("db").expect("db is provisioned");
    assert_eq!(db.name, "db");
    assert_eq!(db.id, "cid-db");
    assert_eq!(db.net.name(), network.as_str());
    let api = app.service("api").expect("api is provisioned");
    assert_eq!(api.id, "cid-api");
    assert!(app.service("cache").is_none());

    let report = InspectReport {
        networks: Some(vec![NetworkAttachment {
            network: network.clone(),
            ip_address: Some("10.89.0.7".to_string()),
        }]),
    };
    let ip = service_address(&report, db.net.name()).expect("address resolves");
    assert_eq!(ip, "10.89.0.7");

    match run.unit_finished(UnitResult::Completed) {
        Action::Emit { result } => assert!(matches!(
            result.outcome,
            octopod::emitter::TestOutcome::Pass
        )),
        other => panic!("expected Emit, got {:?}", other),
    }
    match run.next_action() {
        Action::Finished => {}
        other => panic!("expected Finished, got {:?}", other),
    }

    let (ledger, outcome) = run.finish();
    assert!(matches!(outcome, SuiteOutcome::Completed { success: true }));

    // Exactly 3 resources, the network first, services in declared order,
    // aliased to their configured names.
    assert_eq!(ledger.len(), 3);
    match ledger.get(0) {
        Resource::Network(net) => assert_eq!(net.name(), network.as_str()),
        other => panic!("expected the network first, got {:?}", other),
    }
    match ledger.get(1) {
        Resource::Service(svc) => {
            assert_eq!(svc.name, "api");
            assert_eq!(svc.id, "cid-api");
            assert_eq!(svc.net.name(), network.as_str());
        }
        other => panic!("expected the api service, got {:?}", other),
    }
    match ledger.get(2) {
        Resource::Service(svc) => {
            assert_eq!(svc.name, "db");
            assert_eq!(svc.id, "cid-db");
            assert_eq!(svc.net.name(), network.as_str());
        }
        other => panic!("expected the db service, got {:?}", other),
    }
}

#[test]
fn two_runs_generate_their_own_network_names() {
    let mut web = AppConfig::new("web");
    web.add_service(ServiceConfig::new("api", "img-x"));
    let decls = vec![
        TestDecl { name: "t::a".to_string(), app: "web".to_string(), ignore: false },
        TestDecl { name: "t::b".to_string(), app: "web".to_string(), ignore: false },
    ];
    let mut engine = Octopod::init("addr", vec![web], decls).expect("init");
    let mut run = SuiteRun::new(engine.next_suite().expect("suite"));

    let first = match run.next_action() {
        Action::CreateNetwork { name } => name,
        other => panic!("expected CreateNetwork, got {:?}", other),
    };
    run.network_created();
    run.service_created("cid-1".to_string());
    run.unit_finished(UnitResult::Completed);

    let second = match run.next_action() {
        Action::CreateNetwork { name } => name,
        other => panic!("expected CreateNetwork, got {:?}", other),
    };
    assert_eq!(first.len(), 36);
    assert_eq!(second.len(), 36);
    // Fresh names per test environment: a UUID collision would defeat the
    // isolation the provisioner promises.
    assert_ne!(first, second);
}
