use netdiag::app::{
    daemon_line, diagnose_request, lookup_failure, show_snapshot, snapshot_failure, take_progress,
    timeline_request, AppState, DiagnosisProgress,
};
use netdiag::platform::android::{
    choose_su, AndroidPlatform, DaemonStart, StartAction, SuOutcome, START_POLLS,
};
use netdiag::platform::start::InstalledApp;
use netdiag::proto::{
    Check, CheckStatus, DiagnoseResponse, HelloResponse, Route, RoutingRule, Snapshot,
};
use netdiag::view::empty_diagnosis;

fn phone() -> AndroidPlatform {
    AndroidPlatform::new("com.example.inspector".to_string(), "/data/app/lib", 10_234)
}

fn app(package: &str, label: &str, uid: u32) -> InstalledApp {
    InstalledApp {
        package: package.to_string(),
        label: label.to_string(),
        uid,
        is_system: false,
    }
}

#[test]
fn a_phone_knows_its_daemon() {
    let phone = phone();
    assert_eq!(phone.describe(), "uid 10234 · /data/app/lib/libnetdiagd.so");
    assert_eq!(phone.app_uid_floor(), 10_000);
    assert!(phone.framework_state(None).is_none());
    assert!(phone.framework_state(Some("nothing that is known")).is_none());
}

#[test]
fn without_a_listing_there_is_this_app() {
    let phone = phone();
    for listing in [None, Some(""), Some("not a package")] {
        let apps = phone.installed_apps(listing);
        assert_eq!(apps.len(), 1);
        assert_eq!(apps[0].label, "com.example.inspector (this app)");
        assert_eq!(apps[0].uid, 10_234);
    }
}

#[test]
fn a_daemon_that_answers_is_not_started() {
    let mut start = DaemonStart::new();
    assert!(matches!(start.probed(&phone(), true), StartAction::Done));
}

#[test]
fn a_daemon_is_looked_for_a_while_and_then_given_up() {
    let mut start = DaemonStart::new();
    match start.probed(&phone(), false) {
        StartAction::Run(command) => assert!(
            command.starts_with("nohup '/data/app/lib/libnetdiagd.so' --socket @netdiag"),
            "{command}"
        ),
        _ => panic!("the daemon has to be started"),
    }
    assert!(matches!(start.ran("su", SuOutcome::Started), StartAction::Probe));
    let mut looks = 0;
    loop {
        looks += 1;
        assert!(matches!(start.probed(&phone(), false), StartAction::Wait));
        match start.waited() {
            StartAction::Probe => {}
            StartAction::Fail(message) => {
                assert_eq!(message, "the daemon did not bind @netdiag");
                break;
            }
            _ => panic!("a pause ends in a look or in giving up"),
        }
    }
    assert_eq!(looks, START_POLLS);
}

#[test]
fn the_step_that_failed_is_named() {
    let mut start = DaemonStart::new();
    start.probed(&phone(), false);
    let su = choose_su(false, true);
    assert_eq!(su, "/su/bin/su");
    assert_eq!(choose_su(true, true), "/system/bin/su");
    assert_eq!(choose_su(false, false), "su");
    match start.ran(su, SuOutcome::NotRun("No such file".to_string())) {
        StartAction::Fail(message) => assert_eq!(message, "could not run /su/bin/su: No such file"),
        _ => panic!("nothing was run"),
    }
    match start.ran(su, SuOutcome::Refused("exit status: 1".to_string())) {
        StartAction::Fail(message) => {
            assert_eq!(message, "/su/bin/su refused to start the daemon (exit exit status: 1)")
        }
        _ => panic!("it was refused"),
    }
}

#[test]
fn a_row_asks_about_the_app_it_shows() {
    let mut state = AppState::new();
    assert!(state.select_app(0, None).is_none());
    let apps = vec![
        app("com.example.mail", "Mail", 10_100),
        app("com.example.maps", "Maps", 10_101),
        app("org.example.player", "Player", 10_102),
    ];
    assert_eq!(state.set_apps(apps, "").len(), 3);
    let rows = state.show("MAP");
    assert_eq!(rows.len(), 1);
    assert_eq!((rows[0].label.as_str(), rows[0].uid), ("Maps", 10_101));
    let request = state.select_app(0, None).unwrap();
    let asked = request.app.unwrap();
    assert_eq!((asked.package_name.as_str(), asked.uid), ("com.example.maps", 10_101));
    assert!(request.include_tcp_info && !request.skip_route_lookup);
    assert!(state.select_app(1, None).is_none());
    assert!(state.select_app(-1, None).is_none());
    assert_eq!(state.show("10102").len(), 1);
    assert_eq!(state.show("  ").len(), 3);
}

#[test]
fn a_diagnosis_fills_in_while_it_runs() {
    let check = |key: &str, detail: &str| Check {
        key: key.to_string(),
        detail: detail.to_string(),
        status: CheckStatus::Pass,
        ..Default::default()
    };
    let mut screen = empty_diagnosis(true);
    take_progress(&mut screen, Some(DiagnosisProgress::Check(check("tcp.v4", "first"))));
    take_progress(&mut screen, Some(DiagnosisProgress::Check(check("tcp.v6", "other"))));
    take_progress(&mut screen, None);
    take_progress(&mut screen, Some(DiagnosisProgress::Check(check("tcp.v4", "again"))));
    let shown: Vec<&str> = screen.checks.iter().map(|c| c.detail.as_str()).collect();
    assert_eq!(shown, ["again", "other"]);
    assert!(screen.running);
    let report = DiagnoseResponse {
        summary: "all well".to_string(),
        checks: vec![check("tcp.v4", "last")],
        ..Default::default()
    };
    take_progress(&mut screen, Some(DiagnosisProgress::Response(report)));
    assert!(!screen.running);
    assert_eq!((screen.summary.as_str(), screen.checks.len()), ("all well", 1));
}

#[test]
fn a_snapshot_fills_its_screens() {
    let snapshot = Snapshot {
        routes: vec![Route { table: 7, ..Default::default() }],
        rules: (0..60).map(|_| RoutingRule { has_fwmark: true, ..Default::default() }).collect(),
        ..Default::default()
    };
    let screens = show_snapshot(&snapshot);
    assert_eq!(screens.rules.len(), 40);
    assert_eq!(screens.route_tables.len(), 1);
    assert!(screens.interfaces.is_empty() && screens.overview.connected);
}

#[test]
fn requests_and_lines_of_the_screens() {
    let hello = HelloResponse {
        daemon_version: "0.1.0".to_string(),
        kernel_release: "6.1.99".to_string(),
        ..Default::default()
    };
    assert_eq!(daemon_line(&hello), "daemon 0.1.0 on kernel 6.1.99");
    assert_eq!(snapshot_failure("gone"), "snapshot failed: gone");
    assert_eq!(lookup_failure("gone"), "per-app lookup failed: gone");
    assert!(timeline_request().filter.is_none() && timeline_request().replay_initial_state);
    let request = diagnose_request(None);
    assert!(request.target.is_none() && request.only.is_empty() && !request.passive_only);
}
