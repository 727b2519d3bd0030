//! What the screens keep between two answers of the daemon.
use vstd::prelude::*;

use crate::correlate::{as_signed, signed_of};
use crate::platform::start::InstalledApp;
use crate::proto::{
    AndroidNetworkState, AppRef, Check, DiagnoseRequest, DiagnoseResponse,
    GetAppNetworkStateRequest, GetSnapshotRequest, HelloResponse, Snapshot, WatchNetworkRequest,
};
use crate::seqs::{
    collect_map, distinct_ascending, first, lemma_filter_end, lemma_filter_start,
    lemma_filter_step, sort_by,
};
use crate::text::{
    dec, dec_string, is_empty, lowercase, occurs_in, same, text_contains, texts, to_lowercase, trim,
    trim_text,
};
use crate::ui::{
    app_row_says, app_rows_said, check_row_says, interface_rows_said, table_rows_said, AppRow,
    AppRowSaid, CheckRow, DiagnosisData, EventRow, InterfaceRow, OverviewData, RouteTableRow,
};
use crate::view::{
    check_row, check_row_said, diagnosis, diagnosis_said, has_selector, interface_before,
    interface_row_said, interfaces, overview, overview_said, route_tables, rule_said, rules,
    table_row_said, tables_of,
};

verus! {

/// Events kept in the timeline. Older ones are dropped rather than growing
/// without bound on a device that is flapping.
pub const TIMELINE_CAPACITY: usize = 1000;

/// The request behind the first screen.
pub fn refresh_request(android_state: Option<AndroidNetworkState>) -> (r: GetSnapshotRequest)
    ensures
        r.include_sockets && r.include_socket_tcp_info && r.include_neighbors && r.include_firewall,
        r.include_sysctls && !r.include_counters && !r.include_qdiscs,
        r.android_state == android_state,
{
    GetSnapshotRequest {
        include_sockets: true,
        include_socket_tcp_info: true,
        include_neighbors: true,
        include_firewall: true,
        include_sysctls: true,
        include_counters: false,
        include_qdiscs: false,
        android_state,
    }
}

/// The timeline with a new event: newest first, bounded.
pub fn push_event(events: Vec<EventRow>, row: EventRow) -> (r: Vec<EventRow>)
    ensures
        r@ == seq![row] + first(events@, (TIMELINE_CAPACITY - 1) as nat),
{
    let ghost all = events@;
    let ghost new = row;
    let mut r: Vec<EventRow> = Vec::new();
    r.push(row);
    assert(r@ =~= seq![new] + first(all.take(0), (TIMELINE_CAPACITY - 1) as nat));
    for event in it: events
        invariant
            it.seq() == all,
            r@ == seq![new] + first(all.take(it.index()), (TIMELINE_CAPACITY - 1) as nat),
    {
        let ghost i = it.index();
        assert(all.take(i + 1).drop_last() =~= all.take(i));
        if r.len() < TIMELINE_CAPACITY {
            r.push(event);
        }
        assert(r@ =~= seq![new] + first(all.take(i + 1), (TIMELINE_CAPACITY - 1) as nat));
    }
    assert(all.take(all.len() as int) =~= all);
    r
}

/// The timeline never outgrows its capacity, and the newest event is its
/// first.
pub proof fn law_timeline_is_bounded(events: Seq<EventRow>, row: EventRow)
    ensures
        ({
            let r = seq![row] + first(events, (TIMELINE_CAPACITY - 1) as nat);
            r.len() <= TIMELINE_CAPACITY && r[0] == row
        }),
{
}

/// The place of the first row with a key, or the number of rows.
pub open spec fn place_of(rows: Seq<CheckRow>, key: Seq<char>) -> int
    decreases rows.len(),
{
    if rows.len() == 0 {
        0
    } else if rows[0].key@ == key {
        0
    } else {
        1 + place_of(rows.skip(1), key)
    }
}

/// The rows with a new one: in place of the row with its key, or behind all.
pub open spec fn with_check(rows: Seq<CheckRow>, row: CheckRow) -> Seq<CheckRow> {
    let at = place_of(rows, row.key@);
    if at < rows.len() {
        rows.update(at, row)
    } else {
        rows.push(row)
    }
}

/// Replace-or-append: a check is streamed once and then restated in the final
/// response, and duplicating rows mid-run would be confusing.
pub fn push_check(rows: &mut Vec<CheckRow>, row: CheckRow)
    ensures
        final(rows)@ == with_check(old(rows)@, row),
{
    let ghost before = rows@;
    let mut i: usize = 0;
    assert(before.skip(0) =~= before);
    while i < rows.len()
        invariant
            i <= rows.len(),
            rows@ == before,
            before == old(rows)@,
            place_of(before, row.key@) == i + place_of(before.skip(i as int), row.key@),
        decreases rows.len() - i,
    {
        assert(before.skip(i as int).skip(1) =~= before.skip(i + 1));
        if same(rows[i].key.as_str(), row.key.as_str()) {
            assert(before.skip(i as int)[0].key@ == row.key@);
            rows.set(i, row);
            return;
        }
        i += 1;
    }
    rows.push(row);
}

/// Whether no two rows have the same key.
pub open spec fn distinct_keys(rows: Seq<CheckRow>) -> bool {
    forall|i: int, j: int|
        0 <= i < j < rows.len() ==> (#[trigger] rows[i]).key@ != (#[trigger] rows[j]).key@
}

proof fn lemma_place(rows: Seq<CheckRow>, key: Seq<char>)
    ensures
        0 <= place_of(rows, key) <= rows.len(),
        place_of(rows, key) < rows.len() ==> rows[place_of(rows, key)].key@ == key,
        place_of(rows, key) == rows.len() ==> forall|i: int|
            0 <= i < rows.len() ==> (#[trigger] rows[i]).key@ != key,
    decreases rows.len(),
{
    if rows.len() > 0 && rows[0].key@ != key {
        let rest = rows.skip(1);
        lemma_place(rest, key);
        if place_of(rest, key) == rest.len() {
            assert forall|i: int| 0 <= i < rows.len() implies (#[trigger] rows[i]).key@ != key by {
                if i > 0 {
                    assert(rest[i - 1] == rows[i]);
                }
            }
        }
    }
}

/// However often checks are streamed, no check has two rows, and the last word
/// on a check is shown.
pub proof fn law_checks_are_never_duplicated(rows: Seq<CheckRow>, row: CheckRow)
    requires
        distinct_keys(rows),
    ensures
        distinct_keys(with_check(rows, row)),
        with_check(rows, row).contains(row),
{
    lemma_place(rows, row.key@);
    let at = place_of(rows, row.key@);
    let after = with_check(rows, row);
    assert(after[at] == row);
    assert forall|i: int, j: int| 0 <= i < j < after.len() implies (#[trigger] after[i]).key@ != (
    #[trigger] after[j]).key@ by {
        if j < rows.len() {
            assert(rows[i].key@ != rows[j].key@);
        } else {
            assert(rows[i].key@ != row.key@);
        }
    }
}

/// Opens or closes the row at a place; a place without one changes nothing.
pub fn toggle_check(rows: &mut Vec<CheckRow>, index: usize)
    ensures
        final(rows)@.len() == old(rows)@.len(),
        forall|i: int|
            0 <= i < old(rows)@.len() ==> #[trigger] final(rows)@[i] == if i == index {
                CheckRow { expanded: !old(rows)@[i].expanded, ..old(rows)@[i] }
            } else {
                old(rows)@[i]
            },
{
    if index < rows.len() {
        let row = &mut rows[index];
        row.expanded = !row.expanded;
    }
}

/// Opens or closes the row at a place; a place without one changes nothing.
pub fn toggle_interface(rows: &mut Vec<InterfaceRow>, index: usize)
    ensures
        final(rows)@.len() == old(rows)@.len(),
        forall|i: int|
            0 <= i < old(rows)@.len() ==> #[trigger] final(rows)@[i] == if i == index {
                InterfaceRow { expanded: !old(rows)@[i].expanded, ..old(rows)@[i] }
            } else {
                old(rows)@[i]
            },
{
    if index < rows.len() {
        let row = &mut rows[index];
        row.expanded = !row.expanded;
    }
}

/// Whether an app matches a query: by its label or its package, without regard
/// to case, or by its uid. A query of spaces matches every app.
pub open spec fn matches_query(query: Seq<char>) -> spec_fn(InstalledApp) -> bool {
    |a: InstalledApp|
        {
            let needle = lowercase(query);
            ||| trim(query).len() == 0
            ||| occurs_in(lowercase(a.label@), needle)
            ||| occurs_in(lowercase(a.package@), needle)
            ||| dec(a.uid as nat) == needle
        }
}

/// The apps that a query finds, in their order.
pub fn apply_filter(all: &Vec<InstalledApp>, query: &str) -> (r: Vec<InstalledApp>)
    ensures
        r@ == all@.filter(matches_query(query@)),
{
    let bare = trim_text(query);
    let everything = is_empty(bare.as_str());
    let needle = to_lowercase(query);
    let ghost p = matches_query(query@);
    let mut r: Vec<InstalledApp> = Vec::new();
    let mut i: usize = 0;
    proof {
        lemma_filter_start(all@, p);
    }
    while i < all.len()
        invariant
            i <= all.len(),
            p == matches_query(query@),
            everything == (trim(query@).len() == 0),
            needle@ == lowercase(query@),
            r@ == all@.take(i as int).filter(p),
        decreases all.len() - i,
    {
        proof {
            lemma_filter_step(all@, p, i as int);
        }
        let a = &all[i];
        let label = to_lowercase(a.label.as_str());
        let package = to_lowercase(a.package.as_str());
        let uid = dec_string(a.uid as u64);
        if everything || text_contains(label.as_str(), needle.as_str()) || text_contains(
            package.as_str(),
            needle.as_str(),
        ) || same(uid.as_str(), needle.as_str()) {
            r.push(a.copy());
        }
        i += 1;
    }
    proof {
        lemma_filter_end(all@, p);
    }
    r
}

pub open spec fn app_row_said() -> spec_fn(InstalledApp) -> AppRowSaid {
    |a: InstalledApp|
        AppRowSaid { label: a.label@, package: a.package@, uid: as_signed(a.uid) as i32 }
}

fn app_row(a: &InstalledApp) -> (r: AppRow)
    ensures
        app_row_says()(r) == app_row_said()(*a),
{
    let r = AppRow { label: a.label.clone(), package: a.package.clone(), uid: signed_of(a.uid) };
    assert(r.said() =~= app_row_said()(*a));
    r
}

/// The apps as rows.
pub fn app_list(apps: &Vec<InstalledApp>) -> (r: Vec<AppRow>)
    ensures
        app_rows_said(r@) == apps@.map_values(app_row_said()),
{
    collect_map::<InstalledApp, AppRow, AppRowSaid, _>(
        apps,
        app_row,
        Ghost(app_row_says()),
        Ghost(app_row_said()),
    )
}

// ---- The list of apps -----------------------------------------------------------

/// The apps that there are, and those that are shown.
pub struct AppState {
    pub apps: Vec<InstalledApp>,
    pub filtered: Vec<InstalledApp>,
}

impl AppState {
    /// Before anything is known, no app is.
    pub fn new() -> (r: Self)
        ensures
            r.apps@.len() == 0,
            r.filtered@.len() == 0,
    {
        AppState { apps: Vec::new(), filtered: Vec::new() }
    }

    /// Shows the apps that a query finds.
    pub fn show(&mut self, query: &str) -> (r: Vec<AppRow>)
        ensures
            final(self).apps == old(self).apps,
            final(self).filtered@ == old(self).apps@.filter(matches_query(query@)),
            app_rows_said(r@) == final(self).filtered@.map_values(app_row_said()),
    {
        let found = apply_filter(&self.apps, query);
        let rows = app_list(&found);
        self.filtered = found;
        rows
    }

    /// Takes the installed apps, and shows those that the query finds.
    pub fn set_apps(&mut self, apps: Vec<InstalledApp>, query: &str) -> (r: Vec<AppRow>)
        ensures
            final(self).apps == apps,
            final(self).filtered@ == apps@.filter(matches_query(query@)),
            app_rows_said(r@) == final(self).filtered@.map_values(app_row_said()),
    {
        self.apps = apps;
        self.show(query)
    }

    /// The request about the app in a row; none for a row that is not there.
    pub fn select_app(&self, index: i32, android_state: Option<AndroidNetworkState>) -> (r: Option<
        GetAppNetworkStateRequest,
    >)
        ensures
            r is Some <==> 0 <= index < self.filtered@.len(),
            r is Some ==> asks_about(r->0, self.filtered@[index as int], android_state),
    {
        if index < 0 || index as usize >= self.filtered.len() {
            return None;
        }
        let app = &self.filtered[index as usize];
        Some(
            GetAppNetworkStateRequest {
                app: Some(
                    AppRef {
                        package_name: app.package.clone(),
                        uid: app.uid,
                        label: app.label.clone(),
                        is_system: app.is_system,
                    },
                ),
                android_state,
                include_tcp_info: true,
                skip_route_lookup: false,
            },
        )
    }
}

/// Whether a request is about an app, with its lookups and the details of its
/// connections.
pub open spec fn asks_about(
    request: GetAppNetworkStateRequest,
    app: InstalledApp,
    android: Option<AndroidNetworkState>,
) -> bool {
    &&& request.app matches Some(a)
    &&& a.package_name@ == app.package@ && a.label@ == app.label@
    &&& a.uid == app.uid && a.is_system == app.is_system
    &&& request.android_state == android
    &&& request.include_tcp_info && !request.skip_route_lookup
}

/// A row of the filtered list asks about an app that the query found: the list
/// and the rows never come apart.
pub proof fn law_a_row_asks_about_what_it_shows(apps: Seq<InstalledApp>, query: Seq<char>, row: int)
    requires
        0 <= row < apps.filter(matches_query(query)).len(),
    ensures
        apps.contains(apps.filter(matches_query(query))[row]),
        matches_query(query)(apps.filter(matches_query(query))[row]),
        apps.filter(matches_query(query)).map_values(app_row_said())[row] == app_row_said()(
            apps.filter(matches_query(query))[row],
        ),
{
    let found = apps.filter(matches_query(query));
    apps.lemma_filter_contains_rev(matches_query(query), found[row]);
    apps.lemma_filter_pred(matches_query(query), row);
}

// ---- Answers of the daemon --------------------------------------------------------

/// What is shown of the daemon that answered.
pub fn daemon_line(hello: &HelloResponse) -> (r: String)
    ensures
        r@ == "daemon "@ + hello.daemon_version@ + " on kernel "@ + hello.kernel_release@,
{
    String::from_str("daemon ")
        .concat(hello.daemon_version.as_str())
        .concat(" on kernel ")
        .concat(hello.kernel_release.as_str())
}

/// What is shown of a snapshot that failed.
pub fn snapshot_failure(error: &str) -> (r: String)
    ensures
        r@ == "snapshot failed: "@ + error@,
{
    String::from_str("snapshot failed: ").concat(error)
}

/// What is shown of a question about an app that failed.
pub fn lookup_failure(error: &str) -> (r: String)
    ensures
        r@ == "per-app lookup failed: "@ + error@,
{
    String::from_str("per-app lookup failed: ").concat(error)
}

/// The request behind the diagnosis screen: every check, against the default
/// target.
pub fn diagnose_request(android_state: Option<AndroidNetworkState>) -> (r: DiagnoseRequest)
    ensures
        r.target is None,
        r.android_state == android_state,
        r.only@.len() == 0 && r.skip@.len() == 0,
        !r.passive_only,
{
    DiagnoseRequest {
        target: None,
        android_state,
        only: Vec::new(),
        skip: Vec::new(),
        passive_only: false,
    }
}

/// The subscription behind the timeline: everything, from the present state on.
pub fn timeline_request() -> (r: WatchNetworkRequest)
    ensures
        r.filter is None,
        r.replay_initial_state,
{
    WatchNetworkRequest { filter: None, replay_initial_state: true }
}

/// How many rules the routing screen shows.
pub const RULES_SHOWN: usize = 40;

/// The screens that a snapshot fills.
pub struct SnapshotScreens {
    pub overview: OverviewData,
    pub interfaces: Vec<InterfaceRow>,
    pub rules: Vec<String>,
    pub route_tables: Vec<RouteTableRow>,
}

/// The screens of a snapshot.
pub fn show_snapshot(snapshot: &Snapshot) -> (r: SnapshotScreens)
    ensures
        r.overview.said() == overview_said(*snapshot),
        interface_rows_said(r.interfaces@) == sort_by(
            snapshot.interfaces@,
            interface_before(),
        ).map_values(interface_row_said()),
        texts(r.rules@) == first(
            snapshot.rules@.filter(has_selector()),
            RULES_SHOWN as nat,
        ).map_values(rule_said()),
        table_rows_said(r.route_tables@) == distinct_ascending(
            tables_of(snapshot.routes@),
        ).map_values(table_row_said(*snapshot)),
{
    SnapshotScreens {
        overview: overview(snapshot),
        interfaces: interfaces(snapshot),
        rules: rules(snapshot, RULES_SHOWN),
        route_tables: route_tables(snapshot),
    }
}

/// What a running diagnosis sends: each check as it completes, and in the end
/// the whole report.
pub enum DiagnosisProgress {
    Check(Check),
    Response(DiagnoseResponse),
}

/// Whether rows became other rows by one that shows a check.
pub open spec fn shows_check_in(after: Seq<CheckRow>, before: Seq<CheckRow>, check: Check) -> bool {
    exists|row: CheckRow|
        check_row_says()(row) == check_row_said()(check) && after == #[trigger] with_check(before, row)
}

/// Takes in what a diagnosis sent, so that the list fills in while it runs. A
/// message without a payload changes nothing.
pub fn take_progress(screen: &mut DiagnosisData, progress: Option<DiagnosisProgress>)
    ensures
        match progress {
            None => *final(screen) == *old(screen),
            Some(DiagnosisProgress::Check(check)) => {
                &&& shows_check_in(final(screen).checks@, old(screen).checks@, check)
                &&& *final(screen) == (DiagnosisData {
                    checks: final(screen).checks,
                    ..*old(screen)
                })
            },
            Some(DiagnosisProgress::Response(response)) => final(screen).said() == diagnosis_said(
                response,
            ),
        },
{
    match progress {
        None => {},
        Some(DiagnosisProgress::Check(check)) => {
            let row = check_row(&check);
            push_check(&mut screen.checks, row);
            assert(with_check(old(screen).checks@, row) == screen.checks@);
        },
        Some(DiagnosisProgress::Response(response)) => {
            *screen = diagnosis(&response);
        },
    }
}

} // verus!
