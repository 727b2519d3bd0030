//! What the screens show, as plain rows.
//!
//! The library decides what a value says; a frontend decides only how it is
//! arranged on screen. Beside each kind of row stands what it says, with texts
//! and lists as mathematical sequences.
use vstd::prelude::*;

use crate::text::texts;

verus! {

/// How something is doing.
#[derive(Clone, Copy, Debug, Default, PartialEq, Eq, Structural)]
pub enum Status {
    #[default]
    Skip,
    Pass,
    Fail,
    Warn,
    Info,
}

/// A named value.
#[derive(Clone, Debug, Default, PartialEq)]
pub struct Field {
    pub key: String,
    pub value: String,
    pub status: Status,
    pub mono: bool,
}

/// What such a row says.
#[verifier::ext_equal]
pub struct FieldSaid {
    pub key: Seq<char>,
    pub value: Seq<char>,
    pub status: Status,
    pub mono: bool,
}

impl Field {
    pub open spec fn said(self) -> FieldSaid {
        FieldSaid {
            key: self.key@,
            value: self.value@,
            status: self.status,
            mono: self.mono,
        }
    }
}

pub open spec fn field_says() -> spec_fn(Field) -> FieldSaid {
    |x: Field| x.said()
}

pub open spec fn fields_said(v: Seq<Field>) -> Seq<FieldSaid> {
    v.map_values(field_says())
}

/// A short label.
#[derive(Clone, Debug, Default, PartialEq)]
pub struct ChipData {
    pub text: String,
    pub status: Status,
}

/// What such a row says.
#[verifier::ext_equal]
pub struct ChipDataSaid {
    pub text: Seq<char>,
    pub status: Status,
}

impl ChipData {
    pub open spec fn said(self) -> ChipDataSaid {
        ChipDataSaid {
            text: self.text@,
            status: self.status,
        }
    }
}

pub open spec fn chip_data_says() -> spec_fn(ChipData) -> ChipDataSaid {
    |x: ChipData| x.said()
}

pub open spec fn chips_said(v: Seq<ChipData>) -> Seq<ChipDataSaid> {
    v.map_values(chip_data_says())
}

/// The first screen.
#[derive(Clone, Debug, Default, PartialEq)]
pub struct OverviewData {
    pub connected: bool,
    pub transport: String,
    pub interface_name: String,
    pub net_id: String,
    pub dns: String,
    pub mtu: String,
    pub framework_chips: Vec<ChipData>,
    pub other_networks: Vec<String>,
    pub default_routes: Vec<String>,
    pub sockets_line: String,
    pub clat_line: String,
    pub kernel_release: String,
    pub collection: String,
    pub warnings: Vec<String>,
}

/// What such a row says.
#[verifier::ext_equal]
pub struct OverviewDataSaid {
    pub connected: bool,
    pub transport: Seq<char>,
    pub interface_name: Seq<char>,
    pub net_id: Seq<char>,
    pub dns: Seq<char>,
    pub mtu: Seq<char>,
    pub framework_chips: Seq<ChipDataSaid>,
    pub other_networks: Seq<Seq<char>>,
    pub default_routes: Seq<Seq<char>>,
    pub sockets_line: Seq<char>,
    pub clat_line: Seq<char>,
    pub kernel_release: Seq<char>,
    pub collection: Seq<char>,
    pub warnings: Seq<Seq<char>>,
}

impl OverviewData {
    pub open spec fn said(self) -> OverviewDataSaid {
        OverviewDataSaid {
            connected: self.connected,
            transport: self.transport@,
            interface_name: self.interface_name@,
            net_id: self.net_id@,
            dns: self.dns@,
            mtu: self.mtu@,
            framework_chips: chips_said(self.framework_chips@),
            other_networks: texts(self.other_networks@),
            default_routes: texts(self.default_routes@),
            sockets_line: self.sockets_line@,
            clat_line: self.clat_line@,
            kernel_release: self.kernel_release@,
            collection: self.collection@,
            warnings: texts(self.warnings@),
        }
    }
}

/// An interface.
#[derive(Clone, Debug, Default, PartialEq)]
pub struct InterfaceRow {
    pub name: String,
    pub subtitle: String,
    pub addresses: String,
    pub chips: Vec<ChipData>,
    pub fields: Vec<Field>,
    pub expanded: bool,
}

/// What such a row says.
#[verifier::ext_equal]
pub struct InterfaceRowSaid {
    pub name: Seq<char>,
    pub subtitle: Seq<char>,
    pub addresses: Seq<char>,
    pub chips: Seq<ChipDataSaid>,
    pub fields: Seq<FieldSaid>,
    pub expanded: bool,
}

impl InterfaceRow {
    pub open spec fn said(self) -> InterfaceRowSaid {
        InterfaceRowSaid {
            name: self.name@,
            subtitle: self.subtitle@,
            addresses: self.addresses@,
            chips: chips_said(self.chips@),
            fields: fields_said(self.fields@),
            expanded: self.expanded,
        }
    }
}

pub open spec fn interface_row_says() -> spec_fn(InterfaceRow) -> InterfaceRowSaid {
    |x: InterfaceRow| x.said()
}

pub open spec fn interface_rows_said(v: Seq<InterfaceRow>) -> Seq<InterfaceRowSaid> {
    v.map_values(interface_row_says())
}

/// A routing table.
#[derive(Clone, Debug, Default, PartialEq)]
pub struct RouteTableRow {
    pub title: String,
    pub subtitle: String,
    pub lines: Vec<String>,
}

/// What such a row says.
#[verifier::ext_equal]
pub struct RouteTableRowSaid {
    pub title: Seq<char>,
    pub subtitle: Seq<char>,
    pub lines: Seq<Seq<char>>,
}

impl RouteTableRow {
    pub open spec fn said(self) -> RouteTableRowSaid {
        RouteTableRowSaid {
            title: self.title@,
            subtitle: self.subtitle@,
            lines: texts(self.lines@),
        }
    }
}

pub open spec fn route_table_row_says() -> spec_fn(RouteTableRow) -> RouteTableRowSaid {
    |x: RouteTableRow| x.said()
}

pub open spec fn table_rows_said(v: Seq<RouteTableRow>) -> Seq<RouteTableRowSaid> {
    v.map_values(route_table_row_says())
}

/// A check.
#[derive(Clone, Debug, Default, PartialEq)]
pub struct CheckRow {
    pub key: String,
    pub title: String,
    pub detail: String,
    pub status: Status,
    pub duration: String,
    pub evidence: Vec<Field>,
    pub expanded: bool,
}

/// What such a row says.
#[verifier::ext_equal]
pub struct CheckRowSaid {
    pub key: Seq<char>,
    pub title: Seq<char>,
    pub detail: Seq<char>,
    pub status: Status,
    pub duration: Seq<char>,
    pub evidence: Seq<FieldSaid>,
    pub expanded: bool,
}

impl CheckRow {
    pub open spec fn said(self) -> CheckRowSaid {
        CheckRowSaid {
            key: self.key@,
            title: self.title@,
            detail: self.detail@,
            status: self.status,
            duration: self.duration@,
            evidence: fields_said(self.evidence@),
            expanded: self.expanded,
        }
    }
}

pub open spec fn check_row_says() -> spec_fn(CheckRow) -> CheckRowSaid {
    |x: CheckRow| x.said()
}

pub open spec fn check_rows_said(v: Seq<CheckRow>) -> Seq<CheckRowSaid> {
    v.map_values(check_row_says())
}

/// A finding.
#[derive(Clone, Debug, Default, PartialEq)]
pub struct FindingRow {
    pub key: String,
    pub title: String,
    pub severity: String,
    pub status: Status,
    pub confidence: i32,
    pub paragraphs: Vec<String>,
    pub actions: Vec<String>,
    pub based_on: String,
}

/// What such a row says.
#[verifier::ext_equal]
pub struct FindingRowSaid {
    pub key: Seq<char>,
    pub title: Seq<char>,
    pub severity: Seq<char>,
    pub status: Status,
    pub confidence: i32,
    pub paragraphs: Seq<Seq<char>>,
    pub actions: Seq<Seq<char>>,
    pub based_on: Seq<char>,
}

impl FindingRow {
    pub open spec fn said(self) -> FindingRowSaid {
        FindingRowSaid {
            key: self.key@,
            title: self.title@,
            severity: self.severity@,
            status: self.status,
            confidence: self.confidence,
            paragraphs: texts(self.paragraphs@),
            actions: texts(self.actions@),
            based_on: self.based_on@,
        }
    }
}

pub open spec fn finding_row_says() -> spec_fn(FindingRow) -> FindingRowSaid {
    |x: FindingRow| x.said()
}

pub open spec fn finding_rows_said(v: Seq<FindingRow>) -> Seq<FindingRowSaid> {
    v.map_values(finding_row_says())
}

/// The diagnosis screen.
#[derive(Clone, Debug, Default, PartialEq)]
pub struct DiagnosisData {
    pub running: bool,
    pub summary: String,
    pub counts: Vec<ChipData>,
    pub checks: Vec<CheckRow>,
    pub findings: Vec<FindingRow>,
}

/// What such a row says.
#[verifier::ext_equal]
pub struct DiagnosisDataSaid {
    pub running: bool,
    pub summary: Seq<char>,
    pub counts: Seq<ChipDataSaid>,
    pub checks: Seq<CheckRowSaid>,
    pub findings: Seq<FindingRowSaid>,
}

impl DiagnosisData {
    pub open spec fn said(self) -> DiagnosisDataSaid {
        DiagnosisDataSaid {
            running: self.running,
            summary: self.summary@,
            counts: chips_said(self.counts@),
            checks: check_rows_said(self.checks@),
            findings: finding_rows_said(self.findings@),
        }
    }
}

/// A socket.
#[derive(Clone, Debug, Default, PartialEq)]
pub struct SocketRow {
    pub state: String,
    pub status: Status,
    pub tuple: String,
    pub meta: String,
    pub owner: String,
}

/// What such a row says.
#[verifier::ext_equal]
pub struct SocketRowSaid {
    pub state: Seq<char>,
    pub status: Status,
    pub tuple: Seq<char>,
    pub meta: Seq<char>,
    pub owner: Seq<char>,
}

impl SocketRow {
    pub open spec fn said(self) -> SocketRowSaid {
        SocketRowSaid {
            state: self.state@,
            status: self.status,
            tuple: self.tuple@,
            meta: self.meta@,
            owner: self.owner@,
        }
    }
}

pub open spec fn socket_row_says() -> spec_fn(SocketRow) -> SocketRowSaid {
    |x: SocketRow| x.said()
}

pub open spec fn socket_rows_said(v: Seq<SocketRow>) -> Seq<SocketRowSaid> {
    v.map_values(socket_row_says())
}

/// One app.
#[derive(Clone, Debug, Default, PartialEq)]
pub struct AppDetailData {
    pub present: bool,
    pub label: String,
    pub package: String,
    pub uid: i32,
    pub summary: String,
    pub chips: Vec<ChipData>,
    pub framework: Vec<Field>,
    pub rules: Vec<String>,
    pub routing: Vec<Field>,
    pub vpn_present: bool,
    pub vpn_title: String,
    pub vpn_chip: ChipData,
    pub vpn: Vec<Field>,
    pub sockets: Vec<SocketRow>,
    pub socket_summary: String,
    pub firewall: String,
}

/// What such a row says.
#[verifier::ext_equal]
pub struct AppDetailDataSaid {
    pub present: bool,
    pub label: Seq<char>,
    pub package: Seq<char>,
    pub uid: i32,
    pub summary: Seq<char>,
    pub chips: Seq<ChipDataSaid>,
    pub framework: Seq<FieldSaid>,
    pub rules: Seq<Seq<char>>,
    pub routing: Seq<FieldSaid>,
    pub vpn_present: bool,
    pub vpn_title: Seq<char>,
    pub vpn_chip: ChipDataSaid,
    pub vpn: Seq<FieldSaid>,
    pub sockets: Seq<SocketRowSaid>,
    pub socket_summary: Seq<char>,
    pub firewall: Seq<char>,
}

impl AppDetailData {
    pub open spec fn said(self) -> AppDetailDataSaid {
        AppDetailDataSaid {
            present: self.present,
            label: self.label@,
            package: self.package@,
            uid: self.uid,
            summary: self.summary@,
            chips: chips_said(self.chips@),
            framework: fields_said(self.framework@),
            rules: texts(self.rules@),
            routing: fields_said(self.routing@),
            vpn_present: self.vpn_present,
            vpn_title: self.vpn_title@,
            vpn_chip: self.vpn_chip.said(),
            vpn: fields_said(self.vpn@),
            sockets: socket_rows_said(self.sockets@),
            socket_summary: self.socket_summary@,
            firewall: self.firewall@,
        }
    }
}

/// An entry of the timeline.
#[derive(Clone, Debug, Default, PartialEq)]
pub struct EventRow {
    pub time: String,
    pub source: String,
    pub status: Status,
    pub summary: String,
}

/// What such a row says.
#[verifier::ext_equal]
pub struct EventRowSaid {
    pub time: Seq<char>,
    pub source: Seq<char>,
    pub status: Status,
    pub summary: Seq<char>,
}

impl EventRow {
    pub open spec fn said(self) -> EventRowSaid {
        EventRowSaid {
            time: self.time@,
            source: self.source@,
            status: self.status,
            summary: self.summary@,
        }
    }
}

/// The sockets screen.
#[derive(Clone, Debug, Default, PartialEq)]
pub struct SocketsData {
    pub summary: String,
    pub hidden: String,
    pub rows: Vec<SocketRow>,
}

/// What such a row says.
#[verifier::ext_equal]
pub struct SocketsDataSaid {
    pub summary: Seq<char>,
    pub hidden: Seq<char>,
    pub rows: Seq<SocketRowSaid>,
}

impl SocketsData {
    pub open spec fn said(self) -> SocketsDataSaid {
        SocketsDataSaid {
            summary: self.summary@,
            hidden: self.hidden@,
            rows: socket_rows_said(self.rows@),
        }
    }
}

/// A captured packet.
#[derive(Clone, Debug, Default, PartialEq)]
pub struct PacketRow {
    pub time: String,
    pub status: Status,
    pub summary: String,
    pub detail: String,
}

/// What such a row says.
#[verifier::ext_equal]
pub struct PacketRowSaid {
    pub time: Seq<char>,
    pub status: Status,
    pub summary: Seq<char>,
    pub detail: Seq<char>,
}

impl PacketRow {
    pub open spec fn said(self) -> PacketRowSaid {
        PacketRowSaid {
            time: self.time@,
            status: self.status,
            summary: self.summary@,
            detail: self.detail@,
        }
    }
}

pub open spec fn packet_row_says() -> spec_fn(PacketRow) -> PacketRowSaid {
    |x: PacketRow| x.said()
}

pub open spec fn packet_rows_said(v: Seq<PacketRow>) -> Seq<PacketRowSaid> {
    v.map_values(packet_row_says())
}

/// The capture screen.
#[derive(Clone, Debug, Default, PartialEq)]
pub struct CaptureData {
    pub running: bool,
    pub interface: String,
    pub summary: String,
    pub error: String,
    pub saved_path: String,
    pub packets: Vec<PacketRow>,
}

/// What such a row says.
#[verifier::ext_equal]
pub struct CaptureDataSaid {
    pub running: bool,
    pub interface: Seq<char>,
    pub summary: Seq<char>,
    pub error: Seq<char>,
    pub saved_path: Seq<char>,
    pub packets: Seq<PacketRowSaid>,
}

impl CaptureData {
    pub open spec fn said(self) -> CaptureDataSaid {
        CaptureDataSaid {
            running: self.running,
            interface: self.interface@,
            summary: self.summary@,
            error: self.error@,
            saved_path: self.saved_path@,
            packets: packet_rows_said(self.packets@),
        }
    }
}

/// An installed application.
#[derive(Clone, Debug, Default, PartialEq)]
pub struct AppRow {
    pub label: String,
    pub package: String,
    pub uid: i32,
}

/// What such a row says.
#[verifier::ext_equal]
pub struct AppRowSaid {
    pub label: Seq<char>,
    pub package: Seq<char>,
    pub uid: i32,
}

impl AppRow {
    pub open spec fn said(self) -> AppRowSaid {
        AppRowSaid {
            label: self.label@,
            package: self.package@,
            uid: self.uid,
        }
    }
}

pub open spec fn app_row_says() -> spec_fn(AppRow) -> AppRowSaid {
    |x: AppRow| x.said()
}

pub open spec fn app_rows_said(v: Seq<AppRow>) -> Seq<AppRowSaid> {
    v.map_values(app_row_says())
}

} // verus!
