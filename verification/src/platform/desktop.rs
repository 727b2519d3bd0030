//! The desktop: the same screens against a daemon on this machine.
use vstd::prelude::*;

use crate::platform::start::InstalledApp;
use crate::proto::AndroidNetworkState;
use crate::text::{parse_i32, parse_u64, same, signed, texts, unsigned};

verus! {

/// A desktop, where there is no framework and no package manager.
pub struct DesktopPlatform {}

impl DesktopPlatform {
    /// Not inventing one: the framework/kernel agreement checks correctly
    /// report SKIP when there is nothing to compare against, and a fabricated
    /// state would make them lie.
    pub fn framework_state(&self) -> (r: Option<AndroidNetworkState>)
        ensures
            r is None,
    {
        None
    }

    /// Without a package manager there is no package-to-uid mapping.
    pub fn installed_apps(&self) -> (r: Vec<InstalledApp>)
        ensures
            r@.len() == 0,
    {
        Vec::new()
    }

    /// One line for the connect screen, so it is obvious which mode this is.
    pub fn describe(&self) -> (r: String)
        ensures
            r@ == "desktop harness · start the daemon with: sudo netdiagd --socket @netdiag"@,
    {
        String::from_str("desktop harness · start the daemon with: sudo netdiagd --socket @netdiag")
    }

    /// The conventional first human uid on Linux; below it are root and the
    /// system daemons.
    pub fn app_uid_floor(&self) -> (r: u32)
        ensures
            r == 1_000,
    {
        1_000
    }
}

/// What the desktop program was told.
pub struct DesktopArgs {
    /// Connect on startup instead of waiting for the button.
    pub connect: bool,
    /// Which tab to open.
    pub tab: i32,
    /// Render the window to this file and exit.
    pub snapshot: Option<String>,
    /// How long to let the screens settle before that.
    pub settle_ms: u64,
    /// Run the diagnosis once connected.
    pub diagnose: bool,
    pub capture: Option<String>,
    pub save_capture: bool,
}

impl DesktopArgs {
    /// When the capture is saved: a little before the screens have settled, but
    /// not before there can be something to write.
    pub fn save_delay_ms(&self) -> (r: u64)
        ensures
            r == if self.settle_ms > 1_800 {
                (self.settle_ms - 200) as u64
            } else {
                1_600
            },
    {
        if self.settle_ms > 1_800 {
            self.settle_ms - 200
        } else {
            1_600
        }
    }
}

/// What the desktop program says of its options.
pub fn desktop_help() -> (r: &'static str)
    ensures
        r@ == "netdiag-slint-desktop [--connect] [--tab N] [--snapshot FILE] [--settle-ms MS]\n\t[--diagnose] [--capture IFACE] [--save-capture]\n\nRuns the Slint UI against a daemon on this machine.\nTabs: 0 overview, 1 diagnose, 2 routing, 3 apps, 4 timeline\n--snapshot FILE renders the window to a PNG and exits."@,
{
    "netdiag-slint-desktop [--connect] [--tab N] [--snapshot FILE] [--settle-ms MS]\n\t[--diagnose] [--capture IFACE] [--save-capture]\n\nRuns the Slint UI against a daemon on this machine.\nTabs: 0 overview, 1 diagnose, 2 routing, 3 apps, 4 timeline\n--snapshot FILE renders the window to a PNG and exits."
}

/// What a command line of the desktop program asks for.
pub enum DesktopInvocation {
    Help,
    /// Run, leaving these arguments aside.
    Run(DesktopArgs, Vec<String>),
}

/// The options of a command line, and the arguments left aside.
pub struct DesktopOptions {
    pub connect: bool,
    pub tab: int,
    pub snapshot: Option<Seq<char>>,
    pub settle_ms: int,
    pub diagnose: bool,
    pub capture: Option<Seq<char>>,
    pub save_capture: bool,
    pub ignored: Seq<Seq<char>>,
}

pub open spec fn desktop_defaults() -> DesktopOptions {
    DesktopOptions {
        connect: false,
        tab: 0,
        snapshot: None,
        settle_ms: 2500,
        diagnose: false,
        capture: None,
        save_capture: false,
        ignored: Seq::empty(),
    }
}

/// The value behind an argument, if there is one.
pub open spec fn value_of(args: Seq<Seq<char>>) -> Option<Seq<char>> {
    if args.len() > 1 {
        Some(args[1])
    } else {
        None
    }
}

/// What the rest of a command line says, after some options; none for a call
/// for help. A value that is missing or no number is the default.
pub open spec fn read_desktop(args: Seq<Seq<char>>, o: DesktopOptions) -> Option<DesktopOptions>
    decreases args.len(),
{
    if args.len() == 0 {
        Some(o)
    } else {
        let arg = args[0];
        let value = value_of(args);
        let behind = if args.len() > 1 {
            args.skip(2)
        } else {
            Seq::empty()
        };
        if arg == "--connect"@ {
            read_desktop(args.skip(1), DesktopOptions { connect: true, ..o })
        } else if arg == "--tab"@ {
            let tab = match value {
                Some(v) => match signed(v, i32::MAX as nat) {
                    Some(n) => n,
                    None => 0,
                },
                None => 0,
            };
            read_desktop(behind, DesktopOptions { tab, ..o })
        } else if arg == "--snapshot"@ {
            read_desktop(behind, DesktopOptions { snapshot: value, ..o })
        } else if arg == "--diagnose"@ {
            read_desktop(args.skip(1), DesktopOptions { diagnose: true, ..o })
        } else if arg == "--capture"@ {
            read_desktop(behind, DesktopOptions { capture: value, ..o })
        } else if arg == "--save-capture"@ {
            read_desktop(args.skip(1), DesktopOptions { save_capture: true, ..o })
        } else if arg == "--settle-ms"@ {
            let ms = match value {
                Some(v) => match unsigned(v, u64::MAX as nat) {
                    Some(n) => n as int,
                    None => 2500,
                },
                None => 2500,
            };
            read_desktop(behind, DesktopOptions { settle_ms: ms, ..o })
        } else if arg == "-h"@ || arg == "--help"@ {
            None
        } else {
            read_desktop(args.skip(1), DesktopOptions { ignored: o.ignored.push(arg), ..o })
        }
    }
}

pub open spec fn text_of(s: Option<String>) -> Option<Seq<char>> {
    match s {
        Some(s) => Some(s@),
        None => None,
    }
}

/// Whether the arguments hold the options.
pub open spec fn desktop_hold(a: DesktopArgs, ignored: Seq<String>, o: DesktopOptions) -> bool {
    &&& a.connect == o.connect
    &&& a.tab == o.tab
    &&& text_of(a.snapshot) == o.snapshot
    &&& a.settle_ms == o.settle_ms
    &&& a.diagnose == o.diagnose
    &&& text_of(a.capture) == o.capture
    &&& a.save_capture == o.save_capture
    &&& texts(ignored) == o.ignored
}

proof fn lemma_behind(all: Seq<Seq<char>>, i: int)
    requires
        0 <= i < all.len(),
    ensures
        all.skip(i).skip(1) == all.skip(i + 1),
        all.skip(i).len() > 1 ==> all.skip(i).skip(2) == all.skip(i + 2),
        all.skip(i).len() <= 1 ==> all.skip(i + 1) == Seq::<Seq<char>>::empty(),
{
    assert(all.skip(i).skip(1) =~= all.skip(i + 1));
    if all.skip(i).len() > 1 {
        assert(all.skip(i).skip(2) =~= all.skip(i + 2));
    } else {
        assert(all.skip(i + 1) =~= Seq::<Seq<char>>::empty());
    }
}

/// Reads the arguments behind the program's name. An unknown one is left aside.
pub fn parse_desktop_args(args: &Vec<String>) -> (r: DesktopInvocation)
    ensures
        match read_desktop(texts(args@), desktop_defaults()) {
            None => r is Help,
            Some(o) => r matches DesktopInvocation::Run(a, ignored) && desktop_hold(a, ignored@, o),
        },
{
    let mut a = DesktopArgs {
        connect: false,
        tab: 0,
        snapshot: None,
        settle_ms: 2500,
        diagnose: false,
        capture: None,
        save_capture: false,
    };
    let mut ignored: Vec<String> = Vec::new();
    let ghost all = texts(args@);
    let ghost mut o = desktop_defaults();
    let mut i: usize = 0;
    assert(all.skip(0) =~= all);
    assert(texts(ignored@) =~= o.ignored);
    while i < args.len()
        invariant
            i <= args.len(),
            all == texts(args@),
            read_desktop(all, desktop_defaults()) == read_desktop(all.skip(i as int), o),
            desktop_hold(a, ignored@, o),
        decreases args.len() - i,
    {
        let arg = args[i].as_str();
        let ghost rest = all.skip(i as int);
        assert(rest[0] == arg@);
        proof {
            lemma_behind(all, i as int);
        }
        let has_value = i + 1 < args.len();
        let value = if has_value {
            Some(args[i + 1].clone())
        } else {
            None
        };
        assert(text_of(value) == value_of(rest));
        let behind = if has_value {
            i + 2
        } else {
            i + 1
        };
        if same(arg, "--connect") {
            a.connect = true;
            proof {
                o = DesktopOptions { connect: true, ..o };
            }
            i += 1;
        } else if same(arg, "--tab") {
            a.tab = match &value {
                Some(v) => match parse_i32(v.as_str()) {
                    Some(n) => n,
                    None => 0,
                },
                None => 0,
            };
            proof {
                o = DesktopOptions { tab: a.tab as int, ..o };
            }
            i = behind;
        } else if same(arg, "--snapshot") {
            a.snapshot = value;
            proof {
                o = DesktopOptions { snapshot: value_of(rest), ..o };
            }
            i = behind;
        } else if same(arg, "--diagnose") {
            a.diagnose = true;
            proof {
                o = DesktopOptions { diagnose: true, ..o };
            }
            i += 1;
        } else if same(arg, "--capture") {
            a.capture = value;
            proof {
                o = DesktopOptions { capture: value_of(rest), ..o };
            }
            i = behind;
        } else if same(arg, "--save-capture") {
            a.save_capture = true;
            proof {
                o = DesktopOptions { save_capture: true, ..o };
            }
            i += 1;
        } else if same(arg, "--settle-ms") {
            a.settle_ms = match &value {
                Some(v) => match parse_u64(v.as_str()) {
                    Some(n) => n,
                    None => 2500,
                },
                None => 2500,
            };
            proof {
                o = DesktopOptions { settle_ms: a.settle_ms as int, ..o };
            }
            i = behind;
        } else if same(arg, "-h") || same(arg, "--help") {
            return DesktopInvocation::Help;
        } else {
            let ghost before = texts(ignored@);
            ignored.push(args[i].clone());
            assert(texts(ignored@) =~= before.push(arg@));
            proof {
                o = DesktopOptions { ignored: o.ignored.push(arg@), ..o };
            }
            i += 1;
        }
    }
    assert(all.skip(i as int) =~= Seq::empty());
    DesktopInvocation::Run(a, ignored)
}

} // verus!
