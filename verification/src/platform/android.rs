//! A phone: the framework's own view, the installed apps, and starting the
//! daemon as root.
use vstd::prelude::*;

use crate::platform::shim::{
    after_lines, apps_said, framework_told, package_lines, parse_framework_snapshot, parse_packages,
    said_before, AppSaid,
};
use crate::platform::start::{command_text, start_command, InstalledApp};
use crate::proto::AndroidNetworkState;
use crate::seqs::sort_by;
use crate::text::{dec, dec_string, lines};

verus! {

/// A phone: where the daemon lies, and who asks for it.
pub struct AndroidPlatform {
    pub daemon_path: String,
    pub package_name: String,
    pub uid: u32,
}

impl AndroidPlatform {
    /// The platform of an app whose native libraries were extracted to a
    /// directory. The daemon rides along as one of them: only they are
    /// extracted to where execution is permitted.
    pub fn new(package_name: String, native_dir: &str, uid: u32) -> (r: Self)
        ensures
            r.daemon_path@ == native_dir@ + "/libnetdiagd.so"@,
            r.package_name == package_name,
            r.uid == uid,
    {
        AndroidPlatform { daemon_path: String::from_str(native_dir).concat("/libnetdiagd.so"), package_name, uid }
    }

    /// What this app is listed as where no other is.
    pub open spec fn self_said(self) -> AppSaid {
        AppSaid {
            package: self.package_name@,
            label: self.package_name@ + " (this app)"@,
            uid: self.uid,
            is_system: false,
        }
    }

    /// The fallback when the packages cannot be read: the per-app screen still
    /// works against this app's own uid.
    pub fn only_this_app(&self) -> (r: InstalledApp)
        ensures
            r.package@ == self.package_name@,
            r.label@ == self.package_name@ + " (this app)"@,
            r.uid == self.uid,
            !r.is_system,
    {
        InstalledApp {
            package: self.package_name.clone(),
            label: String::from_str(self.package_name.as_str()).concat(" (this app)"),
            uid: self.uid,
            is_system: false,
        }
    }

    /// The framework's view, from the snapshot that was collected. None where
    /// it could not be, or where its format is not known: the checks then skip
    /// the comparison, and the report is poorer but not wrong.
    pub fn framework_state(&self, snapshot: Option<&str>) -> (r: Option<AndroidNetworkState>)
        ensures
            match snapshot {
                Some(text) => match after_lines(lines(text@)) {
                    Some(s) => if s.header is Some {
                        r is Some && framework_told(r->0, s)
                    } else {
                        r is None
                    },
                    None => r is None,
                },
                None => r is None,
            },
    {
        match snapshot {
            Some(text) => parse_framework_snapshot(text),
            None => None,
        }
    }

    /// The installed apps, from the listing that was collected; this app alone
    /// where it could not be, or where it holds none.
    pub fn installed_apps(&self, listing: Option<&str>) -> (r: Vec<InstalledApp>)
        ensures
            ({
                let listed = match listing {
                    Some(text) => sort_by(package_lines(lines(text@)), said_before()),
                    None => Seq::empty(),
                };
                apps_said(r@) == if listed.len() > 0 {
                    listed
                } else {
                    seq![self.self_said()]
                }
            }),
    {
        if let Some(text) = listing {
            let apps = parse_packages(text);
            assert(apps_said(apps@).len() == apps@.len());
            if apps.len() > 0 {
                return apps;
            }
        }
        let mut r: Vec<InstalledApp> = Vec::new();
        r.push(self.only_this_app());
        assert(apps_said(r@) =~= seq![self.self_said()]);
        r
    }

    /// The first uid that Android hands to an installed app.
    pub fn app_uid_floor(&self) -> (r: u32)
        ensures
            r == 10_000,
    {
        10_000
    }

    /// One line for the connect screen, so it is obvious which mode this is.
    pub fn describe(&self) -> (r: String)
        ensures
            r@ == "uid "@ + dec(self.uid as nat) + " · "@ + self.daemon_path@,
    {
        let uid = dec_string(self.uid as u64);
        String::from_str("uid ")
            .concat(uid.as_str())
            .concat(" · ")
            .concat(self.daemon_path.as_str())
    }
}

// ---- Starting the daemon ------------------------------------------------------

/// How often a daemon that was started is looked for.
pub const START_POLLS: u32 = 50;

/// The pause between two looks. A fast device is not made to wait longer.
pub const START_POLL_MS: u64 = 150;

/// The first `su` that is there, by its absolute path where it has a known one.
pub open spec fn su_text(in_system: bool, in_su: bool) -> Seq<char> {
    if in_system {
        "/system/bin/su"@
    } else if in_su {
        "/su/bin/su"@
    } else {
        "su"@
    }
}

/// The `su` to run, by whether /system/bin/su and /su/bin/su are there.
pub fn choose_su(in_system: bool, in_su: bool) -> (r: &'static str)
    ensures
        r@ == su_text(in_system, in_su),
{
    if in_system {
        "/system/bin/su"
    } else if in_su {
        "/su/bin/su"
    } else {
        "su"
    }
}

/// What came of running `su`.
pub enum SuOutcome {
    Started,
    /// It could not be run, for a reason.
    NotRun(String),
    /// It ended with a status.
    Refused(String),
}

/// What is to be done next.
pub enum StartAction {
    /// See whether the daemon answers on its socket.
    Probe,
    /// Run the command as root.
    Run(String),
    /// Pause, and then go on.
    Wait,
    /// The daemon runs.
    Done,
    /// It could not be started.
    Fail(String),
}

/// The start of a daemon: `polls` is how many looks are left once it has been
/// started.
#[derive(Clone, Copy, Debug, PartialEq, Eq, Structural)]
pub struct DaemonStart {
    pub polls: Option<u32>,
}

impl DaemonStart {
    /// The first thing to do is to probe: a daemon may be running already.
    pub fn new() -> (r: Self)
        ensures
            r.polls is None,
    {
        DaemonStart { polls: None }
    }

    /// Whether this is how the start goes on after a probe.
    pub open spec fn goes_on(
        self,
        platform: AndroidPlatform,
        answers: bool,
        after: DaemonStart,
        r: StartAction,
    ) -> bool {
        &&& answers ==> r is Done && after.polls == self.polls
        &&& !answers && self.polls is None ==> {
            &&& r matches StartAction::Run(command)
            &&& command@ == command_text(
                platform.daemon_path@,
                platform.package_name@,
                platform.uid,
            )
            &&& after.polls is None
        }
        &&& !answers && self.polls is Some ==> {
            &&& r is Wait
            &&& after.polls == Some(
                if self.polls->0 > 0 {
                    (self.polls->0 - 1) as u32
                } else {
                    0u32
                },
            )
        }
    }

    /// Goes on after a probe. One that finds the daemon is the end; the first
    /// that does not has it started, and each later one waits.
    pub fn probed(&mut self, platform: &AndroidPlatform, answers: bool) -> (r: StartAction)
        ensures
            old(self).goes_on(*platform, answers, *final(self), r),
    {
        if answers {
            return StartAction::Done;
        }
        match self.polls {
            None => StartAction::Run(
                start_command(
                    platform.daemon_path.as_str(),
                    platform.package_name.as_str(),
                    platform.uid,
                ),
            ),
            Some(left) => {
                self.polls = Some(if left > 0 { left - 1 } else { 0 });
                StartAction::Wait
            },
        }
    }

    /// Goes on after `su` was run. The error says which step failed: a bare
    /// error number could be that of `su`, of the shell or of the daemon, and
    /// they need different fixes.
    pub fn ran(&mut self, su: &str, outcome: SuOutcome) -> (r: StartAction)
        ensures
            match outcome {
                SuOutcome::Started => r is Probe && final(self).polls == Some(START_POLLS),
                SuOutcome::NotRun(why) => {
                    &&& r matches StartAction::Fail(message)
                    &&& message@ == "could not run "@ + su@ + ": "@ + why@
                    &&& final(self).polls == old(self).polls
                },
                SuOutcome::Refused(status) => {
                    &&& r matches StartAction::Fail(message)
                    &&& message@ == su@ + " refused to start the daemon (exit "@ + status@ + ")"@
                    &&& final(self).polls == old(self).polls
                },
            },
    {
        match outcome {
            SuOutcome::Started => {
                self.polls = Some(START_POLLS);
                StartAction::Probe
            },
            SuOutcome::NotRun(why) => StartAction::Fail(
                String::from_str("could not run ")
                    .concat(su)
                    .concat(": ")
                    .concat(why.as_str()),
            ),
            SuOutcome::Refused(status) => StartAction::Fail(
                String::from_str(su)
                    .concat(" refused to start the daemon (exit ")
                    .concat(status.as_str())
                    .concat(")"),
            ),
        }
    }

    /// Goes on after a pause: with another look where one is left.
    pub fn waited(&self) -> (r: StartAction)
        ensures
            self.polls matches Some(left) && left > 0 ==> r is Probe,
            !(self.polls matches Some(left) && left > 0) ==> {
                &&& r matches StartAction::Fail(message)
                &&& message@ == "the daemon did not bind @netdiag"@
            },
    {
        match self.polls {
            Some(left) if left > 0 => StartAction::Probe,
            _ => StartAction::Fail(String::from_str("the daemon did not bind @netdiag")),
        }
    }
}

} // verus!
