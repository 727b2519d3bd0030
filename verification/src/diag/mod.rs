//! The diagnosis engine.
//!
//! Two layers, deliberately separated:
//!
//! * **Checks** are facts. Each one runs an observation or a probe and reports
//!   pass/fail/warn/skip with the evidence that produced it. A check never
//!   speculates about causes.
//! * **Findings** (in `rules`) are interpretations. They read the whole set of
//!   check results and fire when a recognisable pattern is present.
pub mod check;
pub mod check_laws;
pub mod checks;
pub mod probe_check_laws;
pub mod probes;
pub mod report;
pub mod report_laws;
pub mod rule_laws;
pub mod rules;
pub mod run;
pub mod state;
