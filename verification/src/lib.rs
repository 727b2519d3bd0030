//! Network diagnosis for Android and Linux: what the kernel's tables, a few
//! probes and the Android framework say about a device's connectivity, and
//! what follows from it.
pub mod app;
pub mod capture;
pub mod capture_laws;
pub mod cli;
pub mod codec;
pub mod collect;
pub mod correlate;
pub mod correlate_laws;
pub mod daemon;
pub mod daemon_laws;
pub mod diag;
pub mod format;
pub mod ip;
pub mod ip_parse;
pub mod ipc;
pub mod platform;
pub mod probe;
pub mod proto;
pub mod seq_laws;
pub mod seqs;
pub mod snapshot;
pub mod streams;
pub mod text;
pub mod text_laws;
pub mod textmap;
pub mod ui;
pub mod util;
pub mod view;
pub mod view_laws;
pub mod watch;
pub mod watch_laws;
pub mod wire;
