//! What differs between running on a phone and running on a desktop: the
//! framework's own view of networking, the list of installed apps and their
//! uids, and starting the root daemon.
pub mod android;
pub mod desktop;
pub mod shim;
pub mod shim_laws;
pub mod start;
