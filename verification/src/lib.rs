//! A guest-facing actor-model runtime core: isolated processes, tagged
//! selective receive over mailboxes, bidirectional failure links, spawn
//! configuration, and a pluggable wire-encoding abstraction.
//!
//! The scheduling and transport duties of the host environment are modelled
//! explicitly by [`host::HostState`], so every rule of the process, mailbox
//! and tag protocol is stated and checked against that model.

pub mod config;
pub mod error;
pub mod host;
pub mod mailbox;
pub mod process;
pub mod serializer;
pub mod tag;

pub use config::ProcessConfig;
pub use error::HperwasmError;
pub use mailbox::Catching;
pub use mailbox::Mailbox;
pub use mailbox::MailboxResult;
pub use process::NoLink;
pub use process::Process;
pub use tag::Tag;
pub use tag::TagCounter;
