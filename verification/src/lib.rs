//! Quarantine subsystem of a host-based malware defense agent.
//!
//! Once an upstream scanning engine flags a file as malicious, this library
//! provides the logic to neutralize it: it classifies the outcome of an
//! atomic relocation into an engine-managed quarantine directory under an
//! unpredictable name, and it degrades safely (by destructive deletion) when
//! relocation is impossible. It also provides the file-characterization
//! primitives (name components, size formatting, byte-distribution counts)
//! that the scanning engine uses as triage signals.
//!
//! All filesystem access is left to the embedding program: the library works
//! on plain values (path strings, observed sizes, operation results) so that
//! every decision it makes is verified.

pub mod fileutils;
pub mod genericutils;
pub mod quarantinemanager;
