//! Daemon runtime settings: which fields of a reloaded configuration take
//! effect at once and which wait for a restart, and the log level filter.

use crate::config::{DaemonConfig, DaemonRuntimeState};
use crate::text::str_eq;
use vstd::prelude::*;
use vstd::string::StringExecFns;

verus! {

/// The log verbosity levels, from silent to most verbose.
#[derive(Debug, Clone, Copy, PartialEq, Eq, Structural)]
pub enum LogLevel {
    Off,
    Error,
    Warn,
    Info,
    Debug,
    Trace,
}

/// The level that a configured name selects; unknown names select `Info`.
pub open spec fn level_of_name(name: Seq<char>) -> LogLevel {
    if name == "trace"@ {
        LogLevel::Trace
    } else if name == "debug"@ {
        LogLevel::Debug
    } else if name == "warn"@ {
        LogLevel::Warn
    } else if name == "error"@ {
        LogLevel::Error
    } else {
        LogLevel::Info
    }
}

/// The level that `level` names.
pub fn log_level_filter(level: &str) -> (r: LogLevel)
    ensures
        r == level_of_name(level@),
{
    if str_eq(level, "trace") {
        LogLevel::Trace
    } else if str_eq(level, "debug") {
        LogLevel::Debug
    } else if str_eq(level, "warn") {
        LogLevel::Warn
    } else if str_eq(level, "error") {
        LogLevel::Error
    } else {
        LogLevel::Info
    }
}

/// Calls `log::set_max_level` with the filter that corresponds to `level`.
/// It stores the filter in the crate's global maximum level; nothing is
/// claimed about that global state here.
#[verifier::external_body]
fn set_max_log_level(level: LogLevel) {
    let filter = match level {
        LogLevel::Off => log::LevelFilter::Off,
        LogLevel::Error => log::LevelFilter::Error,
        LogLevel::Warn => log::LevelFilter::Warn,
        LogLevel::Info => log::LevelFilter::Info,
        LogLevel::Debug => log::LevelFilter::Debug,
        LogLevel::Trace => log::LevelFilter::Trace,
    };
    log::set_max_level(filter);
}

/// Sets the global log filter to the level that `level` names
/// (`log_level_filter` gives that level).
pub fn apply_log_level(level: &str) {
    let filter = log_level_filter(level);
    set_max_log_level(filter);
}

/// What a reload did: the preset now running, and the fields whose new
/// values wait for a restart.
#[derive(Debug)]
pub struct ReloadOutcome {
    pub running_preset: String,
    pub deferred_fields: Vec<&'static str>,
}

pub open spec fn socket_field() -> Seq<char> {
    "daemon.socket_path"@
}

pub open spec fn pid_field() -> Seq<char> {
    "daemon.pid_file"@
}

/// The deferred fields of a reload, in order: the socket path and the pid
/// file, each when its new value differs from the running one.
pub open spec fn deferred_of(running: DaemonConfig, loaded: DaemonConfig) -> Seq<Seq<char>> {
    let a: Seq<Seq<char>> = if loaded.socket_path@ != running.socket_path@ { seq![socket_field()] } else { seq![] };
    let b: Seq<Seq<char>> = if loaded.pid_file@ != running.pid_file@ { seq![pid_field()] } else { seq![] };
    a + b
}

/// Settles a reloaded daemon section against the running one: the socket
/// path and the pid file keep their running values (the reload notes each
/// one that changed), every other field takes its new value.
pub fn reconcile_daemon(running: &DaemonConfig, loaded: DaemonConfig) -> (r: (DaemonConfig, Vec<&'static str>))
    ensures
        r.0.socket_path@ == running.socket_path@,
        r.0.pid_file@ == running.pid_file@,
        r.0.log_level@ == loaded.log_level@,
        r.1@.map_values(|f: &'static str| f@) == deferred_of(*running, loaded),
{
    let ghost loaded0 = loaded;
    let mut next = loaded;
    let mut deferred: Vec<&'static str> = Vec::new();
    if !str_eq(next.socket_path.as_str(), running.socket_path.as_str()) {
        deferred.push("daemon.socket_path");
        next.socket_path = running.socket_path.clone();
    }
    proof {
        let a: Seq<Seq<char>> = if loaded0.socket_path@ != running.socket_path@ { seq![socket_field()] } else { seq![] };
        assert(deferred@.map_values(|f: &'static str| f@) =~= a);
    }
    let ghost mid = deferred@.map_values(|f: &'static str| f@);
    if !str_eq(next.pid_file.as_str(), running.pid_file.as_str()) {
        deferred.push("daemon.pid_file");
        next.pid_file = running.pid_file.clone();
    }
    proof {
        let b: Seq<Seq<char>> = if loaded0.pid_file@ != running.pid_file@ { seq![pid_field()] } else { seq![] };
        assert(deferred@.map_values(|f: &'static str| f@) =~= mid + b);
    }
    (next, deferred)
}

/// The state that the daemon records for other processes: the running
/// preset and the socket and pid file in use.
pub fn daemon_runtime_state(running_preset: &str, daemon: &DaemonConfig) -> (r: DaemonRuntimeState)
    ensures
        r.running_preset@ == running_preset@,
        r.socket_path@ == daemon.socket_path@,
        r.pid_file@ == daemon.pid_file@,
{
    DaemonRuntimeState {
        running_preset: String::from_str(running_preset),
        socket_path: daemon.socket_path.clone(),
        pid_file: daemon.pid_file.clone(),
    }
}

/// Reloading a section twice changes nothing more: once settled against the
/// running section, a second settlement defers nothing.
pub proof fn lemma_reconcile_settles(running: DaemonConfig, settled: DaemonConfig)
    requires
        settled.socket_path@ == running.socket_path@,
        settled.pid_file@ == running.pid_file@,
    ensures
        deferred_of(running, settled) == Seq::<Seq<char>>::empty(),
{
    assert(deferred_of(running, settled) =~= Seq::<Seq<char>>::empty());
}

} // verus!
