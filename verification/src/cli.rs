//! The sensor's command line: options of `run`, and the signal state that
//! the run loop polls.
use vstd::prelude::*;
use crate::text::{eq_lit, owned, parse_unsigned, push_str, to_chars};

verus! {

// ---------------------------------------------------------------------------
// run options
// ---------------------------------------------------------------------------

/// The options of `run`.
#[derive(Debug, Clone)]
pub struct RunOptions {
    pub tracefs_root: String,
    pub replay: Option<String>,
    pub config_path: Option<String>,
    pub jsonl: String,
    pub listen: String,
    pub queue: usize,
    pub quiet: bool,
    pub no_quiet: bool,
    pub deterministic_replay: bool,
}

/// The options of `run` as plain values.
pub struct RunOptionsModel {
    pub tracefs_root: Seq<char>,
    pub replay: Option<Seq<char>>,
    pub config_path: Option<Seq<char>>,
    pub jsonl: Seq<char>,
    pub listen: Seq<char>,
    pub queue: int,
    pub quiet: bool,
    pub no_quiet: bool,
    pub deterministic_replay: bool,
}

impl RunOptions {
    pub open spec fn model(&self) -> RunOptionsModel {
        RunOptionsModel {
            tracefs_root: self.tracefs_root@,
            replay: match self.replay {
                Some(r) => Some(r@),
                None => None,
            },
            config_path: match self.config_path {
                Some(c) => Some(c@),
                None => None,
            },
            jsonl: self.jsonl@,
            listen: self.listen@,
            queue: self.queue as int,
            quiet: self.quiet,
            no_quiet: self.no_quiet,
            deterministic_replay: self.deterministic_replay,
        }
    }
}

/// The options before any argument is read.
pub open spec fn default_run_options() -> RunOptionsModel {
    RunOptionsModel {
        tracefs_root: "/sys/kernel/tracing"@,
        replay: None,
        config_path: None,
        jsonl: "-"@,
        listen: "127.0.0.1:9108"@,
        queue: 8192,
        quiet: false,
        no_quiet: false,
        deterministic_replay: false,
    }
}

/// The options that `args[i..]` give on top of `st`, or the message of the
/// first bad argument.
pub open spec fn run_args(args: Seq<Seq<char>>, i: int, st: RunOptionsModel) -> Result<RunOptionsModel, Seq<char>>
    decreases args.len() - i,
{
    if i < 0 || i >= args.len() {
        Ok(st)
    } else {
        let a = args[i];
        let has_value = i + 1 < args.len();
        let v = if has_value {
            args[i + 1]
        } else {
            Seq::empty()
        };
        if a == "--tracefs"@ {
            if has_value {
                run_args(args, i + 2, RunOptionsModel { tracefs_root: v, ..st })
            } else {
                Err("--tracefs requires value"@)
            }
        } else if a == "--replay"@ {
            if has_value {
                run_args(args, i + 2, RunOptionsModel { replay: Some(v), ..st })
            } else {
                Err("--replay requires value"@)
            }
        } else if a == "--config"@ {
            if has_value {
                run_args(args, i + 2, RunOptionsModel { config_path: Some(v), ..st })
            } else {
                Err("--config requires value"@)
            }
        } else if a == "--jsonl"@ {
            if has_value {
                run_args(args, i + 2, RunOptionsModel { jsonl: v, ..st })
            } else {
                Err("--jsonl requires value"@)
            }
        } else if a == "--listen"@ {
            if has_value {
                run_args(args, i + 2, RunOptionsModel { listen: v, ..st })
            } else {
                Err("--listen requires value"@)
            }
        } else if a == "--queue"@ {
            if has_value {
                match parse_unsigned(v, usize::MAX as nat) {
                    Some(q) => run_args(args, i + 2, RunOptionsModel { queue: q as int, ..st }),
                    None => Err("invalid --queue"@),
                }
            } else {
                Err("--queue requires value"@)
            }
        } else if a == "--quiet"@ {
            run_args(args, i + 1, RunOptionsModel { quiet: true, ..st })
        } else if a == "--no-quiet"@ {
            run_args(args, i + 1, RunOptionsModel { no_quiet: true, ..st })
        } else if a == "--deterministic-replay"@ {
            run_args(args, i + 1, RunOptionsModel { deterministic_replay: true, ..st })
        } else {
            Err("unknown run option '"@ + a + "'"@)
        }
    }
}

/// Deterministic replay was asked for without a replay input.
#[derive(Debug, Clone, Copy, PartialEq, Eq, Structural)]
pub enum DeterministicReplayModeError {
    RequiresReplay,
}

impl DeterministicReplayModeError {
    pub open spec fn message_spec(&self) -> Seq<char> {
        "--deterministic-replay requires --replay; live tracefs output is not made deterministic"@
    }

    /// The error as text.
    pub fn message(&self) -> (r: String)
        ensures
            r@ == self.message_spec(),
    {
        owned("--deterministic-replay requires --replay; live tracefs output is not made deterministic")
    }
}

/// Deterministic replay needs a replay input: live tracefs output is not
/// made deterministic.
pub fn validate_deterministic_replay_mode(
    replay: Option<&str>,
    deterministic_replay: bool,
) -> (r: Result<(), DeterministicReplayModeError>)
    ensures
        r is Err <==> (deterministic_replay && replay is None),
{
    if deterministic_replay && replay.is_none() {
        Err(DeterministicReplayModeError::RequiresReplay)
    } else {
        Ok(())
    }
}

/// Reads the options of `run`: each option with its value, in any order;
/// an unknown option, a missing value or a bad queue size is an error, and
/// so is deterministic replay without a replay input. The queue is at
/// least one.
pub fn run_cmd(args: Vec<String>) -> (r: Result<RunOptions, String>)
    ensures
        ({
            let parsed = run_args(crate::text::views(args@), 0, default_run_options());
            match parsed {
                Err(m) => r matches Err(e) && e@ == m,
                Ok(o) => if o.deterministic_replay && o.replay is None {
                    r matches Err(e) && e@ == DeterministicReplayModeError::RequiresReplay.message_spec()
                } else {
                    r matches Ok(ro) && ro.model() == RunOptionsModel {
                        queue: if o.queue < 1 {
                            1
                        } else {
                            o.queue
                        },
                        ..o
                    }
                },
            }
        }),
{
    let ghost av = crate::text::views(args@);
    let mut opts = RunOptions {
        tracefs_root: owned("/sys/kernel/tracing"),
        replay: None,
        config_path: None,
        jsonl: owned("-"),
        listen: owned("127.0.0.1:9108"),
        queue: 8192,
        quiet: false,
        no_quiet: false,
        deterministic_replay: false,
    };
    let n = args.len();
    let mut i: usize = 0;
    while i < n
        invariant
            n == args@.len(),
            av == crate::text::views(args@),
            i <= n + 1,
            run_args(av, 0, default_run_options()) == run_args(av, i as int, opts.model()),
        decreases n + 1 - i,
    {
        let a = to_chars(args[i].as_str());
        assert(av[i as int] == a@);
        let has_value = i + 1 < n;
        if eq_lit(&a, "--tracefs") {
            if !has_value {
                return Err(owned("--tracefs requires value"));
            }
            opts.tracefs_root = owned(args[i + 1].as_str());
            i = i + 2;
        } else if eq_lit(&a, "--replay") {
            if !has_value {
                return Err(owned("--replay requires value"));
            }
            opts.replay = Some(owned(args[i + 1].as_str()));
            i = i + 2;
        } else if eq_lit(&a, "--config") {
            if !has_value {
                return Err(owned("--config requires value"));
            }
            opts.config_path = Some(owned(args[i + 1].as_str()));
            i = i + 2;
        } else if eq_lit(&a, "--jsonl") {
            if !has_value {
                return Err(owned("--jsonl requires value"));
            }
            opts.jsonl = owned(args[i + 1].as_str());
            i = i + 2;
        } else if eq_lit(&a, "--listen") {
            if !has_value {
                return Err(owned("--listen requires value"));
            }
            opts.listen = owned(args[i + 1].as_str());
            i = i + 2;
        } else if eq_lit(&a, "--queue") {
            if !has_value {
                return Err(owned("--queue requires value"));
            }
            let v = to_chars(args[i + 1].as_str());
            assert(v@.subrange(0, v@.len() as int) =~= v@);
            match crate::text::parse_u64_chars(&v, 0, v.len(), usize::MAX as u64) {
                Some(q) => {
                    opts.queue = q as usize;
                },
                None => {
                    return Err(owned("invalid --queue"));
                },
            }
            i = i + 2;
        } else if eq_lit(&a, "--quiet") {
            opts.quiet = true;
            i = i + 1;
        } else if eq_lit(&a, "--no-quiet") {
            opts.no_quiet = true;
            i = i + 1;
        } else if eq_lit(&a, "--deterministic-replay") {
            opts.deterministic_replay = true;
            i = i + 1;
        } else {
            let mut m = owned("unknown run option '");
            push_str(&mut m, args[i].as_str());
            push_str(&mut m, "'");
            return Err(m);
        }
    }
    let replay = match &opts.replay {
        Some(r) => Some(r.as_str()),
        None => None,
    };
    match validate_deterministic_replay_mode(replay, opts.deterministic_replay) {
        Err(e) => {
            return Err(e.message());
        },
        Ok(()) => {},
    }
    if opts.queue < 1 {
        opts.queue = 1;
    }
    Ok(opts)
}

// ---------------------------------------------------------------------------
// Signals
// ---------------------------------------------------------------------------

/// No shutdown signal was received.
pub const SHUTDOWN_NONE: u8 = 0;
/// SIGINT.
pub const SHUTDOWN_SIGINT: u8 = 1;
/// SIGTERM.
pub const SHUTDOWN_SIGTERM: u8 = 2;
/// A console control signal.
pub const SHUTDOWN_CONSOLE: u8 = 3;

/// What the signal handlers have recorded for the run loop.
#[derive(Debug, Clone, Copy, PartialEq, Eq, Structural)]
pub struct SignalState {
    pub shutdown_kind: u8,
    pub shutdown_received: bool,
    pub reload_received: bool,
}

impl SignalState {
    /// Nothing received.
    pub fn new() -> (r: Self)
        ensures
            r.shutdown_kind == SHUTDOWN_NONE,
            !r.shutdown_received,
            !r.reload_received,
    {
        SignalState { shutdown_kind: SHUTDOWN_NONE, shutdown_received: false, reload_received: false }
    }

    /// Records a shutdown signal; the first kind recorded is kept.
    pub fn note_shutdown_signal(&mut self, kind: u8)
        ensures
            final(self).shutdown_kind == (if old(self).shutdown_kind == SHUTDOWN_NONE {
                kind
            } else {
                old(self).shutdown_kind
            }),
            final(self).shutdown_received,
            final(self).reload_received == old(self).reload_received,
    {
        if self.shutdown_kind == SHUTDOWN_NONE {
            self.shutdown_kind = kind;
        }
        self.shutdown_received = true;
    }

    /// Records a reload request.
    pub fn note_reload_signal(&mut self)
        ensures
            *final(self) == (SignalState { reload_received: true, ..*old(self) }),
    {
        self.reload_received = true;
    }

    /// Whether a reload was requested since the last look; the request is
    /// consumed.
    pub fn observe_reload_signal(&mut self) -> (r: bool)
        ensures
            r == old(self).reload_received,
            *final(self) == (SignalState { reload_received: false, ..*old(self) }),
    {
        let r = self.reload_received;
        self.reload_received = false;
        r
    }

    /// Forgets every signal, before a run.
    pub fn reset_shutdown_signal_for_run(&mut self)
        ensures
            final(self).shutdown_kind == SHUTDOWN_NONE,
            !final(self).shutdown_received,
            !final(self).reload_received,
    {
        self.shutdown_kind = SHUTDOWN_NONE;
        self.shutdown_received = false;
        self.reload_received = false;
    }
}

/// The name of a shutdown signal kind.
pub fn shutdown_signal_name(kind: u8) -> (r: &'static str)
    ensures
        r@ == (if kind == SHUTDOWN_SIGINT {
            "SIGINT"@
        } else if kind == SHUTDOWN_SIGTERM {
            "SIGTERM"@
        } else if kind == SHUTDOWN_CONSOLE {
            "console control signal"@
        } else {
            "shutdown signal"@
        }),
{
    if kind == SHUTDOWN_SIGINT {
        "SIGINT"
    } else if kind == SHUTDOWN_SIGTERM {
        "SIGTERM"
    } else if kind == SHUTDOWN_CONSOLE {
        "console control signal"
    } else {
        "shutdown signal"
    }
}

/// A reload request is seen by exactly one look: noting it and looking
/// twice gives `true`, then `false`.
pub proof fn lemma_reload_observed_once(s: SignalState)
    ensures
        ({
            let noted = SignalState { reload_received: true, ..s };
            let first = SignalState { reload_received: false, ..noted };
            noted.reload_received && !first.reload_received
        }),
{
}

} // verus!
