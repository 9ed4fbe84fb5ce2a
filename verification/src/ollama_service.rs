//! The local Ollama service: its settings, and the decisions of waiting for
//! it to become ready (the caller makes the health checks and sleeps).
use vstd::prelude::*;
use crate::text::{decimal, push_str, push_string, u64_to_string};

verus! {

/// Status of the Ollama service.
#[derive(Debug, Clone, PartialEq, Eq)]
pub enum OllamaServiceStatus {
    /// Service is running and responding
    Running,
    /// Service is not running
    NotRunning,
    /// Service is running but not responding to requests
    NotResponding,
    /// Status could not be determined
    Unknown(String),
}

/// Manager for the Ollama service.
pub struct OllamaServiceManager {
    local_url: String,
    startup_timeout_secs: u64,
}

/// What to do next while waiting for the service.
#[derive(Debug)]
pub enum WaitAction {
    /// Ask the service whether it is running; then `after_check`.
    CheckHealth,
    /// Wait half a second; then `after_sleep`.
    Sleep,
    /// Waiting is over.
    Finish(Result<(), String>),
}

/// Waiting for the service: one health check per half second of the
/// timeout, at most.
pub struct ReadinessWait {
    timeout_secs: u64,
    remaining: u64,
}

pub open spec fn not_ready_text(timeout_secs: u64) -> Seq<char> {
    "Ollama did not become ready within "@ + decimal(timeout_secs as nat) + " seconds"@
}

pub open spec fn startup_timeout_text() -> Seq<char> {
    "Timeout waiting for Ollama to start. Please check if:\n- Ollama is installed correctly\n- Port 11434 is not already in use\n- You have permission to start the service"@
}

impl OllamaServiceManager {
    /// A manager for the service at `http://localhost:11434`, allowed ten
    /// seconds to start.
    pub fn new() -> (r: Self)
        ensures
            r.spec_local_url() == "http://localhost:11434"@,
            r.spec_startup_timeout_secs() == 10,
    {
        OllamaServiceManager { local_url: "http://localhost:11434".to_owned(), startup_timeout_secs: 10 }
    }

    pub closed spec fn spec_local_url(&self) -> Seq<char> {
        self.local_url@
    }

    /// The local URL of the service.
    pub fn local_url(&self) -> (r: &str)
        ensures
            r@ == self.spec_local_url(),
    {
        self.local_url.as_str()
    }

    pub closed spec fn spec_startup_timeout_secs(&self) -> u64 {
        self.startup_timeout_secs
    }

    /// The startup timeout in seconds.
    pub fn startup_timeout_secs(&self) -> (r: u64)
        ensures
            r == self.spec_startup_timeout_secs(),
    {
        self.startup_timeout_secs
    }
}

impl Default for OllamaServiceManager {
    fn default() -> (r: Self)
        ensures
            r.spec_local_url() == "http://localhost:11434"@,
            r.spec_startup_timeout_secs() == 10,
    {
        Self::new()
    }
}

fn not_ready(timeout_secs: u64) -> (r: WaitAction)
    ensures
        r matches WaitAction::Finish(Err(e)) && e@ == not_ready_text(timeout_secs),
{
    let mut e = String::new();
    push_str(&mut e, "Ollama did not become ready within ");
    push_string(&mut e, &u64_to_string(timeout_secs));
    push_str(&mut e, " seconds");
    WaitAction::Finish(Err(e))
}

impl ReadinessWait {
    /// The number of health checks still allowed.
    pub closed spec fn remaining(&self) -> u64 {
        self.remaining
    }

    pub closed spec fn timeout(&self) -> u64 {
        self.timeout_secs
    }

    /// Waiting for up to `timeout_secs` seconds: `timeout_secs * 2` checks.
    pub fn new(timeout_secs: u64) -> (r: Self)
        requires
            timeout_secs * 1000 <= u64::MAX,
        ensures
            r.remaining() == timeout_secs * 1000 / 500,
            r.timeout() == timeout_secs,
    {
        ReadinessWait { timeout_secs, remaining: timeout_secs * 1000 / 500 }
    }

    /// The first action: a health check, unless no check is allowed.
    pub fn start(&self) -> (a: WaitAction)
        ensures
            self.remaining() > 0 ==> a is CheckHealth,
            self.remaining() == 0 ==> (a matches WaitAction::Finish(Err(e)) && e@ == not_ready_text(
                self.timeout(),
            )),
    {
        if self.remaining > 0 {
            WaitAction::CheckHealth
        } else {
            not_ready(self.timeout_secs)
        }
    }

    /// After a health check: done when the service runs, else sleep.
    pub fn after_check(&self, running: bool) -> (a: WaitAction)
        ensures
            running ==> a matches WaitAction::Finish(Ok(())),
            !running ==> a is Sleep,
    {
        if running {
            WaitAction::Finish(Ok(()))
        } else {
            WaitAction::Sleep
        }
    }

    /// After sleeping: one check fewer is left; check again, or give up
    /// when none is.
    pub fn after_sleep(&mut self) -> (a: WaitAction)
        requires
            old(self).remaining() > 0,
        ensures
            final(self).remaining() == old(self).remaining() - 1,
            final(self).timeout() == old(self).timeout(),
            final(self).remaining() > 0 ==> a is CheckHealth,
            final(self).remaining() == 0 ==> (a matches WaitAction::Finish(Err(e)) && e@
                == not_ready_text(old(self).timeout())),
    {
        self.remaining = self.remaining - 1;
        if self.remaining > 0 {
            WaitAction::CheckHealth
        } else {
            not_ready(self.timeout_secs)
        }
    }

    /// The error when the overall time limit passes first.
    pub fn timed_out() -> (e: String)
        ensures
            e@ == startup_timeout_text(),
    {
        "Timeout waiting for Ollama to start. Please check if:\n- Ollama is installed correctly\n- Port 11434 is not already in use\n- You have permission to start the service".to_owned()
    }
}

} // verus!
