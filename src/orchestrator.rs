//! One acquisition or renewal from start to end: the command it runs and the
//! line that logs it, and what its outcome leaves in the registry, in the log
//! and in the domain configuration. The program runs the command in between.

use vstd::prelude::*;
use crate::config::DomainEntry;
use crate::logging::{LogLevel, LogLine};
use crate::redact::{redacted, sanitize_command_for_log};
use crate::registry::{Registry, finished};
use crate::template::{CommandType, DnsProviderConfig, build_command, command_for};
use crate::text::{trim, trimmed};

verus! {

/// An acquisition (`Run`) or renewal (`Renew`) of the certificate of
/// `domain` through `dns_provider`; `persist` adds the domain to the
/// configuration once it succeeds.
pub struct Acquisition {
    pub domain: String,
    pub dns_provider: String,
    pub persist: bool,
    pub mode: CommandType,
}

/// The command to run and the line that logs it.
pub struct PreparedCommand {
    pub command: String,
    pub log: LogLine,
}

/// What an ended acquisition leaves to do: a line to log and, where the
/// domain is to be persisted, its configuration entry.
pub struct Completion {
    pub log: LogLine,
    pub persist: Option<DomainEntry>,
}

/// The line that reports the outcome of an acquisition of `domain`.
pub open spec fn completion_message(
    domain: Seq<char>,
    mode: CommandType,
    outcome: Result<(), String>,
) -> Seq<char> {
    match outcome {
        Ok(()) => match mode {
            CommandType::Run => "Successfully acquired certificate for '"@ + domain + "'"@,
            CommandType::Renew => "Successfully renewed certificate for '"@ + domain + "'"@,
        },
        Err(e) => "Failed to acquire/renew certificate for '"@ + domain + "': "@ + e@,
    }
}

impl Acquisition {
    /// The command for this acquisition with `cfg`, and a debug line that
    /// logs it with its secrets redacted.
    pub fn prepare(&self, cfg: &DnsProviderConfig) -> (r: PreparedCommand)
        ensures
            r.command@ == command_for(*cfg, self.domain@, self.mode),
            r.log.level == LogLevel::Debug,
            r.log.message@ == "Executing command: "@ + redacted(r.command@),
    {
        let command = build_command(cfg, self.domain.as_str(), self.mode);
        let mut message = String::from_str("Executing command: ");
        let shown = sanitize_command_for_log(command.as_str());
        message.append(shown.as_str());
        PreparedCommand { command, log: LogLine { level: LogLevel::Debug, message } }
    }

    /// Ends the acquisition with `outcome`: the domain becomes `Ready` or
    /// `Failed` and the lock is freed, a line reports the outcome, and a
    /// successful acquisition that is to be persisted hands back its entry.
    pub fn complete(&self, registry: &mut Registry, outcome: Result<(), String>) -> (r: Completion)
        requires
            old(registry).wf(),
        ensures
            final(registry).wf(),
            final(registry)@ == finished(old(registry)@, trimmed(self.domain@), outcome),
            r.log.level == if outcome is Ok {
                LogLevel::Info
            } else {
                LogLevel::Error
            },
            r.log.message@ == completion_message(trimmed(self.domain@), self.mode, outcome),
            r.persist is Some <==> (outcome is Ok && self.persist),
            r.persist matches Some(e) ==> e.name@ == trimmed(self.domain@) && e.dns_provider
                == self.dns_provider,
    {
        let name = trim(self.domain.as_str());
        let succeeded = outcome.is_ok();
        let (level, mut message) = match &outcome {
            Ok(()) => match self.mode {
                CommandType::Run => (
                    LogLevel::Info,
                    String::from_str("Successfully acquired certificate for '"),
                ),
                CommandType::Renew => (
                    LogLevel::Info,
                    String::from_str("Successfully renewed certificate for '"),
                ),
            },
            Err(_) => (LogLevel::Error, String::from_str("Failed to acquire/renew certificate for '")),
        };
        message.append(name.as_str());
        match &outcome {
            Ok(()) => {
                message.append("'");
            },
            Err(e) => {
                message.append("': ");
                message.append(e.as_str());
            },
        }
        registry.finish_acquisition(self.domain.as_str(), outcome);
        let persist = if succeeded && self.persist {
            Some(DomainEntry { name, dns_provider: self.dns_provider.clone() })
        } else {
            None
        };
        Completion { log: LogLine { level, message }, persist }
    }
}

} // verus!
