//! Per-endpoint capability sets and command classification.
//!
//! The endpoint flags gate the command classes a dialect assigns to each inbound command.
//! `frequency_write` grants narrow tuning authority without mode or VFO control, while
//! `write` retains full modeled-write authority. Unknown passthrough writes default to
//! denied unless the endpoint opts into unsafe full control.

use vstd::prelude::*;

use crate::model::StateMutation;
use crate::text::same_text;
use crate::text::texts;

verus! {

/// How a dialect classifies a single inbound command.
#[derive(Debug, Clone, Copy, PartialEq, Eq, Structural)]
pub enum CommandClass {
    /// A modeled status read (served from the cache).
    ModeledRead,
    /// A modeled write (frequency, mode, split).
    ModeledWrite,
    /// A passthrough read (raw native query).
    PassthroughRead,
    /// A PTT / TX-affecting write.
    PttWrite,
    /// A persistent/config write (`EX` menu and similar).
    ConfigWrite,
    /// An auto-information toggle (virtualized; never reaches the radio).
    AutoInfoToggle,
    /// Denied or unknown.
    Denied,
}

/// The capability set for one endpoint or Hamlib listener.
#[derive(Debug, Clone, Copy, PartialEq, Eq, Structural)]
pub struct EndpointPermissions {
    /// May read modeled state.
    pub read: bool,
    /// May issue modeled writes (frequency, mode, split).
    pub write: bool,
    /// May tune frequency, without authority to change mode, VFO, split, RIT, or XIT.
    pub frequency_write: bool,
    /// May key PTT.
    pub ptt: bool,
    /// May issue persistent/config writes (`EX` menu).
    pub config_write: bool,
}

impl EndpointPermissions {
    /// A read-only endpoint.
    pub open spec fn reader() -> Self {
        EndpointPermissions {
            read: true,
            write: false,
            frequency_write: false,
            ptt: false,
            config_write: false,
        }
    }

    /// The permissions that a list of tokens grants. Unknown tokens grant nothing.
    pub open spec fn granted(tokens: Seq<Seq<char>>) -> Self {
        EndpointPermissions {
            read: tokens.contains("read"@),
            write: tokens.contains("write"@),
            frequency_write: tokens.contains("frequency_write"@),
            ptt: tokens.contains("ptt"@),
            config_write: tokens.contains("config_write"@),
        }
    }

    /// Whether a command of the given class is permitted. Auto-information toggles always
    /// are: they are virtualized per endpoint and never touch the radio.
    pub open spec fn permits(self, class: CommandClass) -> bool {
        match class {
            CommandClass::ModeledRead => self.read,
            CommandClass::PassthroughRead => self.read,
            CommandClass::ModeledWrite => self.write,
            CommandClass::PttWrite => self.ptt,
            CommandClass::ConfigWrite => self.config_write,
            CommandClass::AutoInfoToggle => true,
            CommandClass::Denied => false,
        }
    }

    /// Whether a modeled mutation of the given class is permitted. Narrow tuning authority
    /// extends modeled writes to frequency and nothing else.
    pub open spec fn permits_mutation(self, class: CommandClass, mutation: StateMutation) -> bool {
        self.permits(class) || (class == CommandClass::ModeledWrite && self.frequency_write
            && mutation is SetVfoFreq)
    }

    /// A read-only endpoint.
    #[must_use]
    pub fn read_only() -> (r: Self)
        ensures
            r == Self::reader(),
    {
        EndpointPermissions {
            read: true,
            write: false,
            frequency_write: false,
            ptt: false,
            config_write: false,
        }
    }

    /// Parse a permission list from config tokens.
    #[must_use]
    pub fn from_tokens(tokens: &[String]) -> (r: Self)
        ensures
            r == Self::granted(texts(tokens@)),
    {
        EndpointPermissions {
            read: holds(tokens, "read"),
            write: holds(tokens, "write"),
            frequency_write: holds(tokens, "frequency_write"),
            ptt: holds(tokens, "ptt"),
            config_write: holds(tokens, "config_write"),
        }
    }

    /// Whether this endpoint is permitted to run a command of the given class.
    #[must_use]
    pub fn allows(self, class: CommandClass) -> (r: bool)
        ensures
            r == self.permits(class),
    {
        match class {
            CommandClass::ModeledRead => self.read,
            CommandClass::PassthroughRead => self.read,
            CommandClass::ModeledWrite => self.write,
            CommandClass::PttWrite => self.ptt,
            CommandClass::ConfigWrite => self.config_write,
            CommandClass::AutoInfoToggle => true,
            CommandClass::Denied => false,
        }
    }

    /// Whether this endpoint may apply a specific modeled mutation.
    #[must_use]
    pub fn allows_mutation(self, class: CommandClass, mutation: &StateMutation) -> (r: bool)
        ensures
            r == self.permits_mutation(class, *mutation),
    {
        if class != CommandClass::ModeledWrite {
            return self.allows(class);
        }
        let tunes: bool = match *mutation {
            StateMutation::SetVfoFreq { vfo: _, hz: _ } => true,
            _ => false,
        };
        self.write || (self.frequency_write && tunes)
    }
}

/// Whether `token` is one of `tokens`.
fn holds(tokens: &[String], token: &str) -> (r: bool)
    ensures
        r == texts(tokens@).contains(token@),
{
    let mut i: usize = 0;
    while i < tokens.len()
        invariant
            i <= tokens@.len(),
            forall|j: int| 0 <= j < i ==> (#[trigger] tokens@[j])@ != token@,
        decreases tokens@.len() - i,
    {
        if same_text(tokens[i].as_str(), token) {
            proof {
                assert(texts(tokens@)[i as int] == token@);
            }
            return true;
        }
        i = i + 1;
    }
    proof {
        assert forall|j: int| 0 <= j < texts(tokens@).len() implies texts(tokens@)[j] != token@ by {
            assert(texts(tokens@)[j] == tokens@[j]@);
        }
    }
    false
}

/// Tuning authority alone permits no modeled write but a frequency.
pub proof fn law_frequency_write_is_narrow(perms: EndpointPermissions, mutation: StateMutation)
    requires
        !perms.write,
    ensures
        perms.permits_mutation(CommandClass::ModeledWrite, mutation) <==> perms.frequency_write
            && mutation is SetVfoFreq,
{
}

/// What an endpoint may do is what its configuration names, each permission for its own kind of
/// command: reading, native or not, takes `read`, modeled writes take `write`, keying takes `ptt`
/// and changes of the radio's settings take `config_write`. Auto-information is the session's
/// own business, and what is denied no permission allows. `frequency_write` alone allows modeled
/// writes of a frequency and nothing else.
pub proof fn law_tokens_grant_commands(tokens: Seq<Seq<char>>, mutation: StateMutation)
    ensures
        ({
            let perms = EndpointPermissions::granted(tokens);
            &&& perms.permits(CommandClass::ModeledRead) <==> tokens.contains("read"@)
            &&& perms.permits(CommandClass::PassthroughRead) <==> tokens.contains("read"@)
            &&& perms.permits(CommandClass::ModeledWrite) <==> tokens.contains("write"@)
            &&& perms.permits(CommandClass::PttWrite) <==> tokens.contains("ptt"@)
            &&& perms.permits(CommandClass::ConfigWrite) <==> tokens.contains("config_write"@)
            &&& perms.permits(CommandClass::AutoInfoToggle)
            &&& !perms.permits(CommandClass::Denied)
            &&& perms.permits_mutation(CommandClass::ModeledWrite, mutation) <==> tokens.contains(
                "write"@,
            ) || (tokens.contains("frequency_write"@) && mutation is SetVfoFreq)
            &&& perms.permits_mutation(CommandClass::PttWrite, mutation) <==> tokens.contains(
                "ptt"@,
            )
        }),
        EndpointPermissions::reader() == EndpointPermissions::granted(seq!["read"@]),
{
    reveal_strlit("read");
    reveal_strlit("write");
    reveal_strlit("frequency_write");
    reveal_strlit("ptt");
    reveal_strlit("config_write");
    let only = seq!["read"@];
    assert(only[0] == "read"@);
    assert(only.contains("read"@));
    assert("read"@.len() == 4 && "write"@.len() == 5 && "frequency_write"@.len() == 15 && "ptt"@.len()
        == 3 && "config_write"@.len() == 12);
    assert(!only.contains("write"@));
    assert(!only.contains("frequency_write"@));
    assert(!only.contains("ptt"@));
    assert(!only.contains("config_write"@));
}

} // verus!
