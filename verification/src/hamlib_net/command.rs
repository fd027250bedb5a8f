//! The commands of the rigctld net protocol and their names.

use vstd::prelude::*;

use crate::text::same_text;

verus! {

/// A command of the protocol.
#[derive(Debug, Clone, Copy, PartialEq, Eq, Structural)]
pub enum NetCommand {
    /// Close the connection.
    Quit,
    /// Read the operating frequency.
    GetFreq,
    /// Read the operating mode and passband.
    GetMode,
    /// Read the operating VFO.
    GetVfo,
    /// Read all of one VFO.
    GetVfoInfo,
    /// Read split and the transmit VFO.
    GetSplitVfo,
    /// Read the transmit frequency.
    GetSplitFreq,
    /// Read the transmit mode and passband.
    GetSplitMode,
    /// Read a level.
    GetLevel,
    /// Convert a relative power to milliwatts.
    PowerToMilliwatts,
    /// Read whether the transmitter is keyed.
    GetPtt,
    /// Read whether the radio is on.
    GetPowerstat,
    /// Read the capability dump.
    DumpState,
    /// Ask whether commands name a VFO.
    ChkVfo,
    /// Tune.
    SetFreq,
    /// Set the mode.
    SetMode,
    /// Set split and the transmit VFO.
    SetSplitVfo,
    /// Key or unkey.
    SetPtt,
    /// Select a VFO.
    SetVfo,
    /// Read the receive offset.
    GetRit,
    /// Read the transmit offset.
    GetXit,
    /// Set the receive offset.
    SetRit,
    /// Set the transmit offset.
    SetXit,
    /// A command that is not served.
    Unknown,
}

impl NetCommand {
    /// The command that a short or long token names.
    pub open spec fn named(token: Seq<char>) -> NetCommand {
        if token == "q"@ || token == "Q"@ {
            NetCommand::Quit
        } else if token == "f"@ || token == "\\get_freq"@ {
            NetCommand::GetFreq
        } else if token == "m"@ || token == "\\get_mode"@ {
            NetCommand::GetMode
        } else if token == "v"@ || token == "\\get_vfo"@ {
            NetCommand::GetVfo
        } else if token == "\\get_vfo_info"@ {
            NetCommand::GetVfoInfo
        } else if token == "s"@ || token == "\\get_split_vfo"@ {
            NetCommand::GetSplitVfo
        } else if token == "i"@ || token == "\\get_split_freq"@ {
            NetCommand::GetSplitFreq
        } else if token == "x"@ || token == "\\get_split_mode"@ {
            NetCommand::GetSplitMode
        } else if token == "l"@ || token == "\\get_level"@ {
            NetCommand::GetLevel
        } else if token == "2"@ || token == "\\power2mW"@ {
            NetCommand::PowerToMilliwatts
        } else if token == "t"@ || token == "\\get_ptt"@ {
            NetCommand::GetPtt
        } else if token == "\\get_powerstat"@ {
            NetCommand::GetPowerstat
        } else if token == "\\dump_state"@ {
            NetCommand::DumpState
        } else if token == "\\chk_vfo"@ {
            NetCommand::ChkVfo
        } else if token == "F"@ || token == "\\set_freq"@ {
            NetCommand::SetFreq
        } else if token == "M"@ || token == "\\set_mode"@ {
            NetCommand::SetMode
        } else if token == "S"@ || token == "\\set_split_vfo"@ {
            NetCommand::SetSplitVfo
        } else if token == "T"@ || token == "\\set_ptt"@ {
            NetCommand::SetPtt
        } else if token == "V"@ || token == "\\set_vfo"@ {
            NetCommand::SetVfo
        } else if token == "j"@ || token == "\\get_rit"@ {
            NetCommand::GetRit
        } else if token == "z"@ || token == "\\get_xit"@ {
            NetCommand::GetXit
        } else if token == "J"@ || token == "\\set_rit"@ {
            NetCommand::SetRit
        } else if token == "Z"@ || token == "\\set_xit"@ {
            NetCommand::SetXit
        } else {
            NetCommand::Unknown
        }
    }

    /// The command that a short or long token names.
    #[must_use]
    pub fn resolve(token: &str) -> (r: NetCommand)
        ensures
            r == Self::named(token@),
    {
        if same_text(token, "q") || same_text(token, "Q") {
            NetCommand::Quit
        } else if same_text(token, "f") || same_text(token, "\\get_freq") {
            NetCommand::GetFreq
        } else if same_text(token, "m") || same_text(token, "\\get_mode") {
            NetCommand::GetMode
        } else if same_text(token, "v") || same_text(token, "\\get_vfo") {
            NetCommand::GetVfo
        } else if same_text(token, "\\get_vfo_info") {
            NetCommand::GetVfoInfo
        } else if same_text(token, "s") || same_text(token, "\\get_split_vfo") {
            NetCommand::GetSplitVfo
        } else if same_text(token, "i") || same_text(token, "\\get_split_freq") {
            NetCommand::GetSplitFreq
        } else if same_text(token, "x") || same_text(token, "\\get_split_mode") {
            NetCommand::GetSplitMode
        } else if same_text(token, "l") || same_text(token, "\\get_level") {
            NetCommand::GetLevel
        } else if same_text(token, "2") || same_text(token, "\\power2mW") {
            NetCommand::PowerToMilliwatts
        } else if same_text(token, "t") || same_text(token, "\\get_ptt") {
            NetCommand::GetPtt
        } else if same_text(token, "\\get_powerstat") {
            NetCommand::GetPowerstat
        } else if same_text(token, "\\dump_state") {
            NetCommand::DumpState
        } else if same_text(token, "\\chk_vfo") {
            NetCommand::ChkVfo
        } else if same_text(token, "F") || same_text(token, "\\set_freq") {
            NetCommand::SetFreq
        } else if same_text(token, "M") || same_text(token, "\\set_mode") {
            NetCommand::SetMode
        } else if same_text(token, "S") || same_text(token, "\\set_split_vfo") {
            NetCommand::SetSplitVfo
        } else if same_text(token, "T") || same_text(token, "\\set_ptt") {
            NetCommand::SetPtt
        } else if same_text(token, "V") || same_text(token, "\\set_vfo") {
            NetCommand::SetVfo
        } else if same_text(token, "j") || same_text(token, "\\get_rit") {
            NetCommand::GetRit
        } else if same_text(token, "z") || same_text(token, "\\get_xit") {
            NetCommand::GetXit
        } else if same_text(token, "J") || same_text(token, "\\set_rit") {
            NetCommand::SetRit
        } else if same_text(token, "Z") || same_text(token, "\\set_xit") {
            NetCommand::SetXit
        } else {
            NetCommand::Unknown
        }
    }

    /// The long name of a command.
    pub open spec fn full_name(self) -> Option<Seq<char>> {
        match self {
            NetCommand::GetFreq => Some("get_freq"@),
            NetCommand::GetMode => Some("get_mode"@),
            NetCommand::GetVfo => Some("get_vfo"@),
            NetCommand::GetVfoInfo => Some("get_vfo_info"@),
            NetCommand::GetSplitVfo => Some("get_split_vfo"@),
            NetCommand::GetSplitFreq => Some("get_split_freq"@),
            NetCommand::GetSplitMode => Some("get_split_mode"@),
            NetCommand::GetLevel => Some("get_level"@),
            NetCommand::PowerToMilliwatts => Some("power2mW"@),
            NetCommand::GetPtt => Some("get_ptt"@),
            NetCommand::GetPowerstat => Some("get_powerstat"@),
            NetCommand::DumpState => Some("dump_state"@),
            NetCommand::ChkVfo => Some("chk_vfo"@),
            NetCommand::SetFreq => Some("set_freq"@),
            NetCommand::SetMode => Some("set_mode"@),
            NetCommand::SetSplitVfo => Some("set_split_vfo"@),
            NetCommand::SetPtt => Some("set_ptt"@),
            NetCommand::SetVfo => Some("set_vfo"@),
            NetCommand::GetRit => Some("get_rit"@),
            NetCommand::GetXit => Some("get_xit"@),
            NetCommand::SetRit => Some("set_rit"@),
            NetCommand::SetXit => Some("set_xit"@),
            NetCommand::Quit => None,
            NetCommand::Unknown => None,
        }
    }

    /// The Hamlib long name of a command, used to echo the received command as the first
    /// record of an Extended Response Protocol reply.
    #[must_use]
    pub fn long_name(self) -> (r: Option<&'static str>)
        ensures
            match r {
                Some(name) => self.full_name() == Some(name@),
                None => self.full_name() is None,
            },
    {
        match self {
            NetCommand::GetFreq => Some("get_freq"),
            NetCommand::GetMode => Some("get_mode"),
            NetCommand::GetVfo => Some("get_vfo"),
            NetCommand::GetVfoInfo => Some("get_vfo_info"),
            NetCommand::GetSplitVfo => Some("get_split_vfo"),
            NetCommand::GetSplitFreq => Some("get_split_freq"),
            NetCommand::GetSplitMode => Some("get_split_mode"),
            NetCommand::GetLevel => Some("get_level"),
            NetCommand::PowerToMilliwatts => Some("power2mW"),
            NetCommand::GetPtt => Some("get_ptt"),
            NetCommand::GetPowerstat => Some("get_powerstat"),
            NetCommand::DumpState => Some("dump_state"),
            NetCommand::ChkVfo => Some("chk_vfo"),
            NetCommand::SetFreq => Some("set_freq"),
            NetCommand::SetMode => Some("set_mode"),
            NetCommand::SetSplitVfo => Some("set_split_vfo"),
            NetCommand::SetPtt => Some("set_ptt"),
            NetCommand::SetVfo => Some("set_vfo"),
            NetCommand::GetRit => Some("get_rit"),
            NetCommand::GetXit => Some("get_xit"),
            NetCommand::SetRit => Some("set_rit"),
            NetCommand::SetXit => Some("set_xit"),
            NetCommand::Quit => None,
            NetCommand::Unknown => None,
        }
    }
}

} // verus!
