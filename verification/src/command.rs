//! The vocabulary of the command bus: the commands of the controller, the
//! packets that carry them, and the writes that a packet goes out in.

use vstd::prelude::*;

verus! {

/// The commands of the panel controller.
#[derive(Debug, Clone, Copy, PartialEq, Eq, Structural)]
pub enum Command {
    DataEntryMode,
    DisplayUpdateSequence,
    DummyLinePeriod,
    EnterDeepSleep,
    GSTransition,
    GateDrivingVoltage,
    GateLineWidth,
    GateSetting,
    SetAnalogBlockControl,
    SetDigitalBlockControl,
    SetLUT,
    SetRamXPointerStart,
    SetRamXStartEnd,
    SetRamYPointerStart,
    SetRamYStartEnd,
    SoftReset,
    SourceDrivingVoltage,
    TriggerDisplayUpdate,
    VComRegister,
    SetBWBuffer,
    SetRYBuffer,
}

/// A byte that is the code of no command.
#[derive(Debug, Clone, Copy, PartialEq, Eq, Structural)]
pub struct InvalidCommand(pub u8);

impl Command {
    /// The byte that stands for the command on the bus.
    pub open spec fn code(self) -> u8 {
        match self {
            Command::DataEntryMode => 0x11,
            Command::DisplayUpdateSequence => 0x22,
            Command::DummyLinePeriod => 0x3a,
            Command::EnterDeepSleep => 0x10,
            Command::GSTransition => 0x3c,
            Command::GateDrivingVoltage => 0x03,
            Command::GateLineWidth => 0x3b,
            Command::GateSetting => 0x01,
            Command::SetAnalogBlockControl => 0x74,
            Command::SetDigitalBlockControl => 0x7e,
            Command::SetLUT => 0x32,
            Command::SetRamXPointerStart => 0x4e,
            Command::SetRamXStartEnd => 0x44,
            Command::SetRamYPointerStart => 0x4f,
            Command::SetRamYStartEnd => 0x45,
            Command::SoftReset => 0x12,
            Command::SourceDrivingVoltage => 0x04,
            Command::TriggerDisplayUpdate => 0x20,
            Command::VComRegister => 0x2c,
            Command::SetBWBuffer => 0x24,
            Command::SetRYBuffer => 0x26,
        }
    }

    /// The command that a byte stands for, if it stands for one.
    pub open spec fn from_code(value: u8) -> Option<Command> {
        if value == 0x11 {
            Some(Command::DataEntryMode)
        } else if value == 0x22 {
            Some(Command::DisplayUpdateSequence)
        } else if value == 0x3a {
            Some(Command::DummyLinePeriod)
        } else if value == 0x10 {
            Some(Command::EnterDeepSleep)
        } else if value == 0x3c {
            Some(Command::GSTransition)
        } else if value == 0x03 {
            Some(Command::GateDrivingVoltage)
        } else if value == 0x3b {
            Some(Command::GateLineWidth)
        } else if value == 0x01 {
            Some(Command::GateSetting)
        } else if value == 0x74 {
            Some(Command::SetAnalogBlockControl)
        } else if value == 0x7e {
            Some(Command::SetDigitalBlockControl)
        } else if value == 0x32 {
            Some(Command::SetLUT)
        } else if value == 0x4e {
            Some(Command::SetRamXPointerStart)
        } else if value == 0x44 {
            Some(Command::SetRamXStartEnd)
        } else if value == 0x4f {
            Some(Command::SetRamYPointerStart)
        } else if value == 0x45 {
            Some(Command::SetRamYStartEnd)
        } else if value == 0x12 {
            Some(Command::SoftReset)
        } else if value == 0x04 {
            Some(Command::SourceDrivingVoltage)
        } else if value == 0x20 {
            Some(Command::TriggerDisplayUpdate)
        } else if value == 0x2c {
            Some(Command::VComRegister)
        } else if value == 0x24 {
            Some(Command::SetBWBuffer)
        } else if value == 0x26 {
            Some(Command::SetRYBuffer)
        } else {
            None
        }
    }

    /// Converts the command to its byte.
    pub fn to_u8(&self) -> (value: u8)
        ensures
            value == self.code(),
    {
        match self {
            Command::DataEntryMode => 0x11,
            Command::DisplayUpdateSequence => 0x22,
            Command::DummyLinePeriod => 0x3a,
            Command::EnterDeepSleep => 0x10,
            Command::GSTransition => 0x3c,
            Command::GateDrivingVoltage => 0x03,
            Command::GateLineWidth => 0x3b,
            Command::GateSetting => 0x01,
            Command::SetAnalogBlockControl => 0x74,
            Command::SetDigitalBlockControl => 0x7e,
            Command::SetLUT => 0x32,
            Command::SetRamXPointerStart => 0x4e,
            Command::SetRamXStartEnd => 0x44,
            Command::SetRamYPointerStart => 0x4f,
            Command::SetRamYStartEnd => 0x45,
            Command::SoftReset => 0x12,
            Command::SourceDrivingVoltage => 0x04,
            Command::TriggerDisplayUpdate => 0x20,
            Command::VComRegister => 0x2c,
            Command::SetBWBuffer => 0x24,
            Command::SetRYBuffer => 0x26,
        }
    }

    /// Converts a byte to the command that it stands for. A byte that stands
    /// for none is handed back in the error.
    pub fn try_from(value: u8) -> (result: Result<Command, InvalidCommand>)
        ensures
            result == match Command::from_code(value) {
                Some(command) => Ok::<Command, InvalidCommand>(command),
                None => Err(InvalidCommand(value)),
            },
    {
        match value {
            0x11 => Ok(Command::DataEntryMode),
            0x22 => Ok(Command::DisplayUpdateSequence),
            0x3a => Ok(Command::DummyLinePeriod),
            0x10 => Ok(Command::EnterDeepSleep),
            0x3c => Ok(Command::GSTransition),
            0x03 => Ok(Command::GateDrivingVoltage),
            0x3b => Ok(Command::GateLineWidth),
            0x01 => Ok(Command::GateSetting),
            0x74 => Ok(Command::SetAnalogBlockControl),
            0x7e => Ok(Command::SetDigitalBlockControl),
            0x32 => Ok(Command::SetLUT),
            0x4e => Ok(Command::SetRamXPointerStart),
            0x44 => Ok(Command::SetRamXStartEnd),
            0x4f => Ok(Command::SetRamYPointerStart),
            0x45 => Ok(Command::SetRamYStartEnd),
            0x12 => Ok(Command::SoftReset),
            0x04 => Ok(Command::SourceDrivingVoltage),
            0x20 => Ok(Command::TriggerDisplayUpdate),
            0x2c => Ok(Command::VComRegister),
            0x24 => Ok(Command::SetBWBuffer),
            0x26 => Ok(Command::SetRYBuffer),
            _ => Err(InvalidCommand(value)),
        }
    }

    /// Every command is found again from its byte.
    pub proof fn lemma_code_round_trip(command: Command)
        ensures
            Command::from_code(command.code()) == Some(command),
    {
    }

    /// A byte that stands for a command is the byte of that command.
    pub proof fn lemma_from_code_sound(value: u8, command: Command)
        requires
            Command::from_code(value) == Some(command),
        ensures
            command.code() == value,
    {
    }
}

/// What goes over the command bus at once: a command, data, or both.
#[derive(Debug, Clone, PartialEq, Eq)]
pub struct SpiPacket {
    command: Option<Command>,
    data: Vec<u8>,
}

/// The mathematical value of a packet.
pub struct SpiPacketView {
    pub command: Option<Command>,
    pub data: Seq<u8>,
}

impl View for SpiPacket {
    type V = SpiPacketView;

    closed spec fn view(&self) -> SpiPacketView {
        SpiPacketView { command: self.command, data: self.data@ }
    }
}

impl SpiPacket {
    /// A packet of a command, data, or both.
    pub fn new(command: Option<Command>, data: Vec<u8>) -> (packet: SpiPacket)
        ensures
            packet@.command == command,
            packet@.data == data@,
    {
        SpiPacket { command, data }
    }

    /// The byte of the packet's command, if it has one.
    pub fn command(&self) -> (code: Option<u8>)
        ensures
            code == match self@.command {
                Some(command) => Some(command.code()),
                None => None::<u8>,
            },
    {
        match self.command {
            Some(command) => Some(command.to_u8()),
            None => None,
        }
    }

    /// The packet's data.
    pub fn data(&self) -> (data: Vec<u8>)
        ensures
            data@ == self@.data,
    {
        self.data.clone()
    }
}

/// The most bytes that one transfer carries.
pub const MAX_TRANSFER: usize = 4096;

/// One write on the command bus.
#[derive(Debug, Clone, PartialEq, Eq)]
pub struct Transfer {
    /// The level of the data/command line during the write: low for a
    /// command, high for data.
    pub data_mode: bool,
    /// The bytes written.
    pub bytes: Vec<u8>,
}

/// The mathematical value of a transfer.
pub struct TransferView {
    pub data_mode: bool,
    pub bytes: Seq<u8>,
}

impl View for Transfer {
    type V = TransferView;

    open spec fn view(&self) -> TransferView {
        TransferView { data_mode: self.data_mode, bytes: self.bytes@ }
    }
}

/// The mathematical values of a list of transfers.
pub open spec fn transfer_views(transfers: Seq<Transfer>) -> Seq<TransferView> {
    transfers.map_values(|transfer: Transfer| transfer@)
}

/// The number of pieces that data goes out in.
pub open spec fn chunk_count(len: nat) -> nat {
    ((len + MAX_TRANSFER - 1) / (MAX_TRANSFER as int)) as nat
}

/// A piece of data: all pieces but the last are as large as a transfer may
/// be.
pub open spec fn chunk(data: Seq<u8>, index: int) -> Seq<u8> {
    data.subrange(
        index * MAX_TRANSFER,
        if (index + 1) * MAX_TRANSFER <= data.len() {
            (index + 1) * MAX_TRANSFER
        } else {
            data.len() as int
        },
    )
}

impl SpiPacketView {
    /// The write that carries the command, if there is a command.
    pub open spec fn command_transfers(self) -> Seq<TransferView> {
        match self.command {
            Some(command) => seq![TransferView { data_mode: false, bytes: seq![command.code()] }],
            None => Seq::empty(),
        }
    }

    /// The writes that carry the data, piece by piece.
    pub open spec fn data_transfers(self) -> Seq<TransferView> {
        Seq::new(
            chunk_count(self.data.len()),
            |index: int| TransferView { data_mode: true, bytes: chunk(self.data, index) },
        )
    }

    /// The writes that carry the packet: the command, then the data. A packet
    /// without command and without data takes no write.
    pub open spec fn transfers(self) -> Seq<TransferView> {
        self.command_transfers() + self.data_transfers()
    }
}

} // verus!
