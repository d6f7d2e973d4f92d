//! The sequencer of the panel controller: the order of the actions that
//! reset the panel and that make it show the canvas.

pub use crate::canvas::{Canvas, CanvasView, Color};
pub use crate::command::{
    Command, InvalidCommand, SpiPacket, SpiPacketView, Transfer, TransferView, MAX_TRANSFER,
};
use crate::command::transfer_views;
use crate::eeprom::{DisplayVariant, EEPROMView, EEPROM};
use crate::lut::{lut_black, lut_black_table};
pub use crate::shape::{Drawable, Line, LineView, Rectangle, RectangleView};
use vstd::prelude::*;

verus! {

/// The pin that says whether a transfer is a command or data.
pub const DC_PIN: u8 = 22;

/// The pin that resets the controller while it is low.
pub const RESET_PIN: u8 = 27;

/// The pin that the controller holds while it is busy.
pub const BUSY_PIN: u8 = 17;

/// The clock rate of the command bus, in hertz.
pub const SPI_CLOCK_HZ: u32 = 488_000;

/// How long the reset line is held low, and how long the controller is given
/// after it is released, in milliseconds.
pub const RESET_DELAY_MILLIS: u64 = 100;

/// How long the controller is given after a refresh was triggered, before it
/// is asked whether it is busy, in milliseconds.
pub const UPDATE_DELAY_MILLIS: u64 = 50;

/// What the driver of the panel does, one step at a time.
#[derive(Debug, Clone, PartialEq, Eq)]
pub enum Action {
    /// Drive the reset line low.
    ResetLow,
    /// Drive the reset line high.
    ResetHigh,
    /// Let a number of milliseconds pass.
    Delay(u64),
    /// Send a packet over the command bus.
    Send(SpiPacket),
    /// Wait until the controller is busy no more.
    WaitBusy,
}

/// The mathematical value of an action.
pub enum ActionView {
    ResetLow,
    ResetHigh,
    Delay(u64),
    Send(SpiPacketView),
    WaitBusy,
}

impl View for Action {
    type V = ActionView;

    open spec fn view(&self) -> ActionView {
        match self {
            Action::ResetLow => ActionView::ResetLow,
            Action::ResetHigh => ActionView::ResetHigh,
            Action::Delay(millis) => ActionView::Delay(*millis),
            Action::Send(packet) => ActionView::Send(packet@),
            Action::WaitBusy => ActionView::WaitBusy,
        }
    }
}

/// The mathematical values of a list of actions.
pub open spec fn action_views(actions: Seq<Action>) -> Seq<ActionView> {
    actions.map_values(|action: Action| action@)
}

/// The sending of a command with its data.
pub open spec fn send(command: Command, data: Seq<u8>) -> ActionView {
    ActionView::Send(SpiPacketView { command: Some(command), data })
}

/// The low byte of a number: what is left of it when the multiples of 256 are
/// taken away, which for one below zero is 255.
pub open spec fn low_byte(value: int) -> u8 {
    (value % 256) as u8
}

/// The second byte of a number.
pub open spec fn high_byte(value: int) -> u8 {
    ((value / 256) % 256) as u8
}

/// The last byte column of a canvas, as the window of the controller's
/// memory takes it: the low byte of one less than the eighth of the width.
pub open spec fn last_column(width: nat) -> u8 {
    low_byte(width / 8 - 1)
}

/// The actions of a reset, in order: a pulse on the reset line, a soft reset,
/// and the wait for the controller.
pub open spec fn reset_script() -> Seq<ActionView> {
    seq![
        ActionView::ResetLow,
        ActionView::Delay(RESET_DELAY_MILLIS),
        ActionView::ResetHigh,
        ActionView::Delay(RESET_DELAY_MILLIS),
        send(Command::SoftReset, Seq::empty()),
        ActionView::WaitBusy,
    ]
}

/// The number of actions of a refresh.
pub const UPDATE_LEN: usize = 21;

/// The actions of a refresh that shows a canvas, in order: the registers of
/// the controller, the waveform table, the window and the pointers of its
/// memory, the packed canvas, the trigger with its wait, and deep sleep.
pub open spec fn update_script(canvas: CanvasView) -> Seq<ActionView> {
    seq![
        send(Command::SetAnalogBlockControl, seq![0x54u8]),
        send(Command::SetDigitalBlockControl, seq![0x3bu8]),
        send(Command::GateSetting, seq![low_byte(canvas.height as int), high_byte(canvas.height as int), 0x00u8]),
        send(Command::GateDrivingVoltage, seq![0x17u8]),
        send(Command::SourceDrivingVoltage, seq![0x41u8, 0xacu8, 0x32u8]),
        send(Command::DummyLinePeriod, seq![0x07u8]),
        send(Command::GateLineWidth, seq![0x04u8]),
        send(Command::DataEntryMode, seq![0x03u8]),
        send(Command::VComRegister, seq![0x3cu8]),
        send(Command::GSTransition, seq![0x31u8]),
        send(Command::SetLUT, lut_black_table()),
        send(Command::SetRamXStartEnd, seq![0x00u8, last_column(canvas.width)]),
        send(
            Command::SetRamYStartEnd,
            seq![0x00u8, 0x00u8, low_byte(canvas.height as int), high_byte(canvas.height as int)],
        ),
        send(Command::SetRamXPointerStart, seq![0x00u8]),
        send(Command::SetRamYPointerStart, seq![0x00u8, 0x00u8]),
        send(Command::SetBWBuffer, canvas.packed()),
        send(Command::DisplayUpdateSequence, seq![0xc7u8]),
        send(Command::TriggerDisplayUpdate, Seq::empty()),
        ActionView::Delay(UPDATE_DELAY_MILLIS),
        ActionView::WaitBusy,
        send(Command::EnterDeepSleep, seq![0x01u8]),
    ]
}

/// The command that an action sends, if it sends one.
pub open spec fn command_sent(action: ActionView) -> Option<Command> {
    match action {
        ActionView::Send(packet) => packet.command,
        _ => None,
    }
}

/// The bytes of the commands that a script sends, in the order in which it
/// sends them.
pub open spec fn commands_sent(script: Seq<ActionView>) -> Seq<u8>
    decreases script.len(),
{
    if script.len() == 0 {
        Seq::empty()
    } else {
        match command_sent(script.last()) {
            Some(command) => commands_sent(script.drop_last()).push(command.code()),
            None => commands_sent(script.drop_last()),
        }
    }
}

/// Whether a script sends a command exactly once, and with it some data.
pub open spec fn sends_once(script: Seq<ActionView>, command: Command, data: Seq<u8>) -> bool {
    exists|place: int|
        0 <= place < script.len() && #[trigger] script[place] == send(command, data) && forall|
            other: int,
        |
            0 <= other < script.len() && other != place ==> command_sent(#[trigger] script[other])
                != Some(command)
}

/// Whether a script never sends a command.
pub open spec fn never_sends(script: Seq<ActionView>, command: Command) -> bool {
    forall|place: int|
        0 <= place < script.len() ==> command_sent(#[trigger] script[place]) != Some(command)
}

/// The command of each action of a refresh; none where the action is a delay
/// or a wait.
pub open spec fn update_order() -> Seq<Option<Command>> {
    seq![
        Some(Command::SetAnalogBlockControl),
        Some(Command::SetDigitalBlockControl),
        Some(Command::GateSetting),
        Some(Command::GateDrivingVoltage),
        Some(Command::SourceDrivingVoltage),
        Some(Command::DummyLinePeriod),
        Some(Command::GateLineWidth),
        Some(Command::DataEntryMode),
        Some(Command::VComRegister),
        Some(Command::GSTransition),
        Some(Command::SetLUT),
        Some(Command::SetRamXStartEnd),
        Some(Command::SetRamYStartEnd),
        Some(Command::SetRamXPointerStart),
        Some(Command::SetRamYPointerStart),
        Some(Command::SetBWBuffer),
        Some(Command::DisplayUpdateSequence),
        Some(Command::TriggerDisplayUpdate),
        None,
        None,
        Some(Command::EnterDeepSleep),
    ]
}

/// The bytes of the commands of a refresh, in order.
pub open spec fn update_commands() -> Seq<u8> {
    seq![
        0x74u8, 0x7eu8, 0x01u8, 0x03u8, 0x04u8, 0x3au8, 0x3bu8, 0x11u8, 0x2cu8, 0x3cu8, 0x32u8,
        0x44u8, 0x45u8, 0x4eu8, 0x4fu8, 0x24u8, 0x22u8, 0x20u8, 0x10u8,
    ]
}

/// The commands that a script has sent after one more action are those that
/// it had sent before, and the command of that action if it has one.
pub proof fn lemma_commands_sent_step(script: Seq<ActionView>, count: int)
    requires
        0 <= count < script.len(),
    ensures
        commands_sent(script.take(count + 1)) == match command_sent(script[count]) {
            Some(command) => commands_sent(script.take(count)).push(command.code()),
            None => commands_sent(script.take(count)),
        },
{
    assert(script.take(count + 1).drop_last() =~= script.take(count));
    assert(script.take(count + 1).last() == script[count]);
}

/// A refresh sends its commands in one order, whatever the canvas shows:
/// each action has the command that stands at its place in that order.
pub proof fn lemma_update_order(canvas: CanvasView)
    ensures
        update_script(canvas).len() == UPDATE_LEN,
        update_order().len() == UPDATE_LEN,
        forall|place: int|
            0 <= place < UPDATE_LEN ==> command_sent(#[trigger] update_script(canvas)[place])
                == update_order()[place],
{
}

/// The bytes of the commands that a refresh sends are these nineteen, in
/// this order, whatever the canvas shows.
pub proof fn lemma_update_commands(canvas: CanvasView)
    ensures
        commands_sent(update_script(canvas)) == update_commands(),
{
    let script = update_script(canvas);
    lemma_update_order(canvas);
    assert(commands_sent(script.take(0)) =~= Seq::<u8>::empty());
    lemma_commands_sent_step(script, 0);
    lemma_commands_sent_step(script, 1);
    lemma_commands_sent_step(script, 2);
    lemma_commands_sent_step(script, 3);
    lemma_commands_sent_step(script, 4);
    lemma_commands_sent_step(script, 5);
    lemma_commands_sent_step(script, 6);
    assert(commands_sent(script.take(7)) =~= update_commands().take(7));
    lemma_commands_sent_step(script, 7);
    lemma_commands_sent_step(script, 8);
    lemma_commands_sent_step(script, 9);
    lemma_commands_sent_step(script, 10);
    lemma_commands_sent_step(script, 11);
    lemma_commands_sent_step(script, 12);
    lemma_commands_sent_step(script, 13);
    assert(commands_sent(script.take(14)) =~= update_commands().take(14));
    lemma_commands_sent_step(script, 14);
    lemma_commands_sent_step(script, 15);
    lemma_commands_sent_step(script, 16);
    lemma_commands_sent_step(script, 17);
    lemma_commands_sent_step(script, 18);
    lemma_commands_sent_step(script, 19);
    lemma_commands_sent_step(script, 20);
    assert(script.take(21) =~= script);
    assert(commands_sent(script) =~= update_commands());
}

/// A command that stands at one place only of the order of a refresh is sent
/// once by the refresh, with the data of the action at that place.
pub proof fn lemma_update_sends_once(canvas: CanvasView, place: int)
    requires
        0 <= place < UPDATE_LEN,
        update_order()[place] is Some,
    ensures
        update_script(canvas)[place] matches ActionView::Send(packet) && packet.command
            == update_order()[place] && sends_once(
            update_script(canvas),
            update_order()[place]->Some_0,
            packet.data,
        ),
{
    let script = update_script(canvas);
    lemma_update_order(canvas);
    let command = update_order()[place]->Some_0;
    let data = script[place]->Send_0.data;
    assert(script[place] == send(command, data));
    assert forall|other: int| 0 <= other < script.len() && other != place implies command_sent(
        #[trigger] script[other],
    ) != Some(command) by {
        assert(command_sent(script[other]) == update_order()[other]);
    }
}

/// Each command of a refresh whose data is fixed is sent once, and with
/// that data; the trigger is sent without any.
pub proof fn lemma_update_fixed_data(canvas: CanvasView)
    ensures
        sends_once(update_script(canvas), Command::SetAnalogBlockControl, seq![0x54u8]),
        sends_once(update_script(canvas), Command::SetDigitalBlockControl, seq![0x3bu8]),
        sends_once(update_script(canvas), Command::GateDrivingVoltage, seq![0x17u8]),
        sends_once(
            update_script(canvas),
            Command::SourceDrivingVoltage,
            seq![0x41u8, 0xacu8, 0x32u8],
        ),
        sends_once(update_script(canvas), Command::DummyLinePeriod, seq![0x07u8]),
        sends_once(update_script(canvas), Command::GateLineWidth, seq![0x04u8]),
        sends_once(update_script(canvas), Command::DataEntryMode, seq![0x03u8]),
        sends_once(update_script(canvas), Command::VComRegister, seq![0x3cu8]),
        sends_once(update_script(canvas), Command::GSTransition, seq![0x31u8]),
        sends_once(update_script(canvas), Command::SetRamXPointerStart, seq![0x00u8]),
        sends_once(update_script(canvas), Command::SetRamYPointerStart, seq![0x00u8, 0x00u8]),
        sends_once(update_script(canvas), Command::DisplayUpdateSequence, seq![0xc7u8]),
        sends_once(update_script(canvas), Command::TriggerDisplayUpdate, Seq::empty()),
        sends_once(update_script(canvas), Command::EnterDeepSleep, seq![0x01u8]),
{
    lemma_update_sends_once(canvas, 0);
    lemma_update_sends_once(canvas, 1);
    lemma_update_sends_once(canvas, 3);
    lemma_update_sends_once(canvas, 4);
    lemma_update_sends_once(canvas, 5);
    lemma_update_sends_once(canvas, 6);
    lemma_update_sends_once(canvas, 7);
    lemma_update_sends_once(canvas, 8);
    lemma_update_sends_once(canvas, 9);
    lemma_update_sends_once(canvas, 13);
    lemma_update_sends_once(canvas, 14);
    lemma_update_sends_once(canvas, 16);
    lemma_update_sends_once(canvas, 17);
    lemma_update_sends_once(canvas, 20);
}

/// The data of a refresh that follows the panel and its canvas: the packed
/// canvas is sent once, as the black and white buffer; the waveform table
/// of the black profile is sent once, all seventy bytes of it; the number
/// of lines and the windows of the memory are sent once, with the size of
/// the canvas; and the buffer of the second color is never sent.
pub proof fn lemma_update_canvas_data(canvas: CanvasView)
    ensures
        sends_once(update_script(canvas), Command::SetBWBuffer, canvas.packed()),
        sends_once(update_script(canvas), Command::SetLUT, lut_black_table()),
        lut_black_table().len() == 70,
        sends_once(
            update_script(canvas),
            Command::GateSetting,
            seq![low_byte(canvas.height as int), high_byte(canvas.height as int), 0x00u8],
        ),
        sends_once(
            update_script(canvas),
            Command::SetRamXStartEnd,
            seq![0x00u8, last_column(canvas.width)],
        ),
        sends_once(
            update_script(canvas),
            Command::SetRamYStartEnd,
            seq![0x00u8, 0x00u8, low_byte(canvas.height as int), high_byte(canvas.height as int)],
        ),
        never_sends(update_script(canvas), Command::SetRYBuffer),
{
    lemma_update_order(canvas);
    lemma_update_sends_once(canvas, 2);
    lemma_update_sends_once(canvas, 10);
    lemma_update_sends_once(canvas, 11);
    lemma_update_sends_once(canvas, 12);
    lemma_update_sends_once(canvas, 15);
    assert forall|place: int| 0 <= place < update_script(canvas).len() implies command_sent(
        #[trigger] update_script(canvas)[place],
    ) != Some(Command::SetRYBuffer) by {
        assert(command_sent(update_script(canvas)[place]) == update_order()[place]);
    }
}

/// Where the controller stands between a reset and the sleep after a refresh.
#[derive(Debug, Clone, Copy, PartialEq, Eq, Structural)]
pub enum Phase {
    /// Nothing is known of the controller: it was never reset, or a sequence
    /// broke off.
    Uninitialized,
    /// The controller was reset and waits for its registers.
    Reset,
    /// The registers are being written.
    Configuring,
    /// The packed canvas is in the controller's memory.
    BufferLoaded,
    /// The refresh was triggered and runs.
    Updating,
    /// The refresh is done and the controller sleeps.
    Sleeping,
}

/// The phase of the controller when a number of the actions of a refresh
/// have been carried out.
pub open spec fn update_phase(done: nat) -> Phase {
    if done == 0 {
        Phase::Reset
    } else if done < 16 {
        Phase::Configuring
    } else if done < 18 {
        Phase::BufferLoaded
    } else if done < UPDATE_LEN {
        Phase::Updating
    } else {
        Phase::Sleeping
    }
}

impl Phase {
    /// The phase of the controller when a number of the actions of a refresh
    /// have been carried out.
    pub fn during_update(done: usize) -> (phase: Phase)
        ensures
            phase == update_phase(done as nat),
    {
        if done == 0 {
            Phase::Reset
        } else if done < 16 {
            Phase::Configuring
        } else if done < 18 {
            Phase::BufferLoaded
        } else if done < UPDATE_LEN {
            Phase::Updating
        } else {
            Phase::Sleeping
        }
    }
}

/// Why a panel cannot be driven, or not now.
#[derive(Debug, Clone, Copy, PartialEq, Eq, Structural)]
pub enum InkyError {
    /// The display is of a family that is not supported; the family.
    UnsupportedVariant(DisplayVariant),
    /// The display shows colors that cannot be drawn; the colors.
    UnsupportedColor(crate::eeprom::Color),
    /// A refresh was asked for while the controller was not freshly reset;
    /// the phase it was in.
    NotReset(Phase),
}

impl Color {
    /// The drawing color that stands for the colors of a panel. Seven colors
    /// have none.
    pub open spec fn of_panel(value: crate::eeprom::Color) -> Option<Color> {
        match value {
            crate::eeprom::Color::Black => Some(Color::Black),
            crate::eeprom::Color::Red => Some(Color::Red),
            crate::eeprom::Color::Yellow => Some(Color::Yellow),
            crate::eeprom::Color::SevenColor => None,
        }
    }

    /// Converts the colors of a panel to the drawing color that stands for
    /// them.
    pub fn try_from(value: crate::eeprom::Color) -> (result: Result<Color, InkyError>)
        ensures
            result == match Color::of_panel(value) {
                Some(color) => Ok::<Color, InkyError>(color),
                None => Err(InkyError::UnsupportedColor(value)),
            },
    {
        match value {
            crate::eeprom::Color::Black => Ok(Color::Black),
            crate::eeprom::Color::Red => Ok(Color::Red),
            crate::eeprom::Color::Yellow => Ok(Color::Yellow),
            crate::eeprom::Color::SevenColor => Err(InkyError::UnsupportedColor(value)),
        }
    }
}

/// The mathematical value of a panel's driver.
pub struct InkyView {
    pub color: Color,
    pub h_flip: bool,
    pub v_flip: bool,
    pub eeprom: EEPROMView,
    pub canvas: CanvasView,
    pub phase: Phase,
}

impl InkyView {
    /// The canvas is as large as the record says that the display is.
    pub open spec fn wf(self) -> bool {
        &&& self.canvas.wf()
        &&& self.canvas.width == self.eeprom.width
        &&& self.canvas.height == self.eeprom.height
    }
}

/// The driver of a panel: what is known of the panel, the canvas that it is
/// to show, and the phase of its controller.
#[derive(Debug, Clone, PartialEq, Eq)]
pub struct Inky {
    color: Color,
    h_flip: bool,
    v_flip: bool,
    eeprom: EEPROM,
    canvas: Canvas,
    phase: Phase,
}

impl View for Inky {
    type V = InkyView;

    closed spec fn view(&self) -> InkyView {
        InkyView {
            color: self.color,
            h_flip: self.h_flip,
            v_flip: self.v_flip,
            eeprom: self.eeprom@,
            canvas: self.canvas@,
            phase: self.phase,
        }
    }
}

/// A command with its data, as an action.
fn send_action(command: Command, data: Vec<u8>) -> (action: Action)
    ensures
        action@ == send(command, data@),
{
    Action::Send(SpiPacket::new(Some(command), data))
}

/// Copies a stretch of bytes.
fn copy_range(data: &Vec<u8>, start: usize, end: usize) -> (bytes: Vec<u8>)
    requires
        start <= end <= data@.len(),
    ensures
        bytes@ == data@.subrange(start as int, end as int),
{
    let mut bytes: Vec<u8> = Vec::new();
    let mut index: usize = start;
    while index < end
        invariant
            start <= index <= end <= data@.len(),
            bytes@ == data@.subrange(start as int, index as int),
        decreases end - index,
    {
        bytes.push(data[index]);
        index = index + 1;
        assert(bytes@ =~= data@.subrange(start as int, index as int));
    }
    bytes
}

impl Inky {
    /// The driver of the panel that a record speaks of, with a white canvas
    /// of the panel's size and a controller of which nothing is known yet.
    /// Only the family `What` is supported, and only panels whose colors can
    /// be drawn.
    pub fn try_from(value: EEPROM) -> (result: Result<Inky, InkyError>)
        ensures
            match result {
                Ok(inky) => {
                    &&& value@.display_variant == DisplayVariant::What
                    &&& Color::of_panel(value@.color) == Some(inky@.color)
                    &&& inky@.wf()
                    &&& inky@.eeprom == value@
                    &&& !inky@.h_flip
                    &&& !inky@.v_flip
                    &&& inky@.phase == Phase::Uninitialized
                    &&& forall|place: int|
                        0 <= place < inky@.canvas.cells.len() ==> inky@.canvas.cells[place]
                            == Color::White
                },
                Err(error) => error == if value@.display_variant != DisplayVariant::What {
                    InkyError::UnsupportedVariant(value@.display_variant)
                } else {
                    InkyError::UnsupportedColor(value@.color)
                } && (value@.display_variant != DisplayVariant::What || Color::of_panel(
                    value@.color,
                ) is None),
            },
    {
        let variant = value.display_variant();
        match variant {
            DisplayVariant::What => {},
            _ => {
                return Err(InkyError::UnsupportedVariant(variant));
            },
        }
        let color = match Color::try_from(value.color()) {
            Ok(color) => color,
            Err(error) => {
                return Err(error);
            },
        };
        let width: usize = value.width() as usize;
        let height: usize = value.height() as usize;
        assert(height * width <= 0xffff * 0xffff) by (nonlinear_arith)
            requires
                0 <= height <= 0xffff,
                0 <= width <= 0xffff,
        ;
        let canvas = Canvas::new(width, height);
        Ok(
            Inky {
                color,
                h_flip: false,
                v_flip: false,
                eeprom: value,
                canvas,
                phase: Phase::Uninitialized,
            },
        )
    }

    /// The phase of the controller.
    pub fn phase(&self) -> (phase: Phase)
        ensures
            phase == self@.phase,
    {
        self.phase
    }

    /// The drawing color of the panel.
    pub fn color(&self) -> (color: Color)
        ensures
            color == self@.color,
    {
        self.color
    }

    /// What is known of the panel.
    pub fn eeprom(&self) -> (eeprom: &EEPROM)
        ensures
            eeprom@ == self@.eeprom,
    {
        &self.eeprom
    }

    /// The canvas that the panel is to show.
    pub fn canvas(&self) -> (canvas: &Canvas)
        ensures
            canvas@ == self@.canvas,
    {
        &self.canvas
    }

    /// The canvas that the panel is to show, to draw on.
    pub fn canvas_mut(&mut self) -> (canvas: &mut Canvas)
        ensures
            canvas@ == old(self)@.canvas,
            final(self)@ == (InkyView { canvas: final(canvas)@, ..old(self)@ }),
    {
        &mut self.canvas
    }

    /// The writes that send a packet over the command bus: its command with
    /// the data/command line low, then its data with the line high, in
    /// pieces no larger than a transfer may be.
    pub fn spi_send(&self, packet: SpiPacket) -> (transfers: Vec<Transfer>)
        ensures
            transfer_views(transfers@) == packet@.transfers(),
    {
        let mut transfers: Vec<Transfer> = Vec::new();
        match packet.command() {
            Some(code) => {
                transfers.push(Transfer { data_mode: false, bytes: vec![code] });
                assert(transfers@[0]@.bytes =~= seq![code]);
            },
            None => {},
        }
        assert(transfer_views(transfers@) =~= packet@.command_transfers());
        let data = packet.data();
        let len: usize = data.len();
        let ghost head = packet@.command_transfers();
        let ghost pieces = packet@.data_transfers();
        let mut start: usize = 0;
        let ghost mut count: int = 0;
        assert(transfer_views(transfers@) =~= head + pieces.take(0));
        while start < len
            invariant
                data@ == packet@.data,
                len == data@.len(),
                head == packet@.command_transfers(),
                pieces == packet@.data_transfers(),
                0 <= count <= pieces.len(),
                start <= len,
                start < len ==> start == count * MAX_TRANSFER,
                start == len ==> count == pieces.len(),
                transfer_views(transfers@) == head + pieces.take(count),
            decreases len - start,
        {
            let end: usize = if len - start > MAX_TRANSFER {
                start + MAX_TRANSFER
            } else {
                len
            };
            let bytes = copy_range(&data, start, end);
            let ghost sent_before = transfer_views(transfers@);
            let ghost piece = TransferView { data_mode: true, bytes: bytes@ };
            transfers.push(Transfer { data_mode: true, bytes });
            proof {
                assert(count < pieces.len());
                assert(pieces[count] == piece);
                assert(sent_before.len() == head.len() + count);
                assert(transfer_views(transfers@) =~= sent_before.push(piece));
                assert(sent_before.push(piece) =~= head + pieces.take(count + 1));
                count = count + 1;
            }
            start = end;
        }
        assert(pieces.take(pieces.len() as int) =~= pieces);
        transfers
    }

    /// The actions that reset the controller. When they are carried out, the
    /// controller is freshly reset, whatever phase it was in.
    pub fn reset(&mut self) -> (script: Vec<Action>)
        ensures
            action_views(script@) == reset_script(),
            script@.len() == 6,
            final(self)@ == (InkyView { phase: Phase::Reset, ..old(self)@ }),
    {
        let mut script: Vec<Action> = Vec::new();
        script.push(Action::ResetLow);
        script.push(Action::Delay(RESET_DELAY_MILLIS));
        script.push(Action::ResetHigh);
        script.push(Action::Delay(RESET_DELAY_MILLIS));
        script.push(send_action(Command::SoftReset, Vec::new()));
        script.push(Action::WaitBusy);
        self.phase = Phase::Reset;
        assert(action_views(script@) =~= reset_script());
        script
    }

    /// Records that a sequence of actions broke off. Nothing is known of the
    /// controller then, and only a reset brings it back.
    pub fn abort(&mut self)
        ensures
            final(self)@ == (InkyView { phase: Phase::Uninitialized, ..old(self)@ }),
    {
        self.phase = Phase::Uninitialized;
    }

    /// Takes note of how an action of a refresh went, and says whether to go
    /// on with the next. `done` counts the actions of the refresh that were
    /// taken in hand, this one included. After an action that succeeded the
    /// controller is in the phase that so many actions lead to, and the
    /// refresh goes on while actions are left. An action that failed breaks
    /// the refresh off: nothing is known of the controller then, and only a
    /// reset brings it back.
    pub fn after(&mut self, done: usize, succeeded: bool) -> (go_on: bool)
        requires
            done <= UPDATE_LEN,
        ensures
            go_on == (succeeded && done < UPDATE_LEN),
            final(self)@ == (InkyView {
                phase: if succeeded {
                    update_phase(done as nat)
                } else {
                    Phase::Uninitialized
                },
                ..old(self)@
            }),
    {
        if succeeded {
            self.phase = Phase::during_update(done);
            done < UPDATE_LEN
        } else {
            self.phase = Phase::Uninitialized;
            false
        }
    }

    /// The actions that make the panel show the canvas, on a controller that
    /// is freshly reset: always the same commands in the same order, with
    /// the size of the canvas and its packed pixels as their data. Nothing
    /// is carried out yet, so the driver stays as it is: `after` follows the
    /// actions one by one. On a controller in any other phase nothing is to
    /// be done but a reset.
    pub fn update(&mut self) -> (result: Result<Vec<Action>, InkyError>)
        ensures
            match result {
                Ok(script) => {
                    &&& old(self)@.phase == Phase::Reset
                    &&& action_views(script@) == update_script(old(self)@.canvas)
                    &&& commands_sent(action_views(script@)) == update_commands()
                    &&& script@.len() == UPDATE_LEN
                    &&& final(self)@ == old(self)@
                },
                Err(error) => {
                    &&& old(self)@.phase != Phase::Reset
                    &&& error == InkyError::NotReset(old(self)@.phase)
                    &&& final(self)@ == old(self)@
                },
            },
    {
        match self.phase {
            Phase::Reset => {},
            _ => {
                return Err(InkyError::NotReset(self.phase));
            },
        }
        let height: usize = self.canvas.height();
        let width: usize = self.canvas.width();
        let height_low: u8 = (height % 256) as u8;
        let height_high: u8 = ((height / 256) % 256) as u8;
        let x_end: u8 = if width >= 8 {
            ((width / 8 - 1) % 256) as u8
        } else {
            255
        };
        let mut script: Vec<Action> = Vec::new();
        script.push(send_action(Command::SetAnalogBlockControl, vec![0x54u8]));
        script.push(send_action(Command::SetDigitalBlockControl, vec![0x3bu8]));
        script.push(send_action(Command::GateSetting, vec![height_low, height_high, 0x00u8]));
        script.push(send_action(Command::GateDrivingVoltage, vec![0x17u8]));
        script.push(send_action(Command::SourceDrivingVoltage, vec![0x41u8, 0xacu8, 0x32u8]));
        script.push(send_action(Command::DummyLinePeriod, vec![0x07u8]));
        script.push(send_action(Command::GateLineWidth, vec![0x04u8]));
        script.push(send_action(Command::DataEntryMode, vec![0x03u8]));
        script.push(send_action(Command::VComRegister, vec![0x3cu8]));
        script.push(send_action(Command::GSTransition, vec![0x31u8]));
        script.push(send_action(Command::SetLUT, lut_black()));
        script.push(send_action(Command::SetRamXStartEnd, vec![0x00u8, x_end]));
        script.push(
            send_action(Command::SetRamYStartEnd, vec![0x00u8, 0x00u8, height_low, height_high]),
        );
        let bw_buf = self.canvas.pack();
        script.push(send_action(Command::SetRamXPointerStart, vec![0x00u8]));
        script.push(send_action(Command::SetRamYPointerStart, vec![0x00u8, 0x00u8]));
        script.push(send_action(Command::SetBWBuffer, bw_buf));
        script.push(send_action(Command::DisplayUpdateSequence, vec![0xc7u8]));
        script.push(send_action(Command::TriggerDisplayUpdate, Vec::new()));
        script.push(Action::Delay(UPDATE_DELAY_MILLIS));
        script.push(Action::WaitBusy);
        script.push(send_action(Command::EnterDeepSleep, vec![0x01u8]));
        proof {
            let views = action_views(script@);
            let wanted = update_script(old(self)@.canvas);
            assert(views.len() == wanted.len());
            assert forall|index: int| 0 <= index < views.len() implies views[index]
                == wanted[index] by {
                let data = script@[index]->Send_0@.data;
                let wanted_data = wanted[index]->Send_0.data;
                if index != 18 && index != 19 {
                    assert(data =~= wanted_data);
                }
            }
            assert(views =~= wanted);
            lemma_update_commands(old(self)@.canvas);
        }
        Ok(script)
    }
}

} // verus!
