//! The commands that can be sent to the display, and their byte encoding.
use vstd::prelude::*;

verus! {

/// Holds commands which can be sent to the display.
#[derive(Clone, Copy, Debug, PartialEq, Eq, Structural)]
pub enum Command {
    /// Turn display off (0xAE)
    DisplayOff,
    /// Turn display on (0xAF)
    DisplayOn,
    /// Set up column start and end address (0x15)
    ColumnAddress {
        /// The start column address
        start: u8,
        /// The end column address
        end: u8,
    },
    /// Set up row start and end address (0x75)
    RowAddress {
        /// The start row address
        start: u8,
        /// The end row address
        end: u8,
    },
    /// Contrast Control (0x81)
    Contrast(u8),
    /// Re-map setting in Graphic Display Data RAM (0xA0)
    SetRemap(u8),
    /// Display Start Line (0xA1)
    StartLine(u8),
    /// Display Offset (0xA2)
    Offset(u8),
    /// Normal Display Mode (0xA4)
    DisplayModeNormal,
    /// Multiplex Ratio (0xA8)
    MuxRatio(u8),
    /// Phase Length (0xB1)
    PhaseLength(u8),
    /// Front Clock Divider / Oscillator Frequency (0xB3)
    FrontClockDivider(u8),
    /// Function Selection A (0xAB)
    FunctionSelectionA(u8),
    /// Second Pre-Charge Period (0xB6)
    SecondPreChargePeriod(u8),
    /// COM deselect voltage level (0xBE)
    ComVoltageLevel(u8),
    /// Pre-Charge Voltage (0xBC)
    PreChargeVoltage(u8),
    /// Function Selection B (0xD5)
    FunctionSelectionB(u8),
    /// Command Lock (0xFD)
    CommandLock(u8),
}

impl Command {
    /// The opcode that starts the command on the wire.
    pub open spec fn opcode(self) -> u8 {
        match self {
            Command::DisplayOff => 0xAE,
            Command::DisplayOn => 0xAF,
            Command::ColumnAddress { .. } => 0x15,
            Command::RowAddress { .. } => 0x75,
            Command::Contrast(_) => 0x81,
            Command::SetRemap(_) => 0xA0,
            Command::StartLine(_) => 0xA1,
            Command::Offset(_) => 0xA2,
            Command::DisplayModeNormal => 0xA4,
            Command::MuxRatio(_) => 0xA8,
            Command::PhaseLength(_) => 0xB1,
            Command::FrontClockDivider(_) => 0xB3,
            Command::FunctionSelectionA(_) => 0xAB,
            Command::SecondPreChargePeriod(_) => 0xB6,
            Command::ComVoltageLevel(_) => 0xBE,
            Command::PreChargeVoltage(_) => 0xBC,
            Command::FunctionSelectionB(_) => 0xD5,
            Command::CommandLock(_) => 0xFD,
        }
    }

    /// The operand bytes that follow the opcode, in order.
    pub open spec fn operands(self) -> Seq<u8> {
        match self {
            Command::DisplayOff | Command::DisplayOn | Command::DisplayModeNormal => seq![],
            Command::ColumnAddress { start, end } | Command::RowAddress { start, end } => seq![
                start,
                end,
            ],
            Command::Contrast(v)
            | Command::SetRemap(v)
            | Command::StartLine(v)
            | Command::Offset(v)
            | Command::MuxRatio(v)
            | Command::PhaseLength(v)
            | Command::FrontClockDivider(v)
            | Command::FunctionSelectionA(v)
            | Command::SecondPreChargePeriod(v)
            | Command::ComVoltageLevel(v)
            | Command::PreChargeVoltage(v)
            | Command::FunctionSelectionB(v)
            | Command::CommandLock(v) => seq![v],
        }
    }

    /// The full byte sequence of the command: opcode, then operands.
    pub open spec fn encoding(self) -> Seq<u8> {
        seq![self.opcode()] + self.operands()
    }

    /// Encodes the command into the bytes the controller expects.
    pub fn encode(&self) -> (r: Vec<u8>)
        ensures
            r@ == self.encoding(),
            1 <= r@.len() <= 3,
    {
        let mut out: Vec<u8> = Vec::new();
        match *self {
            Command::DisplayOff => out.push(0xAE),
            Command::DisplayOn => out.push(0xAF),
            Command::ColumnAddress { start, end } => {
                out.push(0x15);
                out.push(start);
                out.push(end);
            },
            Command::RowAddress { start, end } => {
                out.push(0x75);
                out.push(start);
                out.push(end);
            },
            Command::Contrast(v) => {
                out.push(0x81);
                out.push(v);
            },
            Command::SetRemap(v) => {
                out.push(0xA0);
                out.push(v);
            },
            Command::StartLine(v) => {
                out.push(0xA1);
                out.push(v);
            },
            Command::Offset(v) => {
                out.push(0xA2);
                out.push(v);
            },
            Command::DisplayModeNormal => out.push(0xA4),
            Command::MuxRatio(v) => {
                out.push(0xA8);
                out.push(v);
            },
            Command::PhaseLength(v) => {
                out.push(0xB1);
                out.push(v);
            },
            Command::FrontClockDivider(v) => {
                out.push(0xB3);
                out.push(v);
            },
            Command::FunctionSelectionA(v) => {
                out.push(0xAB);
                out.push(v);
            },
            Command::SecondPreChargePeriod(v) => {
                out.push(0xB6);
                out.push(v);
            },
            Command::ComVoltageLevel(v) => {
                out.push(0xBE);
                out.push(v);
            },
            Command::PreChargeVoltage(v) => {
                out.push(0xBC);
                out.push(v);
            },
            Command::FunctionSelectionB(v) => {
                out.push(0xD5);
                out.push(v);
            },
            Command::CommandLock(v) => {
                out.push(0xFD);
                out.push(v);
            },
        }
        assert(out@ =~= self.encoding());
        out
    }
}

} // verus!
