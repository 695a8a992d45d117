//! The display driver and its framebuffer.
use crate::command::Command;
use crate::interface::{
    interface_error, pause_ms, pin_set_high, pin_set_low, write_command_bytes, write_data_bytes,
    DriverError,
};
use crate::size::{DisplaySize, NewZeroed};
use display_interface::WriteOnlyDataCommand;
use embedded_hal::blocking::delay::DelayMs;
use embedded_hal::digital::v2::OutputPin;
use vstd::prelude::*;

verus! {

/// The high nibble of a byte: the pixel in the even column.
pub open spec fn upper_nibble(b: u8) -> u8 {
    b / 16
}

/// The low nibble of a byte: the pixel in the odd column.
pub open spec fn lower_nibble(b: u8) -> u8 {
    b % 16
}

/// The byte `b` with its high nibble replaced by the low four bits of `v`.
pub open spec fn with_upper(b: u8, v: u8) -> u8 {
    (16 * (v % 16) + b % 16) as u8
}

/// The byte `b` with its low nibble replaced by the low four bits of `v`.
pub open spec fn with_lower(b: u8, v: u8) -> u8 {
    (16 * (b / 16) + v % 16) as u8
}

/// Writes `color` into the high nibble of `input`, keeping its low nibble.
pub fn update_upper_half(input: u8, color: u8) -> (r: u8)
    ensures
        r == with_upper(input, color),
{
    let r: u8 = color << 4 | (input & 0x0F);
    assert(r / 16 == color % 16 && r % 16 == input % 16) by (bit_vector)
        requires
            r == color << 4 | (input & 0x0F),
    ;
    r
}

/// Writes `color` into the low nibble of `input`, keeping its high nibble.
pub fn update_lower_half(input: u8, color: u8) -> (r: u8)
    ensures
        r == with_lower(input, color),
{
    let r: u8 = color & 0x0f | (input & 0xF0);
    assert(r / 16 == input / 16 && r % 16 == color % 16) by (bit_vector)
        requires
            r == color & 0x0f | (input & 0xF0),
    ;
    r
}

/// Writing the same value into the high nibble twice is the same as writing it
/// once, and the low nibble keeps the value it had.
pub proof fn lemma_upper_half_idempotent(b: u8, v: u8)
    requires
        v <= 15,
    ensures
        with_upper(with_upper(b, v), v) == with_upper(b, v),
        lower_nibble(with_upper(b, v)) == lower_nibble(b),
        upper_nibble(with_upper(b, v)) == v,
{
}

/// Writing the same value into the low nibble twice is the same as writing it
/// once, and the high nibble keeps the value it had.
pub proof fn lemma_lower_half_idempotent(b: u8, v: u8)
    requires
        v <= 15,
    ensures
        with_lower(with_lower(b, v), v) == with_lower(b, v),
        upper_nibble(with_lower(b, v)) == upper_nibble(b),
        lower_nibble(with_lower(b, v)) == v,
{
}

/// Whether `(x, y)` lies on a panel of `width` by `height` pixels.
pub open spec fn in_bounds(width: int, height: int, x: int, y: int) -> bool {
    0 <= x < width && 0 <= y < height
}

/// The index of the byte that holds pixel `(x, y)` on a panel `width` wide.
pub open spec fn pixel_index(width: int, x: int, y: int) -> int {
    x / 2 + y * (width / 2)
}

/// The gray level of pixel `(x, y)` in the framebuffer `frame`.
pub open spec fn pixel_at(frame: Seq<u8>, width: int, x: int, y: int) -> u8 {
    let b = frame[pixel_index(width, x, y)];
    if x % 2 == 0 {
        upper_nibble(b)
    } else {
        lower_nibble(b)
    }
}

/// The framebuffer `frame` after drawing `luma` at `(x, y)`; a pixel off the
/// panel leaves it as it is.
pub open spec fn with_pixel(
    frame: Seq<u8>,
    width: int,
    height: int,
    x: int,
    y: int,
    luma: u8,
) -> Seq<u8> {
    if in_bounds(width, height, x, y) {
        let i = pixel_index(width, x, y);
        frame.update(
            i,
            if x % 2 == 0 {
                with_upper(frame[i], luma)
            } else {
                with_lower(frame[i], luma)
            },
        )
    } else {
        frame
    }
}

/// The framebuffer `frame` after drawing each of `pixels` in turn.
pub open spec fn with_pixels(
    frame: Seq<u8>,
    width: int,
    height: int,
    pixels: Seq<(i32, i32, u8)>,
) -> Seq<u8>
    decreases pixels.len(),
{
    if pixels.len() == 0 {
        frame
    } else {
        let p = pixels.last();
        with_pixel(with_pixels(frame, width, height, pixels.drop_last()), width, height, p.0 as int, p.1 as int, p.2)
    }
}

/// A framebuffer of `len` bytes with every pixel at `luma`.
pub open spec fn filled(len: nat, luma: u8) -> Seq<u8> {
    Seq::new(len, |i: int| (16 * luma + luma) as u8)
}

/// The byte that holds pixel `(x, y)` lies inside a framebuffer of
/// `width / 2 * height` bytes.
proof fn lemma_pixel_index_in_frame(width: int, height: int, x: int, y: int)
    requires
        2 <= width,
        width % 2 == 0,
        in_bounds(width, height, x, y),
    ensures
        0 <= pixel_index(width, x, y) < (width / 2) * height,
{
    assert(0 <= y * (width / 2)) by (nonlinear_arith)
        requires
            0 <= y,
            2 <= width,
    ;
    assert(y * (width / 2) + width / 2 <= height * (width / 2)) by (nonlinear_arith)
        requires
            y + 1 <= height,
            2 <= width,
    ;
    assert((width / 2) * height == height * (width / 2)) by (nonlinear_arith);
}

/// Drawing a pixel that lies off the panel leaves the framebuffer byte for
/// byte as it was.
pub proof fn lemma_draw_off_panel_keeps_frame(
    frame: Seq<u8>,
    width: int,
    height: int,
    x: int,
    y: int,
    luma: u8,
)
    requires
        !in_bounds(width, height, x, y),
    ensures
        with_pixel(frame, width, height, x, y, luma) == frame,
{
}

/// After clearing to `luma`, every pixel on the panel reads back as `luma`, in
/// even and in odd columns alike.
pub proof fn lemma_clear_then_read(width: int, height: int, luma: u8, x: int, y: int)
    requires
        2 <= width,
        width % 2 == 0,
        luma <= 15,
        in_bounds(width, height, x, y),
    ensures
        pixel_at(filled(((width / 2) * height) as nat, luma), width, x, y) == luma,
{
    lemma_pixel_index_in_frame(width, height, x, y);
}

/// Two pixels on the panel share a byte exactly when they lie in the same row
/// and in the same pair of columns.
proof fn lemma_pixel_index_shared(width: int, height: int, x1: int, y1: int, x2: int, y2: int)
    requires
        2 <= width,
        width % 2 == 0,
        in_bounds(width, height, x1, y1),
        in_bounds(width, height, x2, y2),
        pixel_index(width, x1, y1) == pixel_index(width, x2, y2),
    ensures
        y1 == y2,
        x1 / 2 == x2 / 2,
{
    let h = width / 2;
    assert(0 <= x1 / 2 < h && 0 <= x2 / 2 < h);
    if y1 < y2 {
        assert(y1 * h + h <= y2 * h) by (nonlinear_arith)
            requires
                y1 + 1 <= y2,
                0 < h,
        ;
    } else if y2 < y1 {
        assert(y2 * h + h <= y1 * h) by (nonlinear_arith)
            requires
                y2 + 1 <= y1,
                0 < h,
        ;
    }
}

/// Drawing `luma` at a pixel on the panel makes that pixel read `luma`, and
/// every other pixel, the one that shares its byte included, reads as before.
pub proof fn lemma_draw_then_read(
    frame: Seq<u8>,
    width: int,
    height: int,
    x: int,
    y: int,
    luma: u8,
    x2: int,
    y2: int,
)
    requires
        2 <= width,
        width % 2 == 0,
        frame.len() == (width / 2) * height,
        luma <= 15,
        in_bounds(width, height, x, y),
        in_bounds(width, height, x2, y2),
    ensures
        pixel_at(with_pixel(frame, width, height, x, y, luma), width, x2, y2) == if x2 == x && y2
            == y {
            luma
        } else {
            pixel_at(frame, width, x2, y2)
        },
{
    lemma_pixel_index_in_frame(width, height, x, y);
    lemma_pixel_index_in_frame(width, height, x2, y2);
    if pixel_index(width, x, y) == pixel_index(width, x2, y2) {
        lemma_pixel_index_shared(width, height, x, y, x2, y2);
    }
}

/// One transfer handed to the bus: a command, or a block of pixel data.
pub enum Transfer {
    /// Bytes sent in command mode.
    Command(Seq<u8>),
    /// Bytes sent in data mode.
    Data(Seq<u8>),
}

/// One step taken on the reset line and the delay.
pub enum LineStep {
    /// The reset line was driven high.
    High,
    /// The reset line was driven low.
    Low,
    /// A pause of the given number of milliseconds.
    Pause(u8),
}

/// The steps of a full reset pulse.
pub open spec fn reset_sequence() -> Seq<LineStep> {
    seq![
        LineStep::High,
        LineStep::Pause(100),
        LineStep::Low,
        LineStep::Pause(100),
        LineStep::High,
        LineStep::Pause(100),
    ]
}

/// `n` answers of the reset line that all accepted.
pub open spec fn pins_accepted(n: int) -> Seq<bool> {
    Seq::new(n as nat, |i: int| true)
}

/// `n` answers of the bus that all accepted.
pub open spec fn accepted(n: nat) -> Seq<Result<(), DriverError>> {
    Seq::new(n, |i: int| Ok(()))
}

/// The transfers that sending the commands `cs` one after the other makes.
pub open spec fn command_transfers(cs: Seq<Command>) -> Seq<Transfer> {
    cs.map_values(|c: Command| Transfer::Command(c.encoding()))
}

/// The configuration sequence that brings up a panel of `width` by `height`
/// pixels.
pub open spec fn init_sequence(width: u8, height: u8) -> Seq<Command> {
    seq![
        Command::DisplayOff,
        Command::ColumnAddress { start: 0, end: (width - 1) as u8 },
        Command::RowAddress { start: 0, end: (height - 1) as u8 },
        Command::Contrast(0x80),
        Command::SetRemap(0x51),
        Command::StartLine(0x00),
        Command::Offset(0x00),
        Command::DisplayModeNormal,
        Command::MuxRatio(0x7f),
        Command::PhaseLength(0xf1),
        Command::FrontClockDivider(0x00),
        Command::FunctionSelectionA(0x01),
        Command::SecondPreChargePeriod(0x0f),
        Command::ComVoltageLevel(0x0f),
        Command::PreChargeVoltage(0x08),
        Command::FunctionSelectionB(0x62),
        Command::CommandLock(0x12),
        Command::DisplayOn,
    ]
}

/// Builds the configuration sequence for a panel of `width` by `height` pixels.
pub fn init_commands(width: u8, height: u8) -> (r: Vec<Command>)
    requires
        1 <= width,
        1 <= height,
    ensures
        r@ == init_sequence(width, height),
{
    let mut v: Vec<Command> = Vec::new();
    v.push(Command::DisplayOff);
    v.push(Command::ColumnAddress { start: 0, end: width - 1 });
    v.push(Command::RowAddress { start: 0, end: height - 1 });
    v.push(Command::Contrast(0x80));
    v.push(Command::SetRemap(0x51));
    v.push(Command::StartLine(0x00));
    v.push(Command::Offset(0x00));
    v.push(Command::DisplayModeNormal);
    v.push(Command::MuxRatio(0x7f));
    v.push(Command::PhaseLength(0xf1));
    v.push(Command::FrontClockDivider(0x00));
    v.push(Command::FunctionSelectionA(0x01));
    v.push(Command::SecondPreChargePeriod(0x0f));
    v.push(Command::ComVoltageLevel(0x0f));
    v.push(Command::PreChargeVoltage(0x08));
    v.push(Command::FunctionSelectionB(0x62));
    v.push(Command::CommandLock(0x12));
    v.push(Command::DisplayOn);
    assert(v@ =~= init_sequence(width, height));
    v
}

/// Represents the SSD1327 display.
///
/// Use this struct to initialize the driver.
pub struct Ssd1327<DI, SIZE> {
    display: DI,
    buffer: Vec<u8>,
    size: SIZE,
    sent: Ghost<Seq<Transfer>>,
    answers: Ghost<Seq<Result<(), DriverError>>>,
    line: Ghost<Seq<LineStep>>,
    pin_answers: Ghost<Seq<bool>>,
}

impl<DI, SIZE: DisplaySize> Ssd1327<DI, SIZE> {
    /// Width of the panel in pixels.
    pub open spec fn spec_width(&self) -> u8 {
        SIZE::spec_width()
    }

    /// Height of the panel in pixels.
    pub open spec fn spec_height(&self) -> u8 {
        SIZE::spec_height()
    }

    /// The transport the driver talks through.
    pub closed spec fn interface(&self) -> DI {
        self.display
    }

    /// The packed framebuffer.
    pub closed spec fn frame(&self) -> Seq<u8> {
        self.buffer@
    }

    /// Every transfer handed to the bus so far, oldest first.
    pub closed spec fn transfers(&self) -> Seq<Transfer> {
        self.sent@
    }

    /// What the bus answered to each transfer, oldest first.
    pub closed spec fn answers(&self) -> Seq<Result<(), DriverError>> {
        self.answers@
    }

    /// Every step taken on the reset line and the delay so far, oldest first.
    pub closed spec fn line_steps(&self) -> Seq<LineStep> {
        self.line@
    }

    /// What the reset line answered to each step that drove it, oldest
    /// first: `true` where it accepted.
    pub closed spec fn pin_answers(&self) -> Seq<bool> {
        self.pin_answers@
    }

    /// The framebuffer has the length that the geometry gives.
    pub open spec fn wf(&self) -> bool {
        self.frame().len() == (self.spec_width() / 2) as int * self.spec_height() as int
    }

    /// Nothing was sent to the bus or the reset line between `before` and
    /// `self`.
    pub open spec fn same_traffic(&self, before: &Self) -> bool {
        &&& self.transfers() == before.transfers()
        &&& self.answers() == before.answers()
        &&& self.line_steps() == before.line_steps()
        &&& self.pin_answers() == before.pin_answers()
    }
}

impl<DI: WriteOnlyDataCommand, SIZE: DisplaySize> Ssd1327<DI, SIZE> {
    /// Creates the SSD1327 display, with every pixel at zero.
    ///
    /// Make sure to reset and initialize the display before use!
    pub fn new(display: DI, size: SIZE) -> (r: Self)
        ensures
            r.wf(),
            r.interface() == display,
            r.frame() == Seq::new(r.frame().len(), |i: int| 0u8),
            r.transfers() == Seq::<Transfer>::empty(),
            r.answers() == Seq::<Result<(), DriverError>>::empty(),
            r.line_steps() == Seq::<LineStep>::empty(),
            r.pin_answers() == Seq::<bool>::empty(),
    {
        let width = SIZE::width();
        let height = SIZE::height();
        assert((width / 2) as int * height as int <= 127 * 255) by (nonlinear_arith)
            requires
                width / 2 <= 127,
                height <= 255,
        ;
        let len: usize = (width / 2) as usize * height as usize;
        let buffer = <Vec<u8> as NewZeroed>::new_zeroed(len);
        Ssd1327 {
            display,
            buffer,
            size,
            sent: Ghost(Seq::empty()),
            answers: Ghost(Seq::empty()),
            line: Ghost(Seq::empty()),
            pin_answers: Ghost(Seq::empty()),
        }
    }

    /// Resets the display: the reset line goes high, low and high again, with
    /// a pause of 100 ms after each step. The reset succeeds exactly when the
    /// line accepts all three steps; the first step it refuses ends the reset
    /// with a bus write error, and nothing follows that step.
    pub fn reset<RST: OutputPin, DELAY: DelayMs<u8>>(
        &mut self,
        rst: &mut RST,
        delay: &mut DELAY,
    ) -> (r: Result<(), DriverError>)
        ensures
            r is Ok ==> final(self).pin_answers() == old(self).pin_answers() + pins_accepted(3),
            r is Ok ==> final(self).line_steps() == old(self).line_steps() + reset_sequence(),
            r is Err ==> r == Err::<(), DriverError>(DriverError::BusWriteError),
            r is Err ==> exists|k: int|
                0 <= k < 3 && final(self).pin_answers() == old(self).pin_answers()
                    + #[trigger] pins_accepted(k).push(false) && final(self).line_steps()
                    == old(self).line_steps() + reset_sequence().take(2 * k + 1),
            final(self).frame() == old(self).frame(),
            final(self).interface() == old(self).interface(),
            final(self).transfers() == old(self).transfers(),
            final(self).answers() == old(self).answers(),
    {
        let ghost start = self.line@;
        let ghost start_answers = self.pin_answers@;
        let ok = pin_set_high(rst);
        self.line = Ghost(self.line@.push(LineStep::High));
        self.pin_answers = Ghost(self.pin_answers@.push(ok));
        if !ok {
            assert(self.line@ =~= start + reset_sequence().take(1));
            assert(self.pin_answers@ =~= start_answers + pins_accepted(0).push(false));
            return Err(DriverError::BusWriteError);
        }
        pause_ms(delay, 100);
        self.line = Ghost(self.line@.push(LineStep::Pause(100)));
        let ok = pin_set_low(rst);
        self.line = Ghost(self.line@.push(LineStep::Low));
        self.pin_answers = Ghost(self.pin_answers@.push(ok));
        if !ok {
            assert(self.line@ =~= start + reset_sequence().take(3));
            assert(self.pin_answers@ =~= start_answers + pins_accepted(1).push(false));
            return Err(DriverError::BusWriteError);
        }
        pause_ms(delay, 100);
        self.line = Ghost(self.line@.push(LineStep::Pause(100)));
        let ok = pin_set_high(rst);
        self.line = Ghost(self.line@.push(LineStep::High));
        self.pin_answers = Ghost(self.pin_answers@.push(ok));
        if !ok {
            assert(self.line@ =~= start + reset_sequence().take(5));
            assert(self.pin_answers@ =~= start_answers + pins_accepted(2).push(false));
            return Err(DriverError::BusWriteError);
        }
        pause_ms(delay, 100);
        self.line = Ghost(self.line@.push(LineStep::Pause(100)));
        assert(self.line@ =~= start + reset_sequence());
        assert(self.pin_answers@ =~= start_answers + pins_accepted(3));
        Ok(())
    }

    /// Initializes the display.
    ///
    /// Sends the configuration sequence one command at a time. The first
    /// command the bus refuses ends the sequence: no later command is sent,
    /// and the bus's answer to it is returned.
    pub fn init(&mut self) -> (r: Result<(), DriverError>)
        requires
            old(self).wf(),
        ensures
            final(self).wf(),
            final(self).frame() == old(self).frame(),
            final(self).line_steps() == old(self).line_steps(),
            final(self).pin_answers() == old(self).pin_answers(),
            r is Ok ==> final(self).transfers() == old(self).transfers() + command_transfers(
                init_sequence(old(self).spec_width(), old(self).spec_height()),
            ),
            r is Ok ==> final(self).answers() == old(self).answers() + accepted(
                init_sequence(old(self).spec_width(), old(self).spec_height()).len(),
            ),
            r is Err ==> exists|n: int|
                1 <= n <= init_sequence(old(self).spec_width(), old(self).spec_height()).len()
                    && final(self).transfers() == old(self).transfers() + command_transfers(
                    #[trigger] init_sequence(old(self).spec_width(), old(self).spec_height()).take(
                        n,
                    ),
                ) && final(self).answers() == old(self).answers() + accepted((n - 1) as nat).push(
                    r,
                ),
    {
        let cmds = init_commands(SIZE::width(), SIZE::height());
        let ghost seq = init_sequence(self.spec_width(), self.spec_height());
        let ghost start = self.sent@;
        let ghost start_answers = self.answers@;
        let mut i: usize = 0;
        while i < cmds.len()
            invariant
                self.wf(),
                cmds@ == seq,
                seq == init_sequence(old(self).spec_width(), old(self).spec_height()),
                self.frame() == old(self).frame(),
                self.line@ == old(self).line_steps(),
                self.pin_answers@ == old(self).pin_answers(),
                start == old(self).transfers(),
                start_answers == old(self).answers(),
                i <= cmds@.len(),
                self.sent@ == start + command_transfers(seq.take(i as int)),
                self.answers@ == start_answers + accepted(i as nat),
            decreases cmds@.len() - i,
        {
            let result = self.send_command(cmds[i]);
            assert(seq.take(i + 1) == seq.take(i as int).push(seq[i as int]));
            assert(command_transfers(seq.take(i + 1)) =~= command_transfers(
                seq.take(i as int),
            ).push(Transfer::Command(seq[i as int].encoding())));
            match result {
                Err(e) => {
                    assert(self.sent@ == start + command_transfers(seq.take(i + 1)));
                    assert(self.answers@ =~= start_answers + accepted(i as nat).push(result));
                    return Err(e);
                },
                Ok(()) => {
                    assert(result->Ok_0 == ());
                    assert(result == Ok::<(), DriverError>(()));
                    assert(accepted((i + 1) as nat) =~= accepted(i as nat).push(result));
                    assert(self.answers@ =~= start_answers + accepted((i + 1) as nat));
                },
            }
            i = i + 1;
        }
        assert(seq.take(i as int) =~= seq);
        Ok(())
    }

    /// Sends a custom command to the display, and passes on the bus's answer.
    pub fn send_command(&mut self, command: Command) -> (r: Result<(), DriverError>)
        requires
            old(self).wf(),
        ensures
            final(self).wf(),
            final(self).frame() == old(self).frame(),
            final(self).line_steps() == old(self).line_steps(),
            final(self).pin_answers() == old(self).pin_answers(),
            final(self).transfers() == old(self).transfers().push(
                Transfer::Command(command.encoding()),
            ),
            final(self).answers() == old(self).answers().push(r),
    {
        let bytes = command.encode();
        let result = match write_command_bytes(&mut self.display, &bytes) {
            Ok(()) => Ok(()),
            Err(e) => Err(interface_error(e)),
        };
        self.sent = Ghost(self.sent@.push(Transfer::Command(command.encoding())));
        self.answers = Ghost(self.answers@.push(result));
        result
    }

    /// Flushes the display, and makes the output visible on the screen.
    ///
    /// The whole framebuffer goes out as one block of data; it is left as it
    /// was, whether the bus accepts it or not. The bus's answer is passed on.
    pub fn flush(&mut self) -> (r: Result<(), DriverError>)
        requires
            old(self).wf(),
        ensures
            final(self).wf(),
            final(self).frame() == old(self).frame(),
            final(self).line_steps() == old(self).line_steps(),
            final(self).pin_answers() == old(self).pin_answers(),
            final(self).transfers() == old(self).transfers().push(
                Transfer::Data(old(self).frame()),
            ),
            final(self).answers() == old(self).answers().push(r),
    {
        let result = match write_data_bytes(&mut self.display, &self.buffer) {
            Ok(()) => Ok(()),
            Err(e) => Err(interface_error(e)),
        };
        self.sent = Ghost(self.sent@.push(Transfer::Data(self.buffer@)));
        self.answers = Ghost(self.answers@.push(result));
        result
    }

    /// Draws one pixel of gray level `luma` (its low four bits) at `(x, y)`.
    /// A pixel off the panel is dropped without a word.
    pub fn draw_pixel(&mut self, x: i32, y: i32, luma: u8)
        requires
            old(self).wf(),
        ensures
            final(self).wf(),
            final(self).frame() == with_pixel(
                old(self).frame(),
                old(self).spec_width() as int,
                old(self).spec_height() as int,
                x as int,
                y as int,
                luma,
            ),
            final(self).same_traffic(old(self)),
    {
        let width = SIZE::width();
        let height = SIZE::height();
        if 0 <= x && x < width as i32 && 0 <= y && y < height as i32 {
            proof {
                lemma_pixel_index_in_frame(width as int, height as int, x as int, y as int);
            }
            assert(0 <= (y as int) * (width as int / 2) < self.buffer@.len());
            assert((y as int) * (width as int / 2) <= 255 * 127) by (nonlinear_arith)
                requires
                    0 <= y < 256,
                    width as int / 2 <= 127,
            ;
            let idx: usize = (x / 2) as usize + (y as usize) * (width as usize / 2);
            assert(idx == pixel_index(width as int, x as int, y as int));
            let byte = self.buffer[idx];
            if x % 2 == 0 {
                self.buffer.set(idx, update_upper_half(byte, luma));
            } else {
                self.buffer.set(idx, update_lower_half(byte, luma));
            }
        }
    }

    /// Draws each of `pixels`, given as `(x, y, luma)`, in order. Pixels off
    /// the panel are dropped.
    pub fn draw_iter(&mut self, pixels: &[(i32, i32, u8)]) -> (r: Result<(), DriverError>)
        requires
            old(self).wf(),
        ensures
            r is Ok,
            final(self).wf(),
            final(self).frame() == with_pixels(
                old(self).frame(),
                old(self).spec_width() as int,
                old(self).spec_height() as int,
                pixels@,
            ),
            final(self).same_traffic(old(self)),
    {
        let mut i: usize = 0;
        while i < pixels.len()
            invariant
                self.wf(),
                i <= pixels@.len(),
                self.frame() == with_pixels(
                    old(self).frame(),
                    old(self).spec_width() as int,
                    old(self).spec_height() as int,
                    pixels@.take(i as int),
                ),
                self.same_traffic(old(self)),
            decreases pixels@.len() - i,
        {
            let (x, y, luma) = pixels[i];
            self.draw_pixel(x, y, luma);
            assert(pixels@.take(i + 1).drop_last() =~= pixels@.take(i as int));
            i = i + 1;
        }
        assert(pixels@.take(i as int) =~= pixels@);
        Ok(())
    }

    /// Sets every pixel to the gray level `luma`.
    pub fn clear(&mut self, luma: u8) -> (r: Result<(), DriverError>)
        requires
            old(self).wf(),
            luma <= 15,
        ensures
            r is Ok,
            final(self).wf(),
            final(self).frame() == filled(old(self).frame().len(), luma),
            final(self).same_traffic(old(self)),
    {
        let byte: u8 = (luma << 4) | luma;
        assert(byte == (16 * luma + luma) as u8) by (bit_vector)
            requires
                luma <= 15,
                byte == (luma << 4) | luma,
        ;
        let mut i: usize = 0;
        while i < self.buffer.len()
            invariant
                self.wf(),
                self.buffer@.len() == old(self).frame().len(),
                i <= self.buffer@.len(),
                forall|j: int| 0 <= j < i ==> self.buffer@[j] == byte,
                self.same_traffic(old(self)),
            decreases self.buffer@.len() - i,
        {
            self.buffer.set(i, byte);
            i = i + 1;
        }
        assert(self.buffer@ =~= filled(old(self).frame().len(), luma));
        Ok(())
    }

    /// The panel's size in pixels, as `(width, height)`.
    pub fn size(&self) -> (r: (u32, u32))
        ensures
            r == (self.spec_width() as u32, self.spec_height() as u32),
    {
        (SIZE::width() as u32, SIZE::height() as u32)
    }
}

} // verus!
