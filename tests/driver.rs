use std::cell::RefCell;
use std::rc::Rc;

use display_interface::{DataFormat, WriteOnlyDataCommand};
use ssd1327::command::Command;
use ssd1327::display::{init_commands, Ssd1327};
use ssd1327::interface::DriverError;
use ssd1327::size::{DisplaySize, DisplaySize128x128};

#[derive(Default)]
struct Log {
    commands: Vec<Vec<u8>>,
    data: Vec<Vec<u8>>,
    fail_command: Option<usize>,
    fail_data: bool,
}

struct Recorder(Rc<RefCell<Log>>);

impl WriteOnlyDataCommand for Recorder {
    fn send_commands(&mut self, cmd: DataFormat<'_>) -> Result<(), display_interface::DisplayError> {
        let mut log = self.0.borrow_mut();
        match cmd {
            DataFormat::U8(bytes) => {
                log.commands.push(bytes.to_vec());
                if log.fail_command == Some(log.commands.len()) {
                    Err(display_interface::DisplayError::BusWriteError)
                } else {
                    Ok(())
                }
            }
            _ => Err(display_interface::DisplayError::DataFormatNotImplemented),
        }
    }

    fn send_data(&mut self, buf: DataFormat<'_>) -> Result<(), display_interface::DisplayError> {
        let mut log = self.0.borrow_mut();
        match buf {
            DataFormat::U8(bytes) => {
                log.data.push(bytes.to_vec());
                if log.fail_data {
                    Err(display_interface::DisplayError::BusWriteError)
                } else {
                    Ok(())
                }
            }
            _ => Err(display_interface::DisplayError::DataFormatNotImplemented),
        }
    }
}

fn driver() -> (Ssd1327<Recorder, DisplaySize128x128>, Rc<RefCell<Log>>) {
    let log = Rc::new(RefCell::new(Log::default()));
    let display = Ssd1327::new(Recorder(log.clone()), DisplaySize128x128);
    (display, log)
}

fn expected_init() -> Vec<Vec<u8>> {
    vec![
        vec![0xAE],
        vec![0x15, 0x00, 0x7F],
        vec![0x75, 0x00, 0x7F],
        vec![0x81, 0x80],
        vec![0xA0, 0x51],
        vec![0xA1, 0x00],
        vec![0xA2, 0x00],
        vec![0xA4],
        vec![0xA8, 0x7F],
        vec![0xB1, 0xF1],
        vec![0xB3, 0x00],
        vec![0xAB, 0x01],
        vec![0xB6, 0x0F],
        vec![0xBE, 0x0F],
        vec![0xBC, 0x08],
        vec![0xD5, 0x62],
        vec![0xFD, 0x12],
        vec![0xAF],
    ]
}

fn flushed(display: &mut Ssd1327<Recorder, DisplaySize128x128>, log: &Rc<RefCell<Log>>) -> Vec<u8> {
    display.flush().unwrap();
    log.borrow().data.last().unwrap().clone()
}

#[test]
fn geometry_of_the_128_panel() {
    assert_eq!(DisplaySize128x128::width(), 128);
    assert_eq!(DisplaySize128x128::height(), 128);
    let (display, _log) = driver();
    assert_eq!(display.size(), (128, 128));
}

#[test]
fn new_buffer_is_zeroed_with_packed_length() {
    let (mut display, log) = driver();
    let data = flushed(&mut display, &log);
    assert_eq!(data.len(), 128 * 128 / 2);
    assert!(data.iter().all(|b| *b == 0));
    assert!(log.borrow().commands.is_empty());
}

#[test]
fn init_sends_the_configuration_in_order() {
    let (mut display, log) = driver();
    assert_eq!(display.init(), Ok(()));
    assert_eq!(log.borrow().commands, expected_init());
}

#[test]
fn init_commands_follow_the_geometry() {
    let cmds = init_commands(64, 32);
    assert_eq!(cmds.len(), 18);
    assert_eq!(cmds[1], Command::ColumnAddress { start: 0, end: 63 });
    assert_eq!(cmds[2], Command::RowAddress { start: 0, end: 31 });
}

#[test]
fn init_stops_at_the_first_failing_command() {
    for k in 1..=18usize {
        let (mut display, log) = driver();
        log.borrow_mut().fail_command = Some(k);
        assert_eq!(display.init(), Err(DriverError::BusWriteError));
        let sent = log.borrow().commands.clone();
        assert_eq!(sent.len(), k);
        assert_eq!(sent, expected_init()[..k].to_vec());
    }
}

#[test]
fn send_command_passes_custom_commands() {
    let (mut display, log) = driver();
    assert_eq!(display.send_command(Command::Contrast(0x20)), Ok(()));
    assert_eq!(log.borrow().commands, vec![vec![0x81, 0x20]]);
}

#[test]
fn two_adjacent_pixels_share_the_first_byte() {
    let (mut display, log) = driver();
    display.draw_iter(&[(0, 0, 0xF), (1, 0, 0x0)]).unwrap();
    let data = flushed(&mut display, &log);
    assert_eq!(data[0], 0xF0);
}

#[test]
fn pixels_are_packed_by_row() {
    let (mut display, log) = driver();
    display.draw_pixel(3, 2, 0x5);
    display.draw_pixel(127, 127, 0xA);
    let data = flushed(&mut display, &log);
    assert_eq!(data[1 + 2 * 64], 0x05);
    assert_eq!(data[63 + 127 * 64], 0x0A);
    assert_eq!(data.iter().filter(|b| **b != 0).count(), 2);
}

#[test]
fn off_panel_pixels_leave_the_buffer_alone() {
    let (mut display, log) = driver();
    display.clear(0x3).unwrap();
    let before = flushed(&mut display, &log);
    display
        .draw_iter(&[(-1, 0, 0xF), (0, -1, 0xF), (128, 0, 0xF), (0, 128, 0xF), (i32::MAX, i32::MIN, 0xF)])
        .unwrap();
    let after = flushed(&mut display, &log);
    assert_eq!(before, after);
}

#[test]
fn clear_sets_every_pixel() {
    let (mut display, log) = driver();
    display.draw_pixel(10, 10, 0x1);
    display.clear(0x7).unwrap();
    let data = flushed(&mut display, &log);
    assert!(data.iter().all(|b| *b == 0x77));
    assert_eq!(data[0] >> 4, 0x7);
    assert_eq!(data[0] & 0x0F, 0x7);
}

#[test]
fn failed_flush_keeps_the_buffer() {
    let (mut display, log) = driver();
    display.draw_pixel(0, 0, 0xC);
    log.borrow_mut().fail_data = true;
    assert_eq!(display.flush(), Err(DriverError::BusWriteError));
    log.borrow_mut().fail_data = false;
    let data = flushed(&mut display, &log);
    assert_eq!(data[0], 0xC0);
    assert_eq!(log.borrow().data.len(), 2);
}

struct Refusing;

impl WriteOnlyDataCommand for Refusing {
    fn send_commands(&mut self, _: DataFormat<'_>) -> Result<(), display_interface::DisplayError> {
        Err(display_interface::DisplayError::DCError)
    }

    fn send_data(&mut self, _: DataFormat<'_>) -> Result<(), display_interface::DisplayError> {
        Err(display_interface::DisplayError::CSError)
    }
}

#[test]
fn interface_errors_keep_their_kind() {
    let mut display = Ssd1327::new(Refusing, DisplaySize128x128);
    assert_eq!(display.send_command(Command::DisplayOn), Err(DriverError::DCError));
    assert_eq!(display.flush(), Err(DriverError::CSError));
}

struct Pin {
    steps: Vec<bool>,
    fail_at: Option<usize>,
}

impl embedded_hal::digital::v2::OutputPin for Pin {
    type Error = ();
    fn set_low(&mut self) -> Result<(), ()> {
        self.steps.push(false);
        if self.fail_at == Some(self.steps.len()) { Err(()) } else { Ok(()) }
    }
    fn set_high(&mut self) -> Result<(), ()> {
        self.steps.push(true);
        if self.fail_at == Some(self.steps.len()) { Err(()) } else { Ok(()) }
    }
}

struct Delay(Vec<u8>);

impl embedded_hal::blocking::delay::DelayMs<u8> for Delay {
    fn delay_ms(&mut self, ms: u8) {
        self.0.push(ms);
    }
}

#[test]
fn reset_pulses_the_line() {
    let (mut display, _log) = driver();
    let mut pin = Pin { steps: vec![], fail_at: None };
    let mut delay = Delay(vec![]);
    assert_eq!(display.reset(&mut pin, &mut delay), Ok(()));
    assert_eq!(pin.steps, vec![true, false, true]);
    assert_eq!(delay.0, vec![100, 100, 100]);
}

#[test]
fn reset_reports_a_refused_line_as_bus_write_error() {
    let (mut display, _log) = driver();
    let mut pin = Pin { steps: vec![], fail_at: Some(2) };
    let mut delay = Delay(vec![]);
    assert_eq!(display.reset(&mut pin, &mut delay), Err(DriverError::BusWriteError));
    assert_eq!(pin.steps, vec![true, false]);
    assert_eq!(delay.0, vec![100]);
}

#[test]
fn drawing_a_pixel_keeps_its_byte_neighbour() {
    let (mut display, log) = driver();
    display.draw_pixel(1, 0, 0x3);
    display.draw_pixel(0, 0, 0xA);
    display.draw_pixel(1, 0, 0x3);
    let data = flushed(&mut display, &log);
    assert_eq!(data[0], 0xA3);
}

#[test]
fn reset_stops_at_the_last_refused_step() {
    let (mut display, _log) = driver();
    let mut pin = Pin { steps: vec![], fail_at: Some(3) };
    let mut delay = Delay(vec![]);
    assert_eq!(display.reset(&mut pin, &mut delay), Err(DriverError::BusWriteError));
    assert_eq!(pin.steps, vec![true, false, true]);
    assert_eq!(delay.0, vec![100, 100]);
}

#[test]
fn init_passes_on_the_bus_error_kind() {
    let mut display = Ssd1327::new(Refusing, DisplaySize128x128);
    assert_eq!(display.init(), Err(DriverError::DCError));
}
