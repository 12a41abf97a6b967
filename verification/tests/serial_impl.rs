use uart_16550::spec::{calc_divisor, CLK_FREQUENCY_HZ};
use uart_16550::spec::registers::{FifoTriggerLevel, Parity as UartParity, IER};
use uart_16550::{BaudRate, Config};
use uefi::proto::device_path::{messaging, DevicePath};
use uefi_raw::protocol::console::serial::{ControlBits, Parity, StopBits};
use uefi_raw::Status;
use uefi_serial_chat::firmware::{
    UartConfig, UART_PARITY_DISABLED, UART_PARITY_EVEN, UART_PARITY_ODD, UART_TRIGGER_FOURTEEN,
};
use uefi_serial_chat::serial_impl::{
    install, CustomSerialIoProtocol, DeviceOp, IoMode, COM1_PORT, LINE_BAUD_RATE,
};

fn line_config() -> UartConfig {
    UartConfig {
        interrupts: 0,
        frequency: 1_843_200,
        prescaler_division_factor: None,
        fifo_trigger_level: Some(0b11),
        baud_rate: 115200,
        data_bits: 8,
        extra_stop_bits: false,
        parity: 0,
    }
}

fn first_use_config() -> UartConfig {
    UartConfig { baud_rate: 9600, ..line_config() }
}

fn names(ops: &[DeviceOp]) -> Vec<String> {
    ops.iter().map(|op| format!("{op:?}")).collect()
}

fn bring_up(config: UartConfig) -> Vec<String> {
    names(&[DeviceOp::Init(config), DeviceOp::TestLoopback, DeviceOp::CheckConnected])
}

fn used() -> CustomSerialIoProtocol {
    let mut protocol = install().protocol;
    let _ = protocol.init_if_necessary();
    protocol
}

fn config_of(ops: &[DeviceOp]) -> UartConfig {
    match &ops[0] {
        DeviceOp::Init(config) => *config,
        other => panic!("{other:?}"),
    }
}

#[test]
fn install_starts_with_the_line_settings() {
    let installation = install();
    assert_eq!(installation.port, 0x3f8);
    assert_eq!(installation.port, COM1_PORT);
    assert_eq!(
        installation.protocol.mode,
        IoMode {
            control_mask: ControlBits::default().bits(),
            timeout: 1000,
            baud_rate: 115200,
            receive_fifo_depth: 16,
            data_bits: 8,
            parity: Parity::NONE.0,
            stop_bits: StopBits::ONE.0,
        }
    );
    assert!(!installation.protocol.is_initialized);
    assert_eq!(names(&installation.ops), bring_up(line_config()));
}

#[test]
fn device_path_is_one_uart_node() {
    let bytes = install().device_path;
    let mut expected = vec![3, 14, 19, 0, 0, 0, 0, 0];
    expected.extend_from_slice(&115200u64.to_ne_bytes());
    expected.extend_from_slice(&[8, messaging::Parity::NO.0, messaging::StopBits::ONE.0]);
    expected.extend_from_slice(&[0x7f, 0xff, 4, 0]);
    assert_eq!(bytes, expected);
    let path = <&DevicePath>::try_from(bytes.as_slice()).unwrap();
    let node: &messaging::Uart = path.node_iter().next().unwrap().try_into().unwrap();
    assert_eq!(node.baud_rate(), 115200);
    assert_eq!(node.data_bits(), 8);
}

#[test]
fn register_encodings_are_those_of_the_driver() {
    assert_eq!(UART_PARITY_DISABLED, UartParity::Disabled.to_raw_bits());
    assert_eq!(UART_PARITY_ODD, UartParity::Odd.to_raw_bits());
    assert_eq!(UART_PARITY_EVEN, UartParity::Even.to_raw_bits());
    assert_eq!(UART_TRIGGER_FOURTEEN, FifoTriggerLevel::Fourteen.to_raw_bits());
    assert_eq!(LINE_BAUD_RATE, BaudRate::Baud115200.to_integer());
    assert_eq!(line_config().interrupts, IER::empty().bits());
    assert_eq!(line_config().frequency, CLK_FREQUENCY_HZ);
    let default = Config::default();
    let first_use = first_use_config();
    assert_eq!(first_use.baud_rate, default.baud_rate.to_integer());
    assert_eq!(first_use.frequency, default.frequency);
    assert_eq!(first_use.prescaler_division_factor, default.prescaler_division_factor);
    assert_eq!(first_use.fifo_trigger_level, default.fifo_trigger_level.map(FifoTriggerLevel::to_raw_bits));
    assert_eq!(first_use.data_bits, default.data_bits.to_integer());
    assert_eq!(first_use.extra_stop_bits, default.extra_stop_bits);
    assert_eq!(first_use.parity, default.parity.to_raw_bits());
}

#[test]
fn first_use_brings_up_the_device_once() {
    let mut protocol = install().protocol;
    assert_eq!(names(&protocol.init_if_necessary()), bring_up(first_use_config()));
    assert!(protocol.is_initialized);
    assert_eq!(names(&protocol.init_if_necessary()), Vec::<String>::new());
    assert_eq!(protocol, used());
}

#[test]
fn writing_sends_all_bytes() {
    let mut protocol = install().protocol;
    let (ops, status) = protocol.serial_protocol_write(b"hi");
    let mut expected = bring_up(first_use_config());
    expected.extend(names(&[DeviceOp::Send(b"hi".to_vec())]));
    assert_eq!(names(&ops), expected);
    assert_eq!(status, Status::SUCCESS.0);
    let (ops, _) = protocol.serial_protocol_write(b"");
    assert_eq!(names(&ops), names(&[DeviceOp::Send(vec![])]));
}

#[test]
fn reading_reports_a_timeout_for_fewer_bytes() {
    let mut protocol = used();
    assert_eq!(names(&protocol.serial_protocol_read(16)), names(&[DeviceOp::Receive(16)]));
    assert_eq!(CustomSerialIoProtocol::serial_protocol_read_done(16, 16), (16, Status::SUCCESS.0));
    assert_eq!(CustomSerialIoProtocol::serial_protocol_read_done(16, 3), (3, Status::TIMEOUT.0));
    assert_eq!(CustomSerialIoProtocol::serial_protocol_read_done(0, 0), (0, Status::SUCCESS.0));
}

#[test]
fn control_bits_and_reset_are_unsupported() {
    let mut protocol = install().protocol;
    assert_eq!(protocol.serial_protocol_reset(), Status::UNSUPPORTED.0);
    assert_eq!(protocol.serial_protocol_get_control_bits(), Status::UNSUPPORTED.0);
    assert!(!protocol.is_initialized);
    let (ops, status) = protocol.serial_protocol_set_control_bits(1);
    assert_eq!(status, Status::UNSUPPORTED.0);
    assert_eq!(names(&ops), bring_up(first_use_config()));
    assert!(protocol.is_initialized);
}

#[test]
fn attributes_set_the_mode_and_the_frame() {
    let mut protocol = install().protocol;
    protocol.mode.control_mask = 0x30;
    let (ops, status) =
        protocol.serial_protocol_set_attributes(9600, 1, 5, Parity::EVEN.0, 7, StopBits::TWO.0);
    assert_eq!(status, Status::SUCCESS.0);
    assert_eq!(
        protocol.mode,
        IoMode {
            control_mask: 0x30,
            timeout: 5,
            baud_rate: 9600,
            receive_fifo_depth: 1,
            data_bits: 7,
            parity: 2,
            stop_bits: 3,
        }
    );
    let config = UartConfig {
        baud_rate: 9600,
        data_bits: 7,
        extra_stop_bits: true,
        parity: UART_PARITY_EVEN,
        ..line_config()
    };
    let mut expected = bring_up(first_use_config());
    expected.extend(bring_up(config));
    assert_eq!(names(&ops), expected);
}

#[test]
fn hardware_follows_the_mode() {
    let mut protocol = used();
    let mode = install().protocol.mode;
    let parities = [
        (Parity::DEFAULT, UART_PARITY_DISABLED),
        (Parity::NONE, UART_PARITY_DISABLED),
        (Parity::EVEN, UART_PARITY_EVEN),
        (Parity::ODD, UART_PARITY_ODD),
        (Parity::MARK, UART_PARITY_DISABLED),
        (Parity::SPACE, UART_PARITY_DISABLED),
        (Parity(6), UART_PARITY_DISABLED),
    ];
    for (raw, parity) in parities {
        let ops = protocol.update_io_mode(IoMode { parity: raw.0, ..mode });
        assert_eq!(config_of(&ops), UartConfig { parity, ..line_config() });
    }
    let stop_bits = [
        (StopBits::DEFAULT, false),
        (StopBits::ONE, false),
        (StopBits::ONE_FIVE, true),
        (StopBits::TWO, true),
        (StopBits(4), false),
    ];
    for (raw, extra_stop_bits) in stop_bits {
        let ops = protocol.update_io_mode(IoMode { stop_bits: raw.0, ..mode });
        assert_eq!(config_of(&ops), UartConfig { extra_stop_bits, ..line_config() });
    }
    for (raw, data_bits) in [(0, 8), (4, 8), (5, 5), (6, 6), (7, 7), (8, 8), (9, 8), (255, 8)] {
        let ops = protocol.update_io_mode(IoMode { data_bits: raw, ..mode });
        assert_eq!(config_of(&ops), UartConfig { data_bits, ..line_config() });
    }
    for baud_rate in [2, 300, 9600, 19200, 57600, 115200] {
        let new_mode = IoMode { baud_rate: baud_rate as u64, ..mode };
        let ops = protocol.update_io_mode(new_mode);
        assert_eq!(config_of(&ops), UartConfig { baud_rate, ..line_config() });
        assert_eq!(protocol.mode, new_mode);
    }
}

#[test]
fn speeds_that_the_uart_cannot_have_leave_full_speed() {
    let mut protocol = used();
    let mode = protocol.mode;
    let too_fast = u32::MAX as u64 + 1;
    for baud_rate in [0, 1, 110, 12345, 115201, 230400, u32::MAX as u64, too_fast, too_fast + 9600, u64::MAX] {
        let (ops, status) = protocol.serial_protocol_set_attributes(baud_rate, 16, 1000, 1, 8, 1);
        assert_eq!(status, Status::SUCCESS.0);
        assert_eq!(protocol.mode, IoMode { baud_rate, ..mode });
        assert_eq!(config_of(&ops), line_config());
    }
}

#[test]
fn speeds_are_those_that_the_driver_can_divide_the_clock_into() {
    let mut protocol = used();
    let mode = protocol.mode;
    for baud_rate in 2..=120_000u32 {
        let ops = protocol.update_io_mode(IoMode { baud_rate: baud_rate as u64, ..mode });
        let expected = match calc_divisor(CLK_FREQUENCY_HZ, baud_rate, None) {
            Ok(_) => baud_rate,
            Err(_) => 115200,
        };
        assert_eq!(config_of(&ops).baud_rate, expected);
    }
}

#[test]
fn no_interrupt_is_ever_turned_on() {
    let mut protocol = install().protocol;
    assert_eq!(config_of(&protocol.init_if_necessary()).interrupts, 0);
    let ops = protocol.update_io_mode(protocol.mode);
    assert_eq!(config_of(&ops).interrupts, 0);
    assert_eq!(config_of(&install().ops).interrupts, 0);
}
