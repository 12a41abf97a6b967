//! Implementation of the UEFI serial protocol for the device at `0x3f8`
//! (com1 port).
//!
//! Each operation of the protocol says what is to be done with the device, in
//! order, and what is reported to the caller.

use crate::firmware::{
    build_uart_path, default_uart_config, efi_parity, efi_parity_of, efi_stop_bits,
    efi_stop_bits_of, error_status, is_uart_path, status_success, status_timeout,
    status_unsupported, uart_clock_hz, uart_config_default, uart_word_length, word_length,
    EfiParity, EfiStopBits, UartConfig, UART_PARITY_DISABLED, UART_PARITY_EVEN, UART_PARITY_ODD,
    UART_TRIGGER_FOURTEEN,
};
use vstd::prelude::*;
use vstd::slice::slice_to_vec;

verus! {

/// The I/O port of the device.
pub const COM1_PORT: u16 = 0x3f8;

/// The full speed of the line, in bits per second.
pub const LINE_BAUD_RATE: u32 = 115200;

/// The parameters of the device that callers of the protocol see.
#[derive(Copy, Clone, Debug, PartialEq, Eq, Structural)]
pub struct IoMode {
    /// The control bits that the device supports.
    pub control_mask: u32,
    /// How long an operation may take, in microseconds.
    pub timeout: u32,
    /// Bits per second.
    pub baud_rate: u64,
    /// How many characters the device buffers.
    pub receive_fifo_depth: u32,
    /// The number of data bits in a character.
    pub data_bits: u32,
    /// The number of the parity setting.
    pub parity: u32,
    /// The number of the stop bit setting.
    pub stop_bits: u32,
}

/// The mode in which the device starts: 8-N-1 at full speed.
pub open spec fn initial_io_mode() -> IoMode {
    IoMode {
        control_mask: 0,
        timeout: 1000,
        baud_rate: 115200,
        receive_fifo_depth: 16,
        data_bits: 8,
        parity: 1,
        stop_bits: 1,
    }
}

/// Whether the UART can have a speed: its clock, divided by sixteen times the
/// speed, is a number without a rest that fits into the divisor registers.
pub open spec fn has_speed(baud_rate: int) -> bool {
    &&& baud_rate > 0
    &&& 1_843_200int % (16 * baud_rate) == 0
    &&& 1_843_200int / (16 * baud_rate) <= 0xffff
}

/// The speed at which the line runs when a speed is asked for: that speed, or
/// full speed where the UART cannot have it.
pub open spec fn line_speed(baud_rate: u64) -> u32 {
    if has_speed(baud_rate as int) {
        baud_rate as u32
    } else {
        LINE_BAUD_RATE
    }
}

/// No speed beyond full speed can be had.
proof fn lemma_speed_bound(baud_rate: int)
    requires
        has_speed(baud_rate),
    ensures
        baud_rate <= 115200,
{
    if baud_rate > 115200 {
        assert(1_843_200int % (16 * baud_rate) == 1_843_200) by (nonlinear_arith)
            requires
                16 * baud_rate > 1_843_200,
        ;
    }
}

/// Works out the speed at which the line runs.
fn speed_for(baud_rate: u64) -> (speed: u32)
    ensures
        speed == line_speed(baud_rate),
{
    let clock: u64 = uart_clock_hz() as u64;
    proof {
        if has_speed(baud_rate as int) {
            lemma_speed_bound(baud_rate as int);
        }
    }
    if 0 < baud_rate && baud_rate <= 115200 && clock % (16 * baud_rate) == 0 && clock / (16
        * baud_rate) <= 0xffff {
        baud_rate as u32
    } else {
        LINE_BAUD_RATE
    }
}

/// The set-up of the UART for a mode: the speed and the frame of a character
/// follow the mode. There are no interrupts, as the device is polled.
pub open spec fn uart_config_for(mode: IoMode) -> UartConfig {
    UartConfig {
        interrupts: 0,
        frequency: 1_843_200,
        prescaler_division_factor: None,
        fifo_trigger_level: Some(UART_TRIGGER_FOURTEEN),
        baud_rate: line_speed(mode.baud_rate),
        data_bits: word_length(mode.data_bits as u8),
        extra_stop_bits: efi_stop_bits_of(mode.stop_bits) is OneFive || efi_stop_bits_of(
            mode.stop_bits,
        ) is Two,
        parity: match efi_parity_of(mode.parity) {
            EfiParity::Odd => UART_PARITY_ODD,
            EfiParity::Even => UART_PARITY_EVEN,
            _ => UART_PARITY_DISABLED,
        },
    }
}

/// Works out the set-up of the UART for a mode.
fn config_for(mode: IoMode) -> (config: UartConfig)
    requires
        mode.data_bits <= u8::MAX,
    ensures
        config == uart_config_for(mode),
{
    UartConfig {
        interrupts: 0,
        frequency: uart_clock_hz(),
        prescaler_division_factor: None,
        fifo_trigger_level: Some(UART_TRIGGER_FOURTEEN),
        baud_rate: speed_for(mode.baud_rate),
        data_bits: uart_word_length(mode.data_bits as u8),
        extra_stop_bits: match efi_stop_bits(mode.stop_bits) {
            EfiStopBits::Default => false,
            EfiStopBits::One => false,
            EfiStopBits::Two => true,
            EfiStopBits::OneFive => true,
            EfiStopBits::Unknown => false,
        },
        parity: match efi_parity(mode.parity) {
            EfiParity::Default => UART_PARITY_DISABLED,
            EfiParity::NoParity => UART_PARITY_DISABLED,
            EfiParity::Odd => UART_PARITY_ODD,
            EfiParity::Even => UART_PARITY_EVEN,
            EfiParity::Mark => UART_PARITY_DISABLED,
            EfiParity::Space => UART_PARITY_DISABLED,
            EfiParity::Unknown => UART_PARITY_DISABLED,
        },
    }
}

/// Something to do with the UART.
#[derive(Debug)]
pub enum DeviceOp {
    /// Set it up.
    Init(UartConfig),
    /// Send a byte to itself and look whether it comes back.
    TestLoopback,
    /// Look whether the other side is ready to receive.
    CheckConnected,
    /// Send all of these bytes.
    Send(Vec<u8>),
    /// Fetch up to this many of the bytes that have arrived.
    Receive(usize),
}

/// What [`DeviceOp`] stands for.
pub enum DeviceOpView {
    /// Set it up.
    Init(UartConfig),
    /// Send a byte to itself and look whether it comes back.
    TestLoopback,
    /// Look whether the other side is ready to receive.
    CheckConnected,
    /// Send all of these bytes.
    Send(Seq<u8>),
    /// Fetch up to this many of the bytes that have arrived.
    Receive(nat),
}

impl View for DeviceOp {
    type V = DeviceOpView;

    open spec fn view(&self) -> DeviceOpView {
        match *self {
            DeviceOp::Init(config) => DeviceOpView::Init(config),
            DeviceOp::TestLoopback => DeviceOpView::TestLoopback,
            DeviceOp::CheckConnected => DeviceOpView::CheckConnected,
            DeviceOp::Send(bytes) => DeviceOpView::Send(bytes@),
            DeviceOp::Receive(n) => DeviceOpView::Receive(n as nat),
        }
    }
}

/// What a list of operations stands for.
pub open spec fn ops_view(ops: Seq<DeviceOp>) -> Seq<DeviceOpView> {
    ops.map_values(|op: DeviceOp| op@)
}

/// The operations that bring up the device with a configuration.
pub open spec fn bring_up(config: UartConfig) -> Seq<DeviceOpView> {
    seq![DeviceOpView::Init(config), DeviceOpView::TestLoopback, DeviceOpView::CheckConnected]
}

/// The set-up with which the device is brought up before its first use: what the
/// UART has by default, but without interrupts, as the device is polled.
pub open spec fn first_use_config() -> UartConfig {
    UartConfig { interrupts: 0, ..default_uart_config() }
}

/// The serial protocol over the UART.
#[derive(Copy, Clone, Debug, PartialEq, Eq, Structural)]
pub struct CustomSerialIoProtocol {
    /// The mode that callers see.
    pub mode: IoMode,
    /// Whether an operation of the protocol has brought up the device.
    pub is_initialized: bool,
}

impl CustomSerialIoProtocol {
    /// What has to be done before the first operation that uses the device.
    pub open spec fn first_use(self) -> Seq<DeviceOpView> {
        if self.is_initialized {
            seq![]
        } else {
            bring_up(first_use_config())
        }
    }

    /// The protocol after an operation that uses the device.
    pub open spec fn used(self) -> CustomSerialIoProtocol {
        CustomSerialIoProtocol { is_initialized: true, ..self }
    }

    /// Brings up the device before its first use.
    pub fn init_if_necessary(&mut self) -> (ops: Vec<DeviceOp>)
        ensures
            *final(self) == old(self).used(),
            ops_view(ops@) == old(self).first_use(),
    {
        if !self.is_initialized {
            self.is_initialized = true;
            Self::init_device(UartConfig { interrupts: 0, ..uart_config_default() })
        } else {
            let ops: Vec<DeviceOp> = Vec::new();
            proof {
                assert(ops_view(ops@) =~= seq![]);
            }
            ops
        }
    }

    /// Brings up the device with a configuration: sets it up, tests it, and
    /// looks for the other side.
    pub fn init_device(config: UartConfig) -> (ops: Vec<DeviceOp>)
        ensures
            ops_view(ops@) == bring_up(config),
    {
        let mut ops: Vec<DeviceOp> = Vec::new();
        ops.push(DeviceOp::Init(config));
        ops.push(DeviceOp::TestLoopback);
        ops.push(DeviceOp::CheckConnected);
        proof {
            assert(ops_view(ops@) =~= bring_up(config));
        }
        ops
    }

    /// Updates the [`IoMode`] in the protocol and also in hardware.
    pub fn update_io_mode(&mut self, new_io_mode: IoMode) -> (ops: Vec<DeviceOp>)
        requires
            new_io_mode.data_bits <= u8::MAX,
        ensures
            *final(self) == (CustomSerialIoProtocol { mode: new_io_mode, ..*old(self) }),
            ops_view(ops@) == bring_up(uart_config_for(new_io_mode)),
    {
        self.mode = new_io_mode;
        Self::init_device(config_for(new_io_mode))
    }

    /// Resetting the device is not supported.
    pub fn serial_protocol_reset(&self) -> (status: usize)
        ensures
            status == error_status(3),
    {
        status_unsupported()
    }

    /// Sets the mode of the device, except for the control bits that it
    /// supports.
    pub fn serial_protocol_set_attributes(
        &mut self,
        baud_rate: u64,
        receive_fifo_depth: u32,
        timeout: u32,
        parity: u32,
        data_bits: u8,
        stop_bits: u32,
    ) -> (result: (Vec<DeviceOp>, usize))
        ensures
            ({
                let mode = IoMode {
                    control_mask: old(self).mode.control_mask,
                    timeout,
                    baud_rate,
                    receive_fifo_depth,
                    data_bits: data_bits as u32,
                    parity,
                    stop_bits,
                };
                &&& *final(self) == (CustomSerialIoProtocol { mode, is_initialized: true })
                &&& ops_view(result.0@) == old(self).first_use() + bring_up(uart_config_for(mode))
                &&& result.1 == 0
            }),
    {
        let mut ops = self.init_if_necessary();
        let attributes = IoMode {
            baud_rate,
            parity,
            receive_fifo_depth,
            timeout,
            stop_bits,
            data_bits: data_bits as u32,
            control_mask: self.mode.control_mask,
        };
        let mut update = self.update_io_mode(attributes);
        let ghost first = ops@;
        let ghost second = update@;
        ops.append(&mut update);
        proof {
            assert(ops_view(ops@) =~= ops_view(first) + ops_view(second));
        }
        (ops, status_success())
    }

    /// Setting the control bits is not supported.
    pub fn serial_protocol_set_control_bits(&mut self, _bits: u32) -> (result: (
        Vec<DeviceOp>,
        usize,
    ))
        ensures
            *final(self) == old(self).used(),
            ops_view(result.0@) == old(self).first_use(),
            result.1 == error_status(3),
    {
        let ops = self.init_if_necessary();
        (ops, status_unsupported())
    }

    /// Getting the control bits is not supported.
    pub fn serial_protocol_get_control_bits(&self) -> (status: usize)
        ensures
            status == error_status(3),
    {
        status_unsupported()
    }

    /// Sends all bytes.
    pub fn serial_protocol_write(&mut self, data: &[u8]) -> (result: (Vec<DeviceOp>, usize))
        ensures
            *final(self) == old(self).used(),
            ops_view(result.0@) == old(self).first_use().push(DeviceOpView::Send(data@)),
            result.1 == 0,
    {
        let mut ops = self.init_if_necessary();
        let ghost first = ops@;
        ops.push(DeviceOp::Send(slice_to_vec(data)));
        proof {
            assert(ops_view(ops@) =~= ops_view(first).push(DeviceOpView::Send(data@)));
        }
        (ops, status_success())
    }

    /// Fetches up to `len` of the bytes that have arrived.
    pub fn serial_protocol_read(&mut self, len: usize) -> (ops: Vec<DeviceOp>)
        ensures
            *final(self) == old(self).used(),
            ops_view(ops@) == old(self).first_use().push(DeviceOpView::Receive(len as nat)),
    {
        let mut ops = self.init_if_necessary();
        let ghost first = ops@;
        ops.push(DeviceOp::Receive(len));
        proof {
            assert(ops_view(ops@) =~= ops_view(first).push(DeviceOpView::Receive(len as nat)));
        }
        ops
    }

    /// What a read reports once `received` of the `len` bytes were there: their
    /// number, and a timeout unless they are all that was asked for.
    ///
    /// The caller then has to fetch more frequently.
    pub fn serial_protocol_read_done(len: usize, received: usize) -> (result: (usize, usize))
        ensures
            result.0 == received,
            result.1 as int == if received == len {
                0
            } else {
                error_status(18)
            },
    {
        if received == len {
            (received, status_success())
        } else {
            (received, status_timeout())
        }
    }
}

/// What is needed to install the protocol.
#[derive(Debug)]
pub struct Installation {
    /// The I/O port of the device.
    pub port: u16,
    /// The bytes of the device path.
    pub device_path: Vec<u8>,
    /// The protocol in its first state.
    pub protocol: CustomSerialIoProtocol,
    /// What is to be done with the device before the protocol is installed.
    pub ops: Vec<DeviceOp>,
}

/// The port I/O mapped serial port (COM1 port) for which the serial I/O protocol
/// is installed: its device path, its mode, and how the mode gets to the
/// hardware.
pub fn install() -> (installation: Installation)
    ensures
        installation.port == COM1_PORT,
        is_uart_path(installation.device_path@, 115200, 8, 1, 1),
        installation.protocol == (CustomSerialIoProtocol {
            mode: initial_io_mode(),
            is_initialized: false,
        }),
        ops_view(installation.ops@) == bring_up(uart_config_for(initial_io_mode())),
{
    let device_path = build_uart_path(115200, 8, 1, 1);
    let mode = IoMode {
        control_mask: 0,
        timeout: 1000,
        baud_rate: 115200,
        receive_fifo_depth: 16,
        data_bits: 8,
        parity: 1,
        stop_bits: 1,
    };
    let mut protocol = CustomSerialIoProtocol { mode, is_initialized: false };
    let ops = protocol.update_io_mode(mode);
    Installation { port: COM1_PORT, device_path, protocol, ops }
}

/// The device is brought up before its first use, and not again: after an
/// operation that uses it, there is nothing left to do first.
pub proof fn law_first_use_happens_once(protocol: CustomSerialIoProtocol)
    ensures
        protocol.used().first_use() == Seq::<DeviceOpView>::empty(),
        protocol.used().used() == protocol.used(),
{
}

/// The mode is in force in hardware, as far as the UART can have it: the speed
/// and the word length are those of the mode. Whatever the mode, the UART is
/// asked for a speed that it can have, and the FIFO is on.
pub proof fn law_hardware_follows_mode(mode: IoMode)
    ensures
        has_speed(mode.baud_rate as int) ==> uart_config_for(mode).baud_rate == mode.baud_rate,
        has_speed(uart_config_for(mode).baud_rate as int),
        5 <= mode.data_bits <= 8 ==> uart_config_for(mode).data_bits == mode.data_bits,
        uart_config_for(mode).fifo_trigger_level == Some(UART_TRIGGER_FOURTEEN),
{
    assert(has_speed(115200)) by {
        assert(1_843_200int % (16 * 115200int) == 0) by (nonlinear_arith);
        assert(1_843_200int / (16 * 115200int) == 1) by (nonlinear_arith);
    }
    if has_speed(mode.baud_rate as int) {
        lemma_speed_bound(mode.baud_rate as int);
    }
}

/// The device is polled: neither a mode nor the first use turns an interrupt on.
pub proof fn law_no_interrupts(mode: IoMode)
    ensures
        uart_config_for(mode).interrupts == 0,
        first_use_config().interrupts == 0,
{
}

/// A speed can be had exactly where some divisor of sixteen bits makes it out of
/// the clock.
pub proof fn law_speeds_have_a_divisor(baud_rate: int)
    ensures
        has_speed(baud_rate) <==> exists|divisor: int|
            1 <= divisor <= 0xffff && #[trigger] (divisor * (16 * baud_rate)) == 1_843_200,
{
    if has_speed(baud_rate) {
        let step = 16 * baud_rate;
        let divisor = 1_843_200int / step;
        vstd::arithmetic::div_mod::lemma_fundamental_div_mod(1_843_200int, step);
        assert(divisor * step == 1_843_200) by (nonlinear_arith)
            requires
                1_843_200 == step * divisor + 0,
        ;
        assert(divisor >= 1) by (nonlinear_arith)
            requires
                divisor * step == 1_843_200,
                step > 0,
        ;
        assert(divisor * (16 * baud_rate) == 1_843_200);
    }
    if exists|divisor: int|
        1 <= divisor <= 0xffff && #[trigger] (divisor * (16 * baud_rate)) == 1_843_200 {
        let divisor = choose|divisor: int|
            1 <= divisor <= 0xffff && #[trigger] (divisor * (16 * baud_rate)) == 1_843_200;
        assert(baud_rate > 0) by (nonlinear_arith)
            requires
                divisor * (16 * baud_rate) == 1_843_200,
                divisor >= 1,
        ;
        let step = 16 * baud_rate;
        vstd::arithmetic::div_mod::lemma_fundamental_div_mod_converse(
            1_843_200int,
            step,
            divisor,
            0,
        );
    }
}

/// Setting a mode sets up the UART for it, tests it, and looks for the other
/// side, in this order; the set-up follows the mode field by field. A speed that
/// the UART cannot have leaves full speed, and a word length that it cannot have
/// leaves eight bits. Only odd and even parity have a parity bit, and only one
/// and a half and two stop bits are extra ones.
pub proof fn law_set_up_of_a_mode(mode: IoMode)
    requires
        mode.data_bits <= u8::MAX,
    ensures
        ({
            let ops = bring_up(uart_config_for(mode));
            &&& ops.len() == 3
            &&& ops[1] == DeviceOpView::TestLoopback
            &&& ops[2] == DeviceOpView::CheckConnected
            &&& ops[0] matches DeviceOpView::Init(config)
            &&& config.interrupts == 0
            &&& config.frequency == 1_843_200
            &&& config.prescaler_division_factor is None
            &&& config.fifo_trigger_level == Some(0b11u8)
            &&& has_speed(mode.baud_rate as int) ==> config.baud_rate == mode.baud_rate
            &&& !has_speed(mode.baud_rate as int) ==> config.baud_rate == 115200
            &&& 5 <= mode.data_bits <= 8 ==> config.data_bits == mode.data_bits
            &&& !(5 <= mode.data_bits <= 8) ==> config.data_bits == 8
            &&& config.extra_stop_bits <==> mode.stop_bits == 2 || mode.stop_bits == 3
            &&& mode.parity == 2 ==> config.parity == 0b011
            &&& mode.parity == 3 ==> config.parity == 0b001
            &&& mode.parity != 2 && mode.parity != 3 ==> config.parity == 0b000
        }),
{
    law_hardware_follows_mode(mode);
}

/// The first use brings the device up at 9600 baud, 8-N-1, with the FIFO on and
/// no interrupts; it changes neither the mode nor what was brought up already.
pub proof fn law_first_use(protocol: CustomSerialIoProtocol)
    ensures
        protocol.used().mode == protocol.mode,
        protocol.used().is_initialized,
        protocol.is_initialized ==> protocol.first_use() == Seq::<DeviceOpView>::empty(),
        !protocol.is_initialized ==> {
            let ops = protocol.first_use();
            &&& ops.len() == 3
            &&& ops[1] == DeviceOpView::TestLoopback
            &&& ops[2] == DeviceOpView::CheckConnected
            &&& ops[0] matches DeviceOpView::Init(config)
            &&& config.interrupts == 0
            &&& config.frequency == 1_843_200
            &&& config.prescaler_division_factor is None
            &&& config.fifo_trigger_level == Some(0b11u8)
            &&& config.baud_rate == 9600
            &&& config.data_bits == 8
            &&& !config.extra_stop_bits
            &&& config.parity == 0
        },
{
}

/// The protocol is installed as callers expect a serial port: 115200 baud,
/// 8-N-1, no control bits, a timeout of a thousand microseconds and a FIFO of
/// sixteen characters.
pub proof fn law_initial_mode()
    ensures
        COM1_PORT == 0x3f8,
        initial_io_mode().baud_rate == 115200,
        initial_io_mode().data_bits == 8,
        efi_parity_of(initial_io_mode().parity) is NoParity,
        efi_stop_bits_of(initial_io_mode().stop_bits) is One,
        initial_io_mode().control_mask == 0,
        initial_io_mode().timeout == 1000,
        initial_io_mode().receive_fifo_depth == 16,
        uart_config_for(initial_io_mode()).baud_rate == 115200,
{
}

/// Operations on the device are what they stand for, one by one.
pub proof fn law_ops_stand_for_themselves(
    ops: Seq<DeviceOp>,
    config: UartConfig,
    bytes: Vec<u8>,
    n: usize,
    i: int,
)
    requires
        0 <= i < ops.len(),
    ensures
        ops_view(ops).len() == ops.len(),
        ops_view(ops)[i] == ops[i]@,
        DeviceOp::Init(config)@ == DeviceOpView::Init(config),
        DeviceOp::TestLoopback@ == DeviceOpView::TestLoopback,
        DeviceOp::CheckConnected@ == DeviceOpView::CheckConnected,
        DeviceOp::Send(bytes)@ == DeviceOpView::Send(bytes@),
        DeviceOp::Receive(n)@ == DeviceOpView::Receive(n as nat),
{
}

} // verus!
