//! What the chat takes from the UEFI and UART crates: characters, status codes,
//! numbers with a meaning, and the bytes of a device path.

use crate::numbers::decimal;
use vstd::prelude::*;

verus! {

/// The status code of an error: the highest bit and the number of the error.
pub open spec fn error_status(number: int) -> int {
    (usize::MAX + 1) / 2 + number
}

/// The code of `uefi_raw::Status::SUCCESS`, which is zero.
#[verifier::external_body]
pub(crate) fn status_success() -> (code: usize)
    ensures
        code == 0,
{
    uefi_raw::Status::SUCCESS.0
}

/// The code of `uefi_raw::Status::UNSUPPORTED`, which is error 3.
#[verifier::external_body]
pub(crate) fn status_unsupported() -> (code: usize)
    ensures
        code == error_status(3),
{
    uefi_raw::Status::UNSUPPORTED.0
}

/// The code of `uefi_raw::Status::NOT_FOUND`, which is error 14.
#[verifier::external_body]
pub(crate) fn status_not_found() -> (code: usize)
    ensures
        code == error_status(14),
{
    uefi_raw::Status::NOT_FOUND.0
}

/// The code of `uefi_raw::Status::TIMEOUT`, which is error 18.
#[verifier::external_body]
pub(crate) fn status_timeout() -> (code: usize)
    ensures
        code == error_status(18),
{
    uefi_raw::Status::TIMEOUT.0
}

/// Whether a UCS-2 code unit is a character, that is, no surrogate.
pub open spec fn is_ucs2_char(code: u16) -> bool {
    !(0xd800 <= code <= 0xdfff)
}

/// `char::from` on a `uefi::Char16` gives the character with the same code
/// point. A `Char16` never holds a surrogate, and its `try_from` refuses one.
#[verifier::external_body]
pub(crate) fn char_of_ucs2(code: u16) -> (c: char)
    requires
        is_ucs2_char(code),
    ensures
        c as u32 == code,
{
    char::from(uefi::Char16::try_from(code).unwrap())
}

/// A UEFI revision as it is shown: the upper half is the major number, the
/// lower half the minor one. From major 2 on, the last digit of the minor number
/// is a number of its own, left out where it is zero. Before that, the minor
/// number has at least two digits.
pub open spec fn revision_display(revision: u32) -> Seq<char> {
    let major = revision as nat / 0x1_0000;
    let minor = revision as nat % 0x1_0000;
    if major < 2 {
        decimal(major) + "."@ + (if minor < 10 {
            "0"@
        } else {
            ""@
        }) + decimal(minor)
    } else if minor % 10 == 0 {
        decimal(major) + "."@ + decimal(minor / 10)
    } else {
        decimal(major) + "."@ + decimal(minor / 10) + "."@ + decimal(minor % 10)
    }
}

/// `Display` of `uefi_raw::table::Revision` writes the major number, a dot and
/// the minor number, in the two styles that [`revision_display`] spells out.
#[verifier::external_body]
pub(crate) fn revision_text(revision: u32) -> (text: String)
    ensures
        text@ == revision_display(revision),
{
    format!("{}", uefi_raw::table::Revision(revision))
}

/// The lowest `n` base-256 digits of a number, the lowest first.
pub open spec fn le_bytes(x: nat, n: nat) -> Seq<u8>
    decreases n,
{
    if n == 0 {
        seq![]
    } else {
        seq![(x % 256) as u8] + le_bytes(x / 256, (n - 1) as nat)
    }
}

/// A device path of one UART node, with the baud rate in the given bytes: the
/// node's header and a reserved field, its settings, and the node that ends
/// every path.
pub open spec fn uart_path(baud_bytes: Seq<u8>, data_bits: u8, parity: u8, stop_bits: u8) -> Seq<
    u8,
> {
    seq![3u8, 14, 19, 0, 0, 0, 0, 0] + baud_bytes + seq![data_bits, parity, stop_bits] + seq![
        0x7fu8,
        0xff,
        4,
        0,
    ]
}

/// Whether bytes are the device path of a UART. The baud rate stands in it in
/// the byte order of the machine, either of the two.
pub open spec fn is_uart_path(
    path: Seq<u8>,
    baud_rate: u64,
    data_bits: u8,
    parity: u8,
    stop_bits: u8,
) -> bool {
    let bytes = le_bytes(baud_rate as nat, 8);
    ||| path == uart_path(bytes, data_bits, parity, stop_bits)
    ||| path == uart_path(bytes.reverse(), data_bits, parity, stop_bits)
}

/// A `DevicePathBuilder` of the `uefi` crate that is given one `Uart` node and
/// finalized yields the bytes of that node and of the end node. With a `Vec` to
/// write to, neither step fails. Which byte order the machine has is not stated.
#[verifier::external_body]
pub(crate) fn build_uart_path(baud_rate: u64, data_bits: u8, parity: u8, stop_bits: u8) -> (path:
    Vec<u8>)
    ensures
        is_uart_path(path@, baud_rate, data_bits, parity, stop_bits),
{
    let mut bytes = Vec::new();
    let node = uefi::proto::device_path::build::messaging::Uart {
        baud_rate,
        data_bits,
        parity: uefi::proto::device_path::messaging::Parity(parity),
        stop_bits: uefi::proto::device_path::messaging::StopBits(stop_bits),
    };
    let builder = uefi::proto::device_path::build::DevicePathBuilder::with_vec(&mut bytes);
    builder.push(&node).unwrap().finalize().unwrap().as_bytes().to_vec()
}

/// The parity settings of the serial I/O protocol.
#[derive(Copy, Clone, Debug, PartialEq, Eq, Structural)]
pub enum EfiParity {
    /// What the device has by default.
    Default,
    /// No parity bit.
    NoParity,
    /// Even parity.
    Even,
    /// Odd parity.
    Odd,
    /// The parity bit is always one.
    Mark,
    /// The parity bit is always zero.
    Space,
    /// A value without a meaning.
    Unknown,
}

/// The parity setting with the given number.
pub open spec fn efi_parity_of(raw: u32) -> EfiParity {
    if raw == 0 {
        EfiParity::Default
    } else if raw == 1 {
        EfiParity::NoParity
    } else if raw == 2 {
        EfiParity::Even
    } else if raw == 3 {
        EfiParity::Odd
    } else if raw == 4 {
        EfiParity::Mark
    } else if raw == 5 {
        EfiParity::Space
    } else {
        EfiParity::Unknown
    }
}

/// Tells the constants of `uefi_raw`'s serial `Parity` apart: they are the
/// numbers from zero to five, in the order of [`efi_parity_of`].
#[verifier::external_body]
pub(crate) fn efi_parity(raw: u32) -> (parity: EfiParity)
    ensures
        parity == efi_parity_of(raw),
{
    match uefi_raw::protocol::console::serial::Parity(raw) {
        uefi_raw::protocol::console::serial::Parity::DEFAULT => EfiParity::Default,
        uefi_raw::protocol::console::serial::Parity::NONE => EfiParity::NoParity,
        uefi_raw::protocol::console::serial::Parity::EVEN => EfiParity::Even,
        uefi_raw::protocol::console::serial::Parity::ODD => EfiParity::Odd,
        uefi_raw::protocol::console::serial::Parity::MARK => EfiParity::Mark,
        uefi_raw::protocol::console::serial::Parity::SPACE => EfiParity::Space,
        _ => EfiParity::Unknown,
    }
}

/// The stop bit settings of the serial I/O protocol.
#[derive(Copy, Clone, Debug, PartialEq, Eq, Structural)]
pub enum EfiStopBits {
    /// What the device has by default.
    Default,
    /// One stop bit.
    One,
    /// One and a half stop bits.
    OneFive,
    /// Two stop bits.
    Two,
    /// A value without a meaning.
    Unknown,
}

/// The stop bit setting with the given number.
pub open spec fn efi_stop_bits_of(raw: u32) -> EfiStopBits {
    if raw == 0 {
        EfiStopBits::Default
    } else if raw == 1 {
        EfiStopBits::One
    } else if raw == 2 {
        EfiStopBits::OneFive
    } else if raw == 3 {
        EfiStopBits::Two
    } else {
        EfiStopBits::Unknown
    }
}

/// Tells the constants of `uefi_raw`'s serial `StopBits` apart: they are the
/// numbers from zero to three, in the order of [`efi_stop_bits_of`].
#[verifier::external_body]
pub(crate) fn efi_stop_bits(raw: u32) -> (stop_bits: EfiStopBits)
    ensures
        stop_bits == efi_stop_bits_of(raw),
{
    match uefi_raw::protocol::console::serial::StopBits(raw) {
        uefi_raw::protocol::console::serial::StopBits::DEFAULT => EfiStopBits::Default,
        uefi_raw::protocol::console::serial::StopBits::ONE => EfiStopBits::One,
        uefi_raw::protocol::console::serial::StopBits::ONE_FIVE => EfiStopBits::OneFive,
        uefi_raw::protocol::console::serial::StopBits::TWO => EfiStopBits::Two,
        _ => EfiStopBits::Unknown,
    }
}

/// No parity bit, as the line control register of a UART encodes it.
pub const UART_PARITY_DISABLED: u8 = 0b000;

/// Odd parity, as the line control register of a UART encodes it.
pub const UART_PARITY_ODD: u8 = 0b001;

/// Even parity, as the line control register of a UART encodes it.
pub const UART_PARITY_EVEN: u8 = 0b011;

/// The interrupt after fourteen characters, as the FIFO control register of a
/// UART encodes it.
pub const UART_TRIGGER_FOURTEEN: u8 = 0b11;

/// How a UART is set up.
#[derive(Copy, Clone, Debug, PartialEq, Eq, Structural)]
pub struct UartConfig {
    /// The bits of the interrupt enable register.
    pub interrupts: u8,
    /// The frequency of the clock, in hertz.
    pub frequency: u32,
    /// A second divisor of the clock, where the device has one.
    pub prescaler_division_factor: Option<u32>,
    /// The trigger level in its register encoding, or none to switch the FIFO
    /// off.
    pub fifo_trigger_level: Option<u8>,
    /// Bits per second.
    pub baud_rate: u32,
    /// The length of a word, in bits.
    pub data_bits: u32,
    /// Whether more than one stop bit follows a word.
    pub extra_stop_bits: bool,
    /// The parity in its register encoding.
    pub parity: u8,
}

/// The set-up of a UART that nobody has configured: 8-N-1 at 9600 baud, with
/// the FIFO on and the interrupt for received data.
pub open spec fn default_uart_config() -> UartConfig {
    UartConfig {
        interrupts: 1,
        frequency: 1_843_200,
        prescaler_division_factor: None,
        fifo_trigger_level: Some(UART_TRIGGER_FOURTEEN),
        baud_rate: 9600,
        data_bits: 8,
        extra_stop_bits: false,
        parity: UART_PARITY_DISABLED,
    }
}

/// `Config::default` of the `uart_16550` crate is [`default_uart_config`].
#[verifier::external_body]
pub(crate) fn uart_config_default() -> (config: UartConfig)
    ensures
        config == default_uart_config(),
{
    let config = uart_16550::Config::default();
    UartConfig {
        interrupts: config.interrupts.bits(),
        frequency: config.frequency,
        prescaler_division_factor: config.prescaler_division_factor,
        fifo_trigger_level: config.fifo_trigger_level.map(
            uart_16550::spec::registers::FifoTriggerLevel::to_raw_bits,
        ),
        baud_rate: config.baud_rate.to_integer(),
        data_bits: config.data_bits.to_integer(),
        extra_stop_bits: config.extra_stop_bits,
        parity: config.parity.to_raw_bits(),
    }
}

/// The usual clock of a UART, `uart_16550::spec::CLK_FREQUENCY_HZ`, which is
/// 1.8432 MHz.
#[verifier::external_body]
pub(crate) fn uart_clock_hz() -> (hz: u32)
    ensures
        hz == 1_843_200,
{
    uart_16550::spec::CLK_FREQUENCY_HZ
}

/// The word length that a UART gets for a number of data bits: that number from
/// five to eight, and eight for any other.
pub open spec fn word_length(data_bits: u8) -> u32 {
    if 5 <= data_bits <= 8 {
        data_bits as u32
    } else {
        8
    }
}

/// `WordLength::from_integer` of the `uart_16550` crate takes five to eight as
/// they are and falls back to eight.
#[verifier::external_body]
pub(crate) fn uart_word_length(data_bits: u8) -> (bits: u32)
    ensures
        bits == word_length(data_bits),
{
    uart_16550::spec::registers::WordLength::from_integer(data_bits).to_integer()
}

/// A status code of an error is above those of all warnings, by half of the range
/// of the codes, and tells its number.
pub proof fn law_error_codes(number: nat)
    ensures
        error_status(number as int) - number == usize::MAX / 2 + 1,
{
}

/// A revision is shown in parts: from major 2 on, the minor number without its
/// last digit is the second part, and that digit, unless it is zero, the third.
/// Before that, the minor number is the second part, with at least two digits.
pub proof fn law_revision_parts(major: u16, tens: nat, digit: nat)
    requires
        digit < 10,
        10 * tens + digit <= 0xffff,
    ensures
        ({
            let minor = 10 * tens + digit;
            let shown = revision_display((major * 0x1_0000 + minor) as u32);
            let start = decimal(major as nat) + "."@;
            &&& major >= 2 && digit == 0 ==> shown == start + decimal(tens)
            &&& major >= 2 && digit > 0 ==> shown == start + decimal(tens) + "."@ + decimal(digit)
            &&& major < 2 && tens == 0 ==> shown == start + "0"@ + decimal(digit)
            &&& major < 2 && tens > 0 ==> shown == start + decimal(minor)
        }),
{
    let minor = 10 * tens + digit;
    let revision = (major * 0x1_0000 + minor) as u32;
    assert(revision as nat / 0x1_0000 == major as nat);
    assert(revision as nat % 0x1_0000 == minor);
    assert(minor / 10 == tens);
    assert(minor % 10 == digit);
    reveal_strlit("");
    let start = decimal(major as nat) + "."@;
    assert(start + ""@ =~= start);
}

/// The number that bytes stand for, the lowest first.
pub open spec fn le_value(bytes: Seq<u8>) -> nat
    decreases bytes.len(),
{
    if bytes.len() == 0 {
        0
    } else {
        bytes[0] as nat + 256 * le_value(bytes.drop_first())
    }
}

proof fn lemma_le_bytes(x: nat, n: nat)
    requires
        x < vstd::arithmetic::power::pow(256, n),
    ensures
        le_bytes(x, n).len() == n,
        le_value(le_bytes(x, n)) == x,
    decreases n,
{
    vstd::arithmetic::power::lemma_pow0(256);
    if n > 0 {
        let rest = vstd::arithmetic::power::pow(256, (n - 1) as nat);
        reveal(vstd::arithmetic::power::pow);
        assert(vstd::arithmetic::power::pow(256, n) == 256 * rest);
        assert(x / 256 < rest);
        lemma_le_bytes(x / 256, (n - 1) as nat);
        assert(le_bytes(x, n).drop_first() =~= le_bytes(x / 256, (n - 1) as nat));
    }
}

/// The device path of a UART has a node of nineteen bytes with its settings and
/// then the end node. The baud rate reads back from the eight bytes in which it
/// stands, in one byte order or the other.
pub proof fn law_uart_path(
    path: Seq<u8>,
    baud_rate: u64,
    data_bits: u8,
    parity: u8,
    stop_bits: u8,
)
    requires
        is_uart_path(path, baud_rate, data_bits, parity, stop_bits),
    ensures
        path.len() == 23,
        path.take(8) == seq![3u8, 14, 19, 0, 0, 0, 0, 0],
        le_value(path.subrange(8, 16)) == baud_rate || le_value(path.subrange(8, 16).reverse())
            == baud_rate,
        path[16] == data_bits,
        path[17] == parity,
        path[18] == stop_bits,
        path.skip(19) == seq![0x7fu8, 0xff, 4, 0],
{
    let bytes = le_bytes(baud_rate as nat, 8);
    assert(vstd::arithmetic::power::pow(256, 8) == 0x1_0000_0000_0000_0000) by {
        reveal_with_fuel(vstd::arithmetic::power::pow, 9);
    }
    lemma_le_bytes(baud_rate as nat, 8);
    assert(path.take(8) =~= seq![3u8, 14, 19, 0, 0, 0, 0, 0]);
    assert(path.skip(19) =~= seq![0x7fu8, 0xff, 4, 0]);
    if path == uart_path(bytes, data_bits, parity, stop_bits) {
        assert(path.subrange(8, 16) =~= bytes);
    } else {
        assert(path.subrange(8, 16).reverse() =~= bytes);
    }
}

} // verus!
