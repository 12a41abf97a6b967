//! The two ends of the chat: what each has received, and how each is written
//! to.

use crate::echo::{
    device_text, erases_spelled_out, law_each_erase_is_spelled_out, law_strip_undoes_spelling_out,
    spell_out_erases, to_device_text,
};
use crate::firmware::{char_of_ucs2, error_status, is_ucs2_char, status_timeout};
use crate::helpers::{stripped, without_erases};
use crate::utf8_stream::{complete_text, drain_complete_utf8, incomplete_rest};
use vstd::prelude::*;
use vstd::slice::slice_subrange;
use vstd::string::*;
use vstd::utf8::*;

verus! {

/// Backend for a chat partner.
///
/// All backends are expected to support UTF-8 and take care of the translation
/// of certain control characters and newlines between the device and normal Rust
/// strings.
pub trait ChatBackend: Sized {
    /// The text that was received and not yet consumed.
    spec fn buffered(&self) -> Seq<char>;

    /// The bytes that were received and are no complete character yet.
    spec fn undecoded(&self) -> Seq<u8>;

    /// A text as the device shows it when it has erase characters.
    spec fn normalized(&self, text: Seq<char>) -> Seq<char>;

    /// Clears all internal buffers.
    fn clear_buffer(&mut self)
        ensures
            final(self).buffered() == Seq::<char>::empty(),
            final(self).undecoded() == Seq::<u8>::empty(),
    ;

    /// Returns the text that was received and not yet consumed.
    fn read_buffer(&self) -> (buffer: &str)
        ensures
            buffer@ == self.buffered(),
    ;

    /// Returns a mutable reference to the text that was received and not yet
    /// consumed.
    fn read_buffer_mut(&mut self) -> (buffer: &mut String)
        ensures
            buffer@ == old(self).buffered(),
            final(self).buffered() == final(buffer)@,
            final(self).undecoded() == old(self).undecoded(),
    ;

    /// Normalizes backspaces for the given backend.
    ///
    /// This may replace BS with DEL or vice versa, or may replace a BS sequence
    /// with a `BS<space>BS` sequence.
    fn normalize_backspaces(&self, string: String) -> (normalized: String)
        ensures
            normalized@ == self.normalized(string@),
    ;
}

/// A key that was pressed on the console.
#[derive(Copy, Clone, Debug, PartialEq, Eq, Structural)]
pub enum Key {
    /// A key with a character, given as its UCS-2 code.
    Printable(u16),
    /// A key without a character, given as its scan code.
    Special(u16),
}

/// Whether the keys with a character have one.
pub open spec fn keys_valid(keys: Seq<Key>) -> bool {
    forall|i: int|
        0 <= i < keys.len() ==> (#[trigger] keys[i] matches Key::Printable(code) ==> is_ucs2_char(
            code,
        ))
}

/// Tells whether the keys with a character have one.
pub fn all_keys_valid(keys: &Vec<Key>) -> (valid: bool)
    ensures
        valid == keys_valid(keys@),
{
    let mut i: usize = 0;
    while i < keys.len()
        invariant
            i <= keys.len(),
            keys_valid(keys@.take(i as int)),
        decreases keys.len() - i,
    {
        if let Key::Printable(code) = keys[i] {
            if 0xd800 <= code && code <= 0xdfff {
                assert(!is_ucs2_char(keys@[i as int]->Printable_0));
                return false;
            }
        }
        proof {
            assert forall|k: int| 0 <= k < i + 1 implies (#[trigger] keys@.take(
                i + 1,
            )[k] matches Key::Printable(code) ==> is_ucs2_char(code)) by {
                if k < i {
                    assert(keys@.take(i as int)[k] == keys@.take(i + 1)[k]);
                }
            }
        }
        i = i + 1;
    }
    proof {
        assert(keys@.take(keys@.len() as int) =~= keys@);
    }
    true
}

/// The text that keys type. Special keys type nothing.
pub open spec fn typed_text(keys: Seq<Key>) -> Seq<char>
    decreases keys.len(),
{
    if keys.len() == 0 {
        seq![]
    } else {
        match keys.last() {
            Key::Printable(code) => typed_text(keys.drop_last()).push(code as char),
            Key::Special(_) => typed_text(keys.drop_last()),
        }
    }
}

/// Backend for the UEFI console which operates on the EFI_SIMPLE_TEXT_INPUT and
/// EFI_SIMPLE_TEXT_OUTPUT protocols.
#[derive(Debug)]
pub struct ConsoleBackend {
    // UTF-8 input but ASCII control characters, such as delete and backspace.
    read_buffer: String,
}

impl ConsoleBackend {
    /// A console on which nothing was typed yet.
    pub fn new() -> (backend: Self)
        ensures
            backend.buffered() == Seq::<char>::empty(),
    {
        ConsoleBackend { read_buffer: String::new() }
    }

    /// Takes the keys that were pressed since the last time and returns the
    /// text that they type.
    pub fn poll(&mut self, keys: &Vec<Key>) -> (new: String)
        requires
            keys_valid(keys@),
        ensures
            new@ == typed_text(keys@),
            final(self).buffered() == old(self).buffered() + typed_text(keys@),
    {
        let mut new: String = String::new();
        let mut i: usize = 0;
        while i < keys.len()
            invariant
                i <= keys.len(),
                keys_valid(keys@),
                new@ == typed_text(keys@.take(i as int)),
            decreases keys.len() - i,
        {
            proof {
                assert(keys@.take(i + 1).drop_last() =~= keys@.take(i as int));
                assert(keys@.take(i + 1).last() == keys@[i as int]);
            }
            match keys[i] {
                Key::Printable(code) => {
                    let c = char_of_ucs2(code);
                    assert(c == code as char);
                    new.push(c);
                },
                Key::Special(_) => {},
            }
            i = i + 1;
        }
        proof {
            assert(keys@.take(keys@.len() as int) =~= keys@);
        }
        self.read_buffer.append(new.as_str());
        new
    }

    /// The text that the console is sent to show another text.
    pub fn write_str(s: &str) -> (text: String)
        ensures
            text@ == device_text(s@),
    {
        to_device_text(s)
    }
}

impl ChatBackend for ConsoleBackend {
    closed spec fn buffered(&self) -> Seq<char> {
        self.read_buffer@
    }

    open spec fn undecoded(&self) -> Seq<u8> {
        seq![]
    }

    open spec fn normalized(&self, text: Seq<char>) -> Seq<char> {
        text
    }

    fn clear_buffer(&mut self) {
        self.read_buffer = String::new();
    }

    fn read_buffer(&self) -> (buffer: &str) {
        self.read_buffer.as_str()
    }

    fn read_buffer_mut(&mut self) -> (buffer: &mut String) {
        &mut self.read_buffer
    }

    fn normalize_backspaces(&self, string: String) -> (normalized: String) {
        string
    }
}

/// Why a transfer over the serial line ended early.
#[derive(Copy, Clone, Debug, PartialEq, Eq, Structural)]
pub struct DeviceError {
    /// The status code that the device reported.
    pub status: usize,
    /// How many bytes were transferred before.
    pub count: usize,
}

impl DeviceError {
    /// Whether the device only ran out of time.
    pub open spec fn timed_out(self) -> bool {
        self.status == error_status(18)
    }
}

/// How many bytes of a buffer of the given length a read has filled, or none
/// where the read failed. A timeout is no failure.
pub open spec fn received_count(outcome: Result<(), DeviceError>, len: nat) -> Option<nat> {
    match outcome {
        Ok(_) => Some(len),
        Err(err) => if err.timed_out() {
            Some(err.count as nat)
        } else {
            None
        },
    }
}

/// Backend for a serial device.
///
/// The remote is expected to be a VT100-like terminal.
#[derive(Debug)]
pub struct SerialBackend {
    // UTF-8 input but ASCII control characters, such as delete and backspace.
    read_buffer: String,
    // Raw byte input buffer. Data transitions from here to the read buffer for
    // every valid UTF-8 symbol.
    read_buffer_raw: Vec<u8>,
}

impl SerialBackend {
    /// A serial line on which nothing was received yet.
    pub fn new() -> (backend: Self)
        ensures
            backend.buffered() == Seq::<char>::empty(),
            backend.undecoded() == Seq::<u8>::empty(),
    {
        SerialBackend { read_buffer: String::new(), read_buffer_raw: Vec::with_capacity(4) }
    }

    /// Takes what a read into `buf` has brought and returns the text that is
    /// now complete.
    ///
    /// If a UTF-8 code point is received only partially, it is buffered
    /// internally and emitted on a subsequent invocation once the complete
    /// sequence has been received.
    pub fn poll(&mut self, buf: &[u8], outcome: Result<(), DeviceError>) -> (result: Result<
        String,
        DeviceError,
    >)
        requires
            received_count(outcome, buf@.len()) matches Some(n) ==> n <= buf@.len(),
        ensures
            match received_count(outcome, buf@.len()) {
                Some(n) => {
                    let bytes = old(self).undecoded() + buf@.take(n as int);
                    &&& result matches Ok(new) && new@ == complete_text(bytes)
                    &&& final(self).buffered() == old(self).buffered() + complete_text(bytes)
                    &&& final(self).undecoded() == incomplete_rest(bytes)
                },
                None => {
                    &&& result == Err::<String, DeviceError>(outcome->Err_0)
                    &&& *final(self) == *old(self)
                },
            },
    {
        let n: usize = match outcome {
            Ok(_) => buf.len(),
            Err(err) => {
                if err.status == status_timeout() {
                    err.count
                } else {
                    return Err(err);
                }
            },
        };
        // At this point, we might have broken a UTF-8 symbol in between.
        // We therefore use the intermediate buffer.
        let ghost raw = self.read_buffer_raw@;
        let mut i: usize = 0;
        while i < n
            invariant
                i <= n <= buf@.len(),
                self.read_buffer_raw@ == raw + buf@.take(i as int),
                self.read_buffer@ == old(self).read_buffer@,
            decreases n - i,
        {
            self.read_buffer_raw.push(buf[i]);
            i = i + 1;
            proof {
                assert(self.read_buffer_raw@ =~= raw + buf@.take(i as int));
            }
        }
        let mut new: String = String::new();
        drain_complete_utf8(&mut self.read_buffer_raw, &mut new);
        proof {
            assert(new@ =~= complete_text(raw + buf@.take(n as int)));
        }
        self.read_buffer.append(new.as_str());
        Ok(new)
    }

    /// Starts to write a text to the terminal.
    pub fn write_str(s: &str) -> (write: SerialWrite)
        ensures
            write@ == (SerialWriteView {
                bytes: encode_utf8(device_text(s@)),
                unconfirmed: encode_utf8(device_text(s@)).len(),
            }),
    {
        let text = to_device_text(s);
        let bytes = text.as_str().as_bytes_vec();
        let unconfirmed: usize = bytes.len();
        SerialWrite { bytes, unconfirmed }
    }

    /// Starts to clear the screen of the terminal.
    pub fn clear_screen() -> (write: SerialWrite)
        ensures
            write@ == (SerialWriteView {
                bytes: encode_utf8(device_text("\x1b[H\x1b[2J\x1b[3J"@)),
                unconfirmed: encode_utf8(device_text("\x1b[H\x1b[2J\x1b[3J"@)).len(),
            }),
    {
        // VT100 ANSI escape sequence to clear the screen.
        // This is the same as the `clear` command in a terminal.
        Self::write_str("\x1b[H\x1b[2J\x1b[3J")
    }
}

impl ChatBackend for SerialBackend {
    closed spec fn buffered(&self) -> Seq<char> {
        self.read_buffer@
    }

    closed spec fn undecoded(&self) -> Seq<u8> {
        self.read_buffer_raw@
    }

    open spec fn normalized(&self, text: Seq<char>) -> Seq<char> {
        erases_spelled_out(text)
    }

    fn clear_buffer(&mut self) {
        self.read_buffer_raw.clear();
        self.read_buffer = String::new();
    }

    fn read_buffer(&self) -> (buffer: &str) {
        self.read_buffer.as_str()
    }

    fn read_buffer_mut(&mut self) -> (buffer: &mut String) {
        &mut self.read_buffer
    }

    fn normalize_backspaces(&self, string: String) -> (normalized: String) {
        spell_out_erases(string.as_str())
    }
}

/// A text on its way over the serial line.
#[derive(Debug)]
pub struct SerialWrite {
    bytes: Vec<u8>,
    unconfirmed: usize,
}

/// What [`SerialWrite`] stands for.
pub struct SerialWriteView {
    /// The bytes of the text.
    pub bytes: Seq<u8>,
    /// How many bytes, at the end of the text, the device has not taken yet.
    pub unconfirmed: nat,
}

impl SerialWriteView {
    /// No more bytes are left than there are.
    pub open spec fn wf(self) -> bool {
        self.unconfirmed <= self.bytes.len()
    }

    /// The bytes that the device has not taken yet.
    pub open spec fn remaining(self) -> Seq<u8> {
        self.bytes.skip(self.bytes.len() - self.unconfirmed)
    }

    /// Whether the device takes no more bytes than it is offered.
    pub open spec fn accepts(self, outcome: Result<(), DeviceError>) -> bool {
        outcome matches Err(err) ==> err.timed_out() ==> err.count <= self.unconfirmed
    }

    /// The bytes of an attempt that the device has taken: all of them where it
    /// succeeds, and the first ones where it runs out of time. What a device
    /// that fails has taken is not known, and nothing is offered to it again.
    pub open spec fn taken(self, outcome: Result<(), DeviceError>) -> Seq<u8> {
        match outcome {
            Ok(_) => self.remaining(),
            Err(err) => if err.timed_out() {
                self.remaining().take(err.count as int)
            } else {
                seq![]
            },
        }
    }

    /// The write after an attempt.
    pub open spec fn after(self, outcome: Result<(), DeviceError>) -> SerialWriteView {
        SerialWriteView {
            unconfirmed: (self.unconfirmed - self.taken(outcome).len()) as nat,
            ..self
        }
    }
}

impl View for SerialWrite {
    type V = SerialWriteView;

    closed spec fn view(&self) -> SerialWriteView {
        SerialWriteView { bytes: self.bytes@, unconfirmed: self.unconfirmed as nat }
    }
}

/// How a write goes on.
#[derive(Copy, Clone, Debug, PartialEq, Eq, Structural)]
pub enum WriteProgress {
    /// The text was written.
    Done,
    /// The rest of the text has to be offered to the device.
    Again,
    /// The device failed.
    Failed(DeviceError),
}

impl SerialWrite {
    #[verifier::type_invariant]
    spec fn inv(self) -> bool {
        self.unconfirmed <= self.bytes@.len()
    }

    /// The bytes to offer to the device: those that it has not taken yet.
    pub fn attempt(&self) -> (bytes: &[u8])
        ensures
            self@.wf(),
            bytes@ == self@.bytes.skip(self@.bytes.len() - self@.unconfirmed),
    {
        proof {
            use_type_invariant(self);
        }
        let len: usize = self.bytes.len();
        slice_subrange(self.bytes.as_slice(), len - self.unconfirmed, len)
    }

    /// How many bytes the device has not taken yet.
    pub fn unconfirmed(&self) -> (n: usize)
        ensures
            n == self@.unconfirmed,
    {
        self.unconfirmed
    }

    /// Whether the device takes no more bytes than it is offered.
    pub fn accepts(&self, outcome: &Result<(), DeviceError>) -> (accepted: bool)
        ensures
            accepted == self@.accepts(*outcome),
    {
        match outcome {
            Ok(_) => true,
            Err(err) => err.status != status_timeout() || err.count <= self.unconfirmed,
        }
    }

    /// Says how to go on after an attempt. The text was written once an attempt
    /// succeeds; after one that runs out of time, the rest is offered.
    pub fn outcome(&mut self, outcome: Result<(), DeviceError>) -> (progress: WriteProgress)
        requires
            old(self)@.accepts(outcome),
        ensures
            final(self)@ == old(self)@.after(outcome),
            progress == match outcome {
                Ok(_) => WriteProgress::Done,
                Err(err) => if err.timed_out() {
                    WriteProgress::Again
                } else {
                    WriteProgress::Failed(err)
                },
            },
    {
        proof {
            use_type_invariant(&*self);
        }
        match outcome {
            Ok(_) => {
                self.unconfirmed = 0;
                WriteProgress::Done
            },
            Err(err) => {
                if err.status == status_timeout() {
                    self.unconfirmed = self.unconfirmed - err.count;
                    WriteProgress::Again
                } else {
                    WriteProgress::Failed(err)
                }
            },
        }
    }
}

/// A write after some attempts.
pub open spec fn after_attempts(
    write: SerialWriteView,
    outcomes: Seq<Result<(), DeviceError>>,
) -> SerialWriteView
    decreases outcomes.len(),
{
    if outcomes.len() == 0 {
        write
    } else {
        after_attempts(write, outcomes.drop_last()).after(outcomes.last())
    }
}

/// The bytes that the device has taken over some attempts, one after the other.
pub open spec fn taken_over(
    write: SerialWriteView,
    outcomes: Seq<Result<(), DeviceError>>,
) -> Seq<u8>
    decreases outcomes.len(),
{
    if outcomes.len() == 0 {
        seq![]
    } else {
        taken_over(write, outcomes.drop_last()) + after_attempts(
            write,
            outcomes.drop_last(),
        ).taken(outcomes.last())
    }
}

/// Whether the device never takes more bytes than it is offered.
pub open spec fn all_accepted(
    write: SerialWriteView,
    outcomes: Seq<Result<(), DeviceError>>,
) -> bool
    decreases outcomes.len(),
{
    outcomes.len() > 0 ==> all_accepted(write, outcomes.drop_last()) && after_attempts(
        write,
        outcomes.drop_last(),
    ).accepts(outcomes.last())
}

/// However often the device runs out of time, what it has taken together with
/// what it is offered next is the text: each byte once, in order. Once an
/// attempt succeeds, the device has taken the whole text.
pub proof fn law_each_byte_is_sent_once(
    write: SerialWriteView,
    outcomes: Seq<Result<(), DeviceError>>,
)
    requires
        write.unconfirmed == write.bytes.len(),
        all_accepted(write, outcomes),
    ensures
        after_attempts(write, outcomes).wf(),
        after_attempts(write, outcomes).bytes == write.bytes,
        taken_over(write, outcomes) + after_attempts(write, outcomes).remaining() == write.bytes,
        outcomes.len() > 0 && outcomes.last() is Ok ==> taken_over(write, outcomes) == write.bytes,
    decreases outcomes.len(),
{
    if outcomes.len() == 0 {
        assert(taken_over(write, outcomes) + write.remaining() =~= write.bytes);
    } else {
        let before = after_attempts(write, outcomes.drop_last());
        let after = after_attempts(write, outcomes);
        let taken = before.taken(outcomes.last());
        law_each_byte_is_sent_once(write, outcomes.drop_last());
        assert(before.remaining() =~= taken + after.remaining());
        assert(taken_over(write, outcomes) + after.remaining() =~= taken_over(
            write,
            outcomes.drop_last(),
        ) + before.remaining());
        if outcomes.last() is Ok {
            assert(taken_over(write, outcomes) =~= write.bytes);
        }
    }
}

/// Every key with a character types its own character, and the others type
/// nothing; what is typed first comes first.
pub proof fn law_keys_type_their_characters(a: Seq<Key>, b: Seq<Key>, code: u16)
    ensures
        typed_text(a + b) == typed_text(a) + typed_text(b),
        typed_text(seq![Key::Printable(code)]) == seq![code as char],
        typed_text(seq![Key::Special(code)]) == Seq::<char>::empty(),
    decreases b.len(),
{
    assert(seq![Key::Printable(code)].drop_last() =~= Seq::<Key>::empty());
    assert(seq![Key::Special(code)].drop_last() =~= Seq::<Key>::empty());
    assert(Seq::<char>::empty().push(code as char) =~= seq![code as char]);
    reveal_with_fuel(typed_text, 2);
    if b.len() == 0 {
        assert(a + b =~= a);
        assert(typed_text(a) + typed_text(b) =~= typed_text(a));
    } else {
        assert((a + b).drop_last() =~= a + b.drop_last());
        law_keys_type_their_characters(a, b.drop_last(), code);
        assert(typed_text(a + b) =~= typed_text(a) + typed_text(b));
    }
}

/// A text that is typed key by key comes out as it is.
pub proof fn law_typed_text_arrives(text: Seq<char>, keys: Seq<Key>)
    requires
        keys.len() == text.len(),
        forall|i: int|
            0 <= i < text.len() ==> #[trigger] keys[i] is Printable && keys[i]->Printable_0 as char
                == text[i],
    ensures
        typed_text(keys) == text,
    decreases text.len(),
{
    if text.len() > 0 {
        let front = keys.drop_last();
        assert forall|i: int| 0 <= i < front.len() implies #[trigger] front[i] is Printable
            && front[i]->Printable_0 as char == text.drop_last()[i] by {
            assert(front[i] == keys[i]);
        }
        law_typed_text_arrives(text.drop_last(), front);
        assert(keys[keys.len() - 1] is Printable);
        assert(text.drop_last().push(text.last()) =~= text);
    }
}

/// Keys are valid where none of them has a surrogate for its character.
pub proof fn law_only_surrogates_are_invalid(keys: Seq<Key>, more: Seq<Key>, code: u16)
    ensures
        keys_valid(keys + more) <==> keys_valid(keys) && keys_valid(more),
        keys_valid(seq![Key::Special(code)]),
        keys_valid(seq![Key::Printable(code)]) <==> code < 0xd800 || 0xdfff < code,
{
    let all = keys + more;
    if keys_valid(all) {
        assert forall|i: int| 0 <= i < keys.len() implies (#[trigger] keys[i] matches Key::Printable(
            code,
        ) ==> is_ucs2_char(code)) by {
            assert(all[i] == keys[i]);
        }
        assert forall|i: int| 0 <= i < more.len() implies (#[trigger] more[i] matches Key::Printable(
            code,
        ) ==> is_ucs2_char(code)) by {
            assert(all[keys.len() + i] == more[i]);
        }
    }
    let one = seq![Key::Printable(code)];
    assert(one[0] == Key::Printable(code));
    if keys_valid(one) {
        assert(is_ucs2_char(one[0]->Printable_0));
    }
}

/// A read that succeeds has filled the buffer, one that runs out of time has
/// brought what it counts, and any other has failed. Only the status of a
/// timeout, error 18, says that the time ran out.
pub proof fn law_timeout_is_no_failure(status: usize, count: usize, len: nat)
    ensures
        received_count(Ok(()), len) == Some(len),
        received_count(Err(DeviceError { status, count }), len) == (if status == usize::MAX / 2 + 1
            + 18 {
            Some(count as nat)
        } else {
            None::<nat>
        }),
        (DeviceError { status, count }).timed_out() <==> status == usize::MAX / 2 + 1 + 18,
{
}

/// A device can take as many bytes as it is offered, and any fewer; how a write
/// fails or succeeds is its own affair.
pub proof fn law_device_takes_what_is_offered(write: SerialWriteView, err: DeviceError)
    requires
        write.wf(),
    ensures
        write.accepts(Ok(())),
        write.accepts(Err(err)) <==> !err.timed_out() || err.count <= write.remaining().len(),
        write.after(Ok(())).remaining() == Seq::<u8>::empty(),
        write.accepts(Err(err)) && err.timed_out() ==> write.after(Err(err)).remaining()
            == write.remaining().skip(err.count as int),
        !err.timed_out() ==> write.after(Err(err)) == write,
{
    assert(write.after(Ok(())).remaining() =~= Seq::<u8>::empty());
    if write.accepts(Err(err)) && err.timed_out() {
        assert(write.after(Err(err)).remaining() =~= write.remaining().skip(err.count as int));
    }
}

/// The console is shown a text as it is.
pub proof fn law_console_normalizes_nothing(console: ConsoleBackend, s: Seq<char>)
    ensures
        console.normalized(s) == s,
{
}

/// The terminal gets a backspace, a blank and a backspace for each backspace and
/// each delete, wherever it stands, and never a delete; what it gets, stripped,
/// is the text without its erase characters.
pub proof fn law_serial_normalizes(serial: SerialBackend, a: Seq<char>, b: Seq<char>, c: char)
    ensures
        serial.normalized(a + b) == serial.normalized(a) + serial.normalized(b),
        c == '\x08' || c == '\x7f' ==> serial.normalized(seq![c]) == seq!['\x08', ' ', '\x08'],
        c != '\x08' && c != '\x7f' ==> serial.normalized(seq![c]) == seq![c],
        !serial.normalized(a).contains('\x7f'),
        stripped(serial.normalized(a)) == without_erases(a),
{
    law_each_erase_is_spelled_out(a, b, c);
    law_strip_undoes_spelling_out(a);
}

} // verus!
