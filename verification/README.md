# uefi-serial-chat

A UEFI chat application. The machine that boots it is the host (`LOCAL`), and a
terminal on its serial port (UART 16550) is the chat partner (`REMOTE`).

The library under `src/` holds the logic and is verified with Verus:

- `helpers`: message lines, line breaks, and the backspaces in what a user types
- `echo`: how input is shown on a screen or a terminal
- `utf8_stream`: characters out of bytes that arrive in pieces
- `numbers`: decimal numbers as the user reads and types them
- `backend`: the console and the serial line, with what each has received
- `actions`: the steps of a chat, among them the prompt
- `conversation`: what was said, what is being typed, and how both partners see
  it
- `chat`: the chat as a whole, as a list of what is still to be done
- `handles`: which serial devices there are
- `serial_impl`: the serial protocol for the port at `0x3f8`
- `firmware`: what is taken from the UEFI and UART crates

Functions that are named `law_...` state what holds of all inputs.

What Verus takes on trust are the functions in `firmware` that call the `uefi`,
`uefi_raw` and `uart_16550` crates, and two of the standard library:
`String::push` in `helpers` and `core::str::from_utf8` in `utf8_stream`.

`app/` is the application around the library: it performs on the real devices
what the library asks for.
