use uefi_serial_chat::numbers::{parse_usize, push_decimal};

fn shown(n: usize) -> String {
    let mut text = String::from("n=");
    push_decimal(&mut text, n);
    text[2..].to_owned()
}

#[test]
fn numbers_are_shown_in_decimal() {
    for n in [0, 7, 9, 10, 11, 99, 100, 1234567890, usize::MAX] {
        assert_eq!(shown(n), n.to_string());
    }
}

#[test]
fn shown_numbers_read_back() {
    for n in [0, 1, 10, 42, 65535, usize::MAX - 1, usize::MAX] {
        assert_eq!(parse_usize(&shown(n)), Some(n));
    }
}

#[test]
fn numbers_are_read_as_std_reads_them() {
    let inputs = [
        "", "+", "-", "0", "+0", "-0", "7", "007", "+12", "++1", "1+", " 1", "1 ", "1_0", "0x10", "12a",
        "\u{661}", "18446744073709551615", "18446744073709551616", "99999999999999999999999", "+18446744073709551615",
        "184467440737095516150",
    ];
    for input in inputs {
        assert_eq!(parse_usize(input), input.parse::<usize>().ok(), "{input:?}");
    }
}
