use uefi_serial_chat::utf8_stream::drain_complete_utf8;

fn drain(pieces: &[&[u8]]) -> (String, Vec<u8>) {
    let mut buf = Vec::new();
    let mut out = String::new();
    for piece in pieces {
        buf.extend_from_slice(piece);
        drain_complete_utf8(&mut buf, &mut out);
    }
    (out, buf)
}

#[test]
fn whole_text_is_drained() {
    assert_eq!(drain(&["h\u{e9}llo \u{1f600}".as_bytes()]), (String::from("h\u{e9}llo \u{1f600}"), vec![]));
    assert_eq!(drain(&[b""]), (String::new(), vec![]));
}

#[test]
fn partial_character_waits() {
    let bytes = "a\u{1f600}".as_bytes();
    assert_eq!(drain(&[&bytes[..1]]), (String::from("a"), vec![]));
    for n in 2..5 {
        assert_eq!(drain(&[&bytes[..n]]), (String::from("a"), bytes[1..n].to_vec()));
    }
    assert_eq!(drain(&[&bytes[..3], &bytes[3..]]), (String::from("a\u{1f600}"), vec![]));
}

#[test]
fn cuts_do_not_matter() {
    let text = "x\u{e9}y\u{20ac}z\u{1f600}\r\n";
    let bytes = text.as_bytes();
    for i in 0..=bytes.len() {
        for j in i..=bytes.len() {
            assert_eq!(
                drain(&[&bytes[..i], &bytes[i..j], &bytes[j..]]),
                (String::from(text), vec![])
            );
        }
    }
}

#[test]
fn invalid_bytes_stay() {
    assert_eq!(drain(&[b"ab\xffcd"]), (String::from("ab"), b"\xffcd".to_vec()));
    assert_eq!(drain(&[b"\xff", b"cd"]), (String::new(), b"\xffcd".to_vec()));
    // A surrogate and an overlong encoding.
    assert_eq!(drain(&[b"a\xed\xa0\x80"]), (String::from("a"), b"\xed\xa0\x80".to_vec()));
    assert_eq!(drain(&[b"a\xc0\x80"]), (String::from("a"), b"\xc0\x80".to_vec()));
}

#[test]
fn no_byte_is_lost() {
    for bytes in [&b"a\xe2\x82"[..], b"\xe2\x82\xac\xe2", b"\x80a", b"ok"] {
        let (text, rest) = drain(&[bytes]);
        let mut all = text.into_bytes();
        all.extend_from_slice(&rest);
        assert_eq!(all, bytes);
    }
}

#[test]
fn drained_text_goes_to_the_end() {
    let mut out = String::from("before ");
    let mut buf = b"after\xf0".to_vec();
    drain_complete_utf8(&mut buf, &mut out);
    assert_eq!(out, "before after");
    assert_eq!(buf, b"\xf0");
}
