use firmware::line::{LineAssembler, RxError};

fn feed(a: &mut LineAssembler, bytes: &[u8]) -> Vec<String> {
    let mut out = Vec::new();
    for b in bytes {
        if let Some(l) = a.on_byte(*b) {
            out.push(l);
        }
    }
    out
}

#[test]
fn newline_flushes_collected_text() {
    let mut a = LineAssembler::new();
    assert_eq!(a.on_byte(b'h'), None);
    assert_eq!(a.on_byte(b'i'), None);
    assert_eq!(a.on_byte(b'\n'), Some(String::from("hi")));
    assert_eq!(a.pending(), "");
}

#[test]
fn bytes_without_newline_never_flush() {
    let mut a = LineAssembler::new();
    let out = feed(&mut a, b"no line end here");
    assert!(out.is_empty());
    assert_eq!(a.pending(), "no line end here");
}

#[test]
fn two_newlines_give_one_empty_line() {
    let mut a = LineAssembler::new();
    feed(&mut a, b"x");
    assert_eq!(a.on_byte(b'\n'), Some(String::from("x")));
    assert_eq!(a.on_byte(b'\n'), Some(String::new()));
    assert_eq!(a.pending(), "");
}

#[test]
fn overrun_mid_line_flushes_with_marker() {
    let mut a = LineAssembler::new();
    feed(&mut a, b"ab");
    assert_eq!(a.on_error(RxError::Overrun), "abO");
    assert_eq!(a.pending(), "");
    assert_eq!(feed(&mut a, b"cd\n"), vec![String::from("cd")]);
}

#[test]
fn each_fault_has_its_marker() {
    let mut a = LineAssembler::new();
    assert_eq!(a.on_error(RxError::Overrun), "O");
    assert_eq!(a.on_error(RxError::Framing), "F");
    assert_eq!(a.on_error(RxError::Noise), "N");
    assert_eq!(a.on_error(RxError::Parity), "P");
    assert_eq!(RxError::Parity.marker(), b'P');
}

#[test]
fn long_line_is_clipped_at_capacity() {
    let mut a = LineAssembler::new();
    let bytes: Vec<u8> = (0..1100u32).map(|i| b'a' + (i % 26) as u8).collect();
    assert!(feed(&mut a, &bytes).is_empty());
    let line = a.on_byte(b'\n').unwrap();
    assert_eq!(line.len(), 1024);
    assert_eq!(line.as_bytes(), &bytes[..1024]);
    assert_eq!(feed(&mut a, b"ok\n"), vec![String::from("ok")]);
}

#[test]
fn line_of_exactly_capacity_is_kept_whole() {
    let mut a = LineAssembler::new();
    let bytes = vec![b'z'; 1024];
    feed(&mut a, &bytes);
    assert_eq!(a.pending().len(), 1024);
    a.on_byte(b'y');
    assert_eq!(a.on_byte(b'\n').unwrap(), "z".repeat(1024));
}

#[test]
fn high_bytes_become_two_byte_characters() {
    let mut a = LineAssembler::new();
    a.on_byte(0xE9);
    assert_eq!(a.on_byte(b'\n'), Some(String::from("\u{e9}")));
    let fill = vec![b'q'; 1023];
    feed(&mut a, &fill);
    a.on_byte(0xE9);
    a.on_byte(b'r');
    let line = a.on_byte(b'\n').unwrap();
    assert_eq!(line.len(), 1024);
    assert!(line.ends_with("qr"));
}
