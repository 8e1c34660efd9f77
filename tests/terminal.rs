use star_trip::Terminal;

#[test]
fn new_terminal_is_blank() {
    let term = Terminal::new();
    assert_eq!(term.screen().len(), 1200);
    assert!(term.screen().iter().all(|&b| b == 0));
    assert_eq!(term.console().len(), 50);
}

#[test]
fn typing_and_entering_a_line() {
    let mut term = Terminal::new();
    for &c in b"scan" {
        term.input(c as u16);
    }
    term.input(1000);
    assert_eq!(&term.console()[..15], b"COMMAND => scan");
    assert_eq!(term.console()[15], 219);
    let line = term.enter();
    assert_eq!(line.len(), 39);
    assert_eq!(&line[..4], b"scan");
    assert!(line[4..].iter().all(|&b| b == 32));
    assert_eq!(term.console()[11], 219);
}

#[test]
fn history_cycles() {
    let mut term = Terminal::new();
    term.input(b'a' as u16);
    let _ = term.enter();
    term.up();
    assert_eq!(term.console()[11], 219);
    assert_eq!(term.console()[12], 32);
    term.right();
    assert_eq!(&term.console()[11..13], b"a\xdb");
    term.up();
    term.right();
    assert_eq!(&term.console()[11..13], b" \xdb");
    for _ in 0..17 {
        term.down();
    }
    term.right();
    assert_eq!(&term.console()[11..13], b"a\xdb");
}

#[test]
fn cursor_stays_on_line() {
    let mut term = Terminal::new();
    term.left();
    term.update_console();
    assert_eq!(term.console()[11], 219);
    for _ in 0..60 {
        term.right();
    }
    assert_eq!(term.console()[49], 219);
    term.left();
    assert_eq!(term.console()[48], 219);
}

#[test]
fn message_wraps_and_truncates() {
    let mut term = Terminal::new();
    let long = [b'x'; 60];
    let mut msg = Vec::new();
    msg.extend_from_slice(b"ab\n");
    msg.extend_from_slice(&long);
    msg.extend_from_slice(b"\ncd");
    term.message(&msg);
    let screen = term.screen();
    assert_eq!(&screen[..2], b"ab");
    assert!(screen[2..50].iter().all(|&b| b == 0));
    assert!(screen[50..100].iter().all(|&b| b == b'x'));
    assert_eq!(&screen[100..102], b"cd");
    assert!(screen[102..].iter().all(|&b| b == 0));
}
