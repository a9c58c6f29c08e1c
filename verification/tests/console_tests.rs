use net_helper::console::pipe::{Pipe, PipeRecv};
use net_helper::console::term::Term;
use net_helper::console::{self, ConsoleInput, Screen};
use net_helper::editor::{EditOutcome, InputState, KeyCode, KeyPress, TermEvent};
use net_helper::{output, tty};

fn key(code: KeyCode) -> TermEvent {
    TermEvent::Key(KeyPress { code, ctrl: false, release: false })
}

fn typed(st: &mut InputState, s: &str) {
    for c in s.chars() {
        assert!(matches!(st.apply(key(KeyCode::Char(c))), EditOutcome::Redraw));
    }
}

#[test]
fn editor_types_and_submits() {
    let mut st = InputState::new();
    typed(&mut st, "hello");
    assert_eq!(st.text(), "hello");
    assert_eq!(st.cursor(), 5);
    match st.apply(key(KeyCode::Enter)) {
        EditOutcome::Submit(l) => assert_eq!(l, "hello"),
        o => panic!("{:?}", o),
    }
    assert_eq!(st.text(), "");
    assert_eq!(st.cursor(), 0);
}

#[test]
fn editor_moves_and_edits() {
    let mut st = InputState::new();
    typed(&mut st, "abc");
    st.apply(key(KeyCode::Left));
    st.apply(key(KeyCode::Backspace));
    assert_eq!(st.text(), "ac");
    assert_eq!(st.cursor(), 1);
    st.apply(key(KeyCode::Home));
    st.apply(key(KeyCode::Delete));
    assert_eq!(st.text(), "c");
    assert_eq!(st.cursor(), 0);
    st.apply(key(KeyCode::Backspace));
    assert_eq!(st.text(), "c");
    st.apply(key(KeyCode::End));
    assert_eq!(st.cursor(), 1);
    st.apply(key(KeyCode::Right));
    assert_eq!(st.cursor(), 1);
    st.apply(TermEvent::Paste("xyz".to_string()));
    assert_eq!(st.text(), "cxyz");
    assert_eq!(st.cursor(), 4);
    st.apply(key(KeyCode::Delete));
    assert_eq!(st.text(), "cxyz");
}

#[test]
fn editor_interrupt_release_and_other_events() {
    let mut st = InputState::new();
    typed(&mut st, "q");
    let ctrl_c = TermEvent::Key(KeyPress { code: KeyCode::Char('c'), ctrl: true, release: false });
    assert!(matches!(st.apply(ctrl_c), EditOutcome::Quit));
    let rel = TermEvent::Key(KeyPress { code: KeyCode::Char('z'), ctrl: false, release: true });
    assert!(matches!(st.apply(rel), EditOutcome::Ignore));
    let ctrl_a = TermEvent::Key(KeyPress { code: KeyCode::Char('a'), ctrl: true, release: false });
    assert!(matches!(st.apply(ctrl_a), EditOutcome::Redraw));
    assert_eq!(st.text(), "qa");
    assert!(matches!(st.apply(TermEvent::Resize), EditOutcome::Redraw));
    assert!(matches!(st.apply(TermEvent::Other), EditOutcome::Ignore));
    assert!(matches!(st.apply(key(KeyCode::Other)), EditOutcome::Redraw));
    assert_eq!(st.text(), "qa");
}

#[test]
fn editor_cursor_counts_bytes() {
    let mut st = InputState::new();
    typed(&mut st, "é");
    assert_eq!(st.text(), "é");
    assert_eq!(st.cursor(), 1);
    // typing again would land inside the character: refused up front
    assert!(!st.allows(&key(KeyCode::Char('x'))));
    st.apply(key(KeyCode::End));
    assert_eq!(st.cursor(), 2);
    assert!(st.allows(&key(KeyCode::Char('x'))));
    // removing before the cursor starts inside the character as well
    assert!(!st.allows(&key(KeyCode::Backspace)));
    st.apply(key(KeyCode::Home));
    assert!(st.allows(&key(KeyCode::Delete)));
    st.apply(key(KeyCode::Delete));
    assert_eq!(st.text(), "");
}

#[test]
fn term_prompt_and_cursor_state() {
    let mut t = Term::new();
    t.poll(Some(key(KeyCode::Char('h'))));
    t.poll(Some(key(KeyCode::Char('i'))));
    t.poll(None);
    let (buf, pos) = t.cursor_state();
    assert_eq!(buf, "hi");
    assert_eq!(pos, 2);
    let r = t.prompt();
    assert_eq!(r.line, b"> hi".to_vec());
    assert_eq!(r.column, Some(4));
}

#[test]
fn pipe_marks_end_of_input() {
    let mut p = Pipe::new();
    p.cleanup();
    assert_eq!(p.poll(PipeRecv::Line("x".to_string())), Some("x".to_string()));
    assert_eq!(p.poll(PipeRecv::Timeout), None);
    assert!(!p.is_eof());
    assert_eq!(p.poll(PipeRecv::Disconnected), None);
    assert!(p.is_eof());
}

#[test]
fn console_pipe_kind() {
    let mut c = console::init(false);
    assert!(!console::cleanup(&c));
    assert!(!console::quit_requested(&c));
    assert!(!console::eof(&c));
    assert_eq!(console::eol(&c), b"\n".to_vec());
    assert_eq!(console::println(&c, "hi"), b"hi\n".to_vec());
    assert_eq!(console::status(&c, "Connection lost"), b"Connection lost\n".to_vec());
    assert_eq!(console::recv(&c, b"a\nb"), b"[recv 3b]\n<- a\n<- b\n".to_vec());
    assert_eq!(
        console::recv_from(&c, "1.2.3.4:53", b"x"),
        b"[recv 1.2.3.4:53 1b]\n<- x\n".to_vec()
    );
    assert_eq!(console::send(&c, b"ping\n"), b"[send 5b]\n-> ping\n".to_vec());
    let w = console::write(&c, b"abc".to_vec());
    assert_eq!(w.content, b"abc".to_vec());
    assert!(w.redisplay.is_none());
    let p = console::poll(&mut c, ConsoleInput::Line(PipeRecv::Line("l".to_string())));
    assert_eq!(p.line, Some("l".to_string()));
    let p = console::poll(&mut c, ConsoleInput::Line(PipeRecv::Disconnected));
    assert!(p.line.is_none());
    assert!(console::eof(&c));
    console::set_quit(&mut c);
    assert!(console::quit_requested(&c));
}

#[test]
fn console_terminal_kind() {
    let mut c = console::init(true);
    assert!(console::cleanup(&c));
    assert_eq!(console::eol(&c), b"\r\n".to_vec());
    assert_eq!(console::recv(&c, b"a\nb"), b"[recv 3b]\r\n<- a\r\n<- b\r\n".to_vec());
    let input = ConsoleInput::Key(Some(key(KeyCode::Char('z'))));
    assert!(console::accepts(&c, &input));
    let p = console::poll(&mut c, input);
    match p.screen {
        Screen::Redraw(r) => {
            assert_eq!(r.line, b"> z".to_vec());
            assert_eq!(r.column, Some(3));
        }
        _ => panic!("expected a redraw"),
    }
    let w = console::write(&c, b"out".to_vec());
    assert_eq!(w.redisplay.unwrap().line, b"> z".to_vec());
    let p = console::poll(&mut c, ConsoleInput::Key(Some(key(KeyCode::Enter))));
    assert_eq!(p.line, Some("z".to_string()));
    assert!(matches!(p.screen, Screen::ClearPrompt));
    let ctrl_c = TermEvent::Key(KeyPress { code: KeyCode::Char('c'), ctrl: true, release: false });
    let p = console::poll(&mut c, ConsoleInput::Key(Some(ctrl_c)));
    assert!(p.line.is_none());
    assert!(console::quit_requested(&c));
    assert!(!console::eof(&c));
    assert!(!console::accepts(&c, &ConsoleInput::Line(PipeRecv::Timeout)));
}

#[test]
fn tty_renders_with_newlines() {
    let mut t = tty::init();
    assert!(!tty::quit_requested(&t));
    assert_eq!(tty::println("x"), b"x\n".to_vec());
    assert_eq!(tty::status("s"), b"s\n".to_vec());
    assert_eq!(tty::recv(b"hi"), b"[recv 2b]\n<- hi\n".to_vec());
    assert_eq!(tty::recv_from("h:1", b"hi"), b"[recv h:1 2b]\n<- hi\n".to_vec());
    assert_eq!(tty::send(b"hi\n"), b"[send 3b]\n-> hi\n".to_vec());
    tty::poll(&mut t, Some(key(KeyCode::Char('a'))));
    assert_eq!(tty::redraw(&t).line, b"> a".to_vec());
    let w = tty::write(&t, b"o".to_vec());
    let r = w.redisplay.unwrap();
    assert_eq!(r.line, b"> a".to_vec());
    assert!(r.column.is_none());
    let ctrl_c = TermEvent::Key(KeyPress { code: KeyCode::Char('c'), ctrl: true, release: false });
    tty::poll(&mut t, Some(ctrl_c));
    assert!(tty::quit_requested(&t));
}

#[test]
fn output_ansi_messages() {
    assert_eq!(output::clr(), "\r\x1b[2K");
    assert_eq!(output::clr_up(), "\x1b[1A\r\x1b[2K");
    assert_eq!(output::status("hi"), b"\r\x1b[2Khi\n".to_vec());
    assert_eq!(output::prompt(), b"> ".to_vec());
    assert_eq!(output::send(b"a"), b"\x1b[1A\r\x1b[2K[send 1b]\n-> a\n> ".to_vec());
    assert_eq!(output::recv(b"a"), b"\r\x1b[2K[recv 1b]\n<- a\n> ".to_vec());
    assert_eq!(output::recv_from("p", b"a"), b"\r\x1b[2K[recv p 1b]\n<- a\n> ".to_vec());
}
