use ropeview::buffer::{Buffer, LoadError};
use ropeview::editor::{EditorState, Window};
use ropeview::input::{dispatch, is_quit_event, run, InputEvent, KeyCode, KeyKind, SessionState, NO_MODIFIERS};
use ropeview::render::{render, Rect};

const SHIFT: u8 = 1;

fn key(c: char, modifiers: u8) -> InputEvent {
    InputEvent::Key { code: KeyCode::Char(c), modifiers, kind: KeyKind::Press }
}

fn area() -> Rect {
    Rect { x: 0, y: 0, width: 20, height: 6 }
}

fn open_str(path: &str, text: &str) -> Result<Buffer, LoadError> {
    Buffer::open(path, Ok(text.as_bytes().to_vec()))
}

#[test]
fn scenario_two_lines_with_trailing_terminator() {
    let b = open_str("notes/hello.txt", "hello\nworld\n").unwrap();
    assert_eq!(b.lines(), vec!["hello".to_string(), "world".to_string()]);
    assert_eq!(b.line_count(), 2);
    assert_eq!(b.title(), "notes/hello.txt");
    let f = render(&Window::new(0), &b, area());
    assert_eq!(f.title, "notes/hello.txt");
    assert_eq!(f.lines.len(), 2);
    assert_eq!(f.lines[0].spans.len(), 1);
    assert_eq!(f.lines[0].spans[0].content, "hello");
    assert_eq!(f.lines[1].spans[0].content, "world");
}

#[test]
fn scenario_one_line_without_terminator() {
    let b = open_str("abc.txt", "abc").unwrap();
    assert_eq!(b.lines(), vec!["abc".to_string()]);
    assert_eq!(b.line_count(), 1);
}

#[test]
fn scenario_missing_file() {
    let r = Buffer::open("missing.txt", Err(LoadError::NotFound));
    assert!(matches!(r, Err(LoadError::NotFound)));
    let mut s = EditorState::new();
    assert_eq!(s.load("missing.txt", Err(LoadError::NotFound)), Err(LoadError::NotFound));
    assert!(s.buffers.is_empty());
    assert!(s.windows.is_empty());
    assert!(s.render_window(0, area()).is_none());
}

#[test]
fn scenario_shifted_q_keeps_running() {
    assert_eq!(dispatch(SessionState::Running, &key('Q', SHIFT)), SessionState::Running);
}

#[test]
fn scenario_q_terminates() {
    assert_eq!(dispatch(SessionState::Running, &key('q', NO_MODIFIERS)), SessionState::Terminated);
}

#[test]
fn other_events_keep_running() {
    let events = [
        key('q', SHIFT),
        key('x', NO_MODIFIERS),
        InputEvent::Key { code: KeyCode::Char('q'), modifiers: NO_MODIFIERS, kind: KeyKind::Release },
        InputEvent::Key { code: KeyCode::Other, modifiers: NO_MODIFIERS, kind: KeyKind::Press },
        InputEvent::Resize { width: 80, height: 24 },
        InputEvent::Other,
    ];
    for e in events.iter() {
        assert!(!is_quit_event(e));
        assert_eq!(dispatch(SessionState::Running, e), SessionState::Running);
    }
}

#[test]
fn terminated_stays_terminated() {
    assert_eq!(dispatch(SessionState::Terminated, &key('x', NO_MODIFIERS)), SessionState::Terminated);
    assert_eq!(dispatch(SessionState::Terminated, &key('q', NO_MODIFIERS)), SessionState::Terminated);
}

#[test]
fn run_stops_at_first_quit() {
    let events = vec![key('a', NO_MODIFIERS), key('q', NO_MODIFIERS), key('b', NO_MODIFIERS), key('q', NO_MODIFIERS)];
    assert_eq!(run(&events), (SessionState::Terminated, 2));
    let none = vec![key('a', NO_MODIFIERS), InputEvent::Other];
    assert_eq!(run(&none), (SessionState::Running, 2));
    assert_eq!(run(&Vec::new()), (SessionState::Running, 0));
}

#[test]
fn line_count_follows_terminators() {
    let cases: [(&str, Vec<&str>); 6] = [
        ("", vec![]),
        ("\n", vec![""]),
        ("a\n\nb", vec!["a", "", "b"]),
        ("a\n\n", vec!["a", ""]),
        ("\nx", vec!["", "x"]),
        ("one\r\ntwo", vec!["one\r", "two"]),
    ];
    for (text, expected) in cases.iter() {
        let b = Buffer::from_text(text, None);
        let lines = b.lines();
        assert_eq!(lines, *expected, "text {:?}", text);
        assert_eq!(b.line_count(), expected.len());
        assert_eq!(b.len_chars(), text.chars().count());
    }
}

#[test]
fn lines_rejoin_to_the_text() {
    for text in ["hello\nworld\n", "abc", "", "\n\n", "x\ny", "é\n☃ snow\n"].iter() {
        let b = Buffer::from_text(text, None);
        let lines = b.lines();
        let mut joined = lines.join("\n");
        if text.ends_with('\n') {
            joined.push('\n');
        }
        assert_eq!(&joined, text);
    }
}

#[test]
fn lines_are_read_again_on_each_call() {
    let b = Buffer::from_text("a\nb", None);
    assert_eq!(b.lines(), b.lines());
}

#[test]
fn scratch_buffer_title() {
    let b = Buffer::scratch();
    assert_eq!(b.title(), "<scratch>");
    assert_eq!(b.line_count(), 0);
    let f = render(&Window::new(0), &b, area());
    assert_eq!(f.title, "<scratch>");
    assert!(f.lines.is_empty());
    let unnamed = Buffer::from_text("x", None);
    assert_eq!(render(&Window::new(0), &unnamed, area()).title, "<scratch>");
}

#[test]
fn invalid_utf8_is_rejected() {
    let r = Buffer::open("bad.bin", Ok(vec![b'a', 0xff, b'b']));
    assert!(matches!(r, Err(LoadError::InvalidEncoding)));
    let r = Buffer::open("cut.txt", Ok(vec![0xe2, 0x98]));
    assert!(matches!(r, Err(LoadError::InvalidEncoding)));
}

#[test]
fn read_errors_pass_through() {
    assert!(matches!(Buffer::open("p", Err(LoadError::PermissionDenied)), Err(LoadError::PermissionDenied)));
    assert!(matches!(Buffer::open("p", Err(LoadError::Other)), Err(LoadError::Other)));
}

#[test]
fn multibyte_text_loads() {
    let b = open_str("u.txt", "é\n☃ snow").unwrap();
    assert_eq!(b.lines(), vec!["é".to_string(), "☃ snow".to_string()]);
    assert_eq!(b.len_chars(), 8);
}

#[test]
fn large_text_keeps_every_line() {
    let mut text = String::new();
    for i in 0..3000 {
        text.push_str(&format!("line {}\n", i));
    }
    let b = open_str("big.txt", &text).unwrap();
    let lines = b.lines();
    assert_eq!(lines.len(), 3000);
    assert_eq!(lines[0], "line 0");
    assert_eq!(lines[2999], "line 2999");
}

#[test]
fn inner_area_leaves_the_border() {
    let f = render(&Window::new(0), &Buffer::scratch(), Rect { x: 2, y: 3, width: 10, height: 5 });
    assert_eq!(f.area, Rect { x: 2, y: 3, width: 10, height: 5 });
    assert_eq!(f.inner, Rect { x: 3, y: 4, width: 8, height: 3 });
}

#[test]
fn inner_area_of_tiny_and_edge_rects() {
    let f = render(&Window::new(0), &Buffer::scratch(), Rect { x: 0, y: 0, width: 1, height: 0 });
    assert_eq!(f.inner, Rect { x: 1, y: 0, width: 0, height: 0 });
    let f = render(&Window::new(0), &Buffer::scratch(), Rect { x: u16::MAX, y: 7, width: 4, height: 2 });
    assert_eq!(f.inner, Rect { x: u16::MAX, y: 8, width: 2, height: 0 });
}

#[test]
fn visible_range_clamps_the_start() {
    let w = Window::new(0);
    assert_eq!(w.visible_range(5, 2, 0), (0, 5));
    assert_eq!(w.visible_range(5, 2, 3), (3, 5));
    assert_eq!(w.visible_range(5, 2, 9), (5, 5));
    assert_eq!(w.visible_range(0, 2, 0), (0, 0));
}

#[test]
fn load_registers_buffer_and_window() {
    let mut s = EditorState::new();
    let w = s.load("a.txt", Ok(b"one\ntwo\n".to_vec())).unwrap();
    assert_eq!(w, 0);
    assert_eq!(s.buffers.len(), 1);
    assert_eq!(s.windows, vec![Window { buffer: 0 }]);
    let f = s.render_window(0, area()).unwrap();
    assert_eq!(f.title, "a.txt");
    assert_eq!(f.lines[1].spans[0].content, "two");
    assert!(s.render_window(1, area()).is_none());
    assert_eq!(s.load("b.txt", Ok(vec![0xc3])), Err(LoadError::InvalidEncoding));
    assert_eq!(s.buffers.len(), 1);
    assert_eq!(s.windows.len(), 1);
}

#[test]
fn removing_a_buffer_removes_its_windows() {
    let mut s = EditorState::new();
    let a = s.add_buffer(Buffer::from_text("a", Some("a.txt".to_string())));
    let b = s.add_buffer(Buffer::scratch());
    assert_ne!(a, b);
    assert_eq!(s.open_window(a), Some(0));
    assert_eq!(s.open_window(b), Some(1));
    assert_eq!(s.open_window(a), Some(2));
    assert_eq!(s.open_window(99), None);
    let removed = s.remove_buffer(a).unwrap();
    assert_eq!(removed.title(), "a.txt");
    assert_eq!(s.windows, vec![Window { buffer: b }]);
    assert!(s.buffer(a).is_none());
    assert!(s.buffer(b).is_some());
    assert!(s.remove_buffer(a).is_none());
    let c = s.add_buffer(Buffer::scratch());
    assert!(c != a && c != b);
    assert_eq!(s.render_window(0, area()).unwrap().title, "<scratch>");
}
