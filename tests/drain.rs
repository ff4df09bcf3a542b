use editor_gui::{entry_for, exit_code_text, tagged_line, trim_line_end, Drain, OutputEvent, Source};

fn texts(d: &mut Drain, evs: Vec<OutputEvent>) -> Vec<(Source, String)> {
    let mut out = Vec::new();
    for ev in evs.iter() {
        if let Some(e) = d.feed(ev) {
            out.push((e.source, e.text));
        }
    }
    out
}

#[test]
fn stdout_and_stderr_lines_are_tagged() {
    let mut d = Drain::new();
    let got = texts(
        &mut d,
        vec![
            OutputEvent::Stdout(b"hello\n".to_vec()),
            OutputEvent::Stderr(b"warn\n".to_vec()),
        ],
    );
    assert_eq!(
        got,
        vec![
            (Source::Stdout, String::from("[child stdout] hello")),
            (Source::Stderr, String::from("[child stderr] warn")),
        ]
    );
    assert!(!d.is_finished());
}

#[test]
fn exit_code_zero_is_logged() {
    let mut d = Drain::new();
    let got = texts(&mut d, vec![OutputEvent::Terminated(Some(0))]);
    assert_eq!(
        got,
        vec![(Source::Child, String::from("[child] terminated with code: 0"))]
    );
    assert!(d.is_finished());
}

#[test]
fn unknown_exit_code_is_logged() {
    let e = entry_for(&OutputEvent::Terminated(None)).unwrap();
    assert_eq!(e.source, Source::Child);
    assert_eq!(e.text, "[child] terminated with code: unknown");
}

#[test]
fn negative_exit_code_is_logged() {
    let e = entry_for(&OutputEvent::Terminated(Some(-9))).unwrap();
    assert_eq!(e.text, "[child] terminated with code: -9");
}

#[test]
fn other_events_are_not_logged() {
    assert!(entry_for(&OutputEvent::Other).is_none());
    let mut d = Drain::new();
    assert!(d.feed(&OutputEvent::Other).is_none());
    assert!(!d.is_finished());
}

#[test]
fn nothing_is_logged_after_termination() {
    let mut d = Drain::new();
    let got = texts(
        &mut d,
        vec![
            OutputEvent::Stdout(b"a\n".to_vec()),
            OutputEvent::Terminated(Some(1)),
            OutputEvent::Stdout(b"late\n".to_vec()),
            OutputEvent::Stderr(b"late\n".to_vec()),
        ],
    );
    assert_eq!(
        got,
        vec![
            (Source::Stdout, String::from("[child stdout] a")),
            (Source::Child, String::from("[child] terminated with code: 1")),
        ]
    );
    assert!(d.is_finished());
}

#[test]
fn each_stream_keeps_its_order() {
    let mut d = Drain::new();
    let got = texts(
        &mut d,
        vec![
            OutputEvent::Stdout(b"one\n".to_vec()),
            OutputEvent::Stderr(b"x\n".to_vec()),
            OutputEvent::Other,
            OutputEvent::Stdout(b"two\n".to_vec()),
            OutputEvent::Stderr(b"y\n".to_vec()),
            OutputEvent::Stdout(b"three".to_vec()),
        ],
    );
    let out: Vec<String> = got.iter().filter(|e| e.0 == Source::Stdout).map(|e| e.1.clone()).collect();
    let err: Vec<String> = got.iter().filter(|e| e.0 == Source::Stderr).map(|e| e.1.clone()).collect();
    assert_eq!(out, vec!["[child stdout] one", "[child stdout] two", "[child stdout] three"]);
    assert_eq!(err, vec!["[child stderr] x", "[child stderr] y"]);
}

#[test]
fn malformed_bytes_are_replaced() {
    let e = entry_for(&OutputEvent::Stderr(vec![b'o', 0xff, b'k', b'\n'])).unwrap();
    assert_eq!(e.text, "[child stderr] o\u{FFFD}k");
}

#[test]
fn utf8_output_is_decoded() {
    let e = entry_for(&OutputEvent::Stdout("caf\u{e9}\n".as_bytes().to_vec())).unwrap();
    assert_eq!(e.text, "[child stdout] caf\u{e9}");
}

#[test]
fn line_terminators_are_dropped() {
    assert_eq!(trim_line_end(&b"abc\r\n".to_vec()), b"abc".to_vec());
    assert_eq!(trim_line_end(&b"abc\n".to_vec()), b"abc".to_vec());
    assert_eq!(trim_line_end(&b"abc".to_vec()), b"abc".to_vec());
    assert_eq!(trim_line_end(&b"a\n\n".to_vec()), b"a\n".to_vec());
    assert_eq!(trim_line_end(&b"\r".to_vec()), b"\r".to_vec());
    assert_eq!(trim_line_end(&Vec::new()), Vec::<u8>::new());
}

#[test]
fn empty_line_is_logged() {
    let e = entry_for(&OutputEvent::Stdout(b"\n".to_vec())).unwrap();
    assert_eq!(e.text, "[child stdout] ");
}

#[test]
fn exit_codes_in_decimal() {
    assert_eq!(exit_code_text(Some(0)), "0");
    assert_eq!(exit_code_text(Some(7)), "7");
    assert_eq!(exit_code_text(Some(10)), "10");
    assert_eq!(exit_code_text(Some(255)), "255");
    assert_eq!(exit_code_text(Some(-1)), "-1");
    assert_eq!(exit_code_text(Some(i32::MAX)), "2147483647");
    assert_eq!(exit_code_text(Some(i32::MIN)), "-2147483648");
    assert_eq!(exit_code_text(None), "unknown");
}

#[test]
fn tags_by_source() {
    assert_eq!(tagged_line(Source::Stdout, "x"), "[child stdout] x");
    assert_eq!(tagged_line(Source::Stderr, "x"), "[child stderr] x");
    assert_eq!(tagged_line(Source::Child, "x"), "[child] x");
}
