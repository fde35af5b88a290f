//! The wire framer: reassembly, CR/LF handling, and the two framing
//! failures.

use networkingirc::command::CommandParseError;
use networkingirc::framer::Framer;

#[test]
fn reassembles_lines_across_reads() {
    let mut framer = Framer::new();
    let step = framer.feed(b"USER a b c d\r\nPONG");
    assert_eq!(step.lines, vec!["USER a b c d".to_string()]);
    assert!(step.error.is_none());
    let step = framer.feed(b" x\ntail");
    assert_eq!(step.lines, vec!["PONG x".to_string()]);
    assert!(step.error.is_none());
    let step = framer.feed(b"\n");
    assert_eq!(step.lines, vec!["tail".to_string()]);
    assert!(step.error.is_none());
}

#[test]
fn strips_one_carriage_return_before_the_terminator() {
    let mut framer = Framer::new();
    let step = framer.feed(b"abc\r\nplain\n\n");
    assert_eq!(
        step.lines,
        vec!["abc".to_string(), "plain".to_string(), String::new()]
    );
    assert!(step.error.is_none());
}

#[test]
fn overlong_unterminated_input_is_a_framing_error() {
    let mut framer = Framer::new();
    let step = framer.feed(&[b'a'; 513]);
    assert!(step.lines.is_empty());
    assert!(matches!(step.error, Some(CommandParseError::LineTooLong)));
}

#[test]
fn a_line_of_exactly_the_limit_is_accepted() {
    let mut framer = Framer::new();
    let mut data = vec![b'a'; 512];
    data.push(b'\n');
    let step = framer.feed(&data);
    assert_eq!(step.lines.len(), 1);
    assert_eq!(step.lines[0].len(), 512);
    assert!(step.error.is_none());
}

#[test]
fn overlong_completed_line_is_a_framing_error() {
    let mut framer = Framer::new();
    let mut data = vec![b'a'; 513];
    data.push(b'\n');
    let step = framer.feed(&data);
    assert!(step.lines.is_empty());
    assert!(matches!(step.error, Some(CommandParseError::LineTooLong)));
}

#[test]
fn invalid_text_is_an_encoding_error_after_earlier_lines() {
    let mut framer = Framer::new();
    let step = framer.feed(b"good line\n\xff\xfe\nnever seen\n");
    // The line framed before the offence still arrives.
    assert_eq!(step.lines, vec!["good line".to_string()]);
    assert!(matches!(step.error, Some(CommandParseError::EncodingError)));
}

#[test]
fn non_ascii_utf8_is_valid_text() {
    let mut framer = Framer::new();
    let step = framer.feed("gr\u{00fc}ezi\n".as_bytes());
    assert_eq!(step.lines, vec!["gr\u{00fc}ezi".to_string()]);
    assert!(step.error.is_none());
}
