use headless_console::{reader_step, ReaderStep};

#[test]
fn a_line_is_sent_without_the_white_space_at_its_ends() {
    assert_eq!(reader_step(Some(12), "  log hi 3\r\n"), ReaderStep::Send("log hi 3".to_string()));
    assert_eq!(reader_step(Some(5), "help\n"), ReaderStep::Send("help".to_string()));
    assert_eq!(reader_step(Some(4), "exit"), ReaderStep::Send("exit".to_string()));
    assert_eq!(reader_step(Some(9), "\t a  b \u{a0}\n"), ReaderStep::Send("a  b".to_string()));
}

#[test]
fn a_blank_line_is_sent_as_an_empty_one() {
    assert_eq!(reader_step(Some(1), "\n"), ReaderStep::Send(String::new()));
    assert_eq!(reader_step(Some(4), " \t\r\n"), ReaderStep::Send(String::new()));
}

#[test]
fn the_end_of_the_input_stops_the_reader() {
    assert_eq!(reader_step(Some(0), ""), ReaderStep::Stop);
    assert_eq!(reader_step(Some(0), "left over"), ReaderStep::Stop);
}

#[test]
fn a_failed_read_stops_the_reader() {
    assert_eq!(reader_step(None, ""), ReaderStep::Stop);
    assert_eq!(reader_step(None, "half a li"), ReaderStep::Stop);
}

#[test]
fn white_space_inside_a_line_stays() {
    assert_eq!(
        reader_step(Some(20), "\u{3000}say  \"a\tb\" \u{2003}\n"),
        ReaderStep::Send("say  \"a\tb\"".to_string())
    );
}

#[test]
fn a_line_without_white_space_at_its_ends_is_sent_whole() {
    assert_eq!(reader_step(Some(3), "a b"), ReaderStep::Send("a b".to_string()));
    assert_eq!(reader_step(Some(1), "x"), ReaderStep::Send("x".to_string()));
}
