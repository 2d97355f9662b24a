use clireader::shell::{parse_command, Command};
use clireader::text::{chars_of, digit_value, is_whitespace, parse_number, trim_bounds};
use clireader::{Outcome, Reader, SessionCursor};

fn open(reader: &mut Reader, path: &str, pages: usize) -> SessionCursor {
    reader.open_book(path, pages).expect("the document has pages")
}

fn remembered(reader: &Reader, path: &str) -> Option<(usize, usize)> {
    reader.get(path).map(|record| (record.current_page, record.total_pages))
}

#[test]
fn each_command_letter_is_read() {
    assert_eq!(parse_command("n"), Command::Next);
    assert_eq!(parse_command("p"), Command::Prev);
    assert_eq!(parse_command("b"), Command::Bookmark);
    assert_eq!(parse_command("g"), Command::Goto);
    assert_eq!(parse_command("t"), Command::Toc);
    assert_eq!(parse_command("i"), Command::Info);
    assert_eq!(parse_command("q"), Command::Quit);
}

#[test]
fn only_the_seven_letters_stand_for_commands() {
    let mut known = 0;
    for code in 0..=0x10FFFFu32 {
        if let Some(letter) = char::from_u32(code) {
            let expected = match letter {
                'n' => Command::Next,
                'p' => Command::Prev,
                'b' => Command::Bookmark,
                'g' => Command::Goto,
                't' => Command::Toc,
                'i' => Command::Info,
                'q' => Command::Quit,
                _ => Command::Unknown,
            };
            assert_eq!(Command::from_letter(letter), expected);
            if expected != Command::Unknown {
                known += 1;
            }
        }
    }
    assert_eq!(known, 7);
}

#[test]
fn white_space_around_a_command_is_ignored() {
    assert_eq!(parse_command("n\n"), Command::Next);
    assert_eq!(parse_command("q\r\n"), Command::Quit);
    assert_eq!(parse_command("  \t g \t "), Command::Goto);
    assert_eq!(parse_command("\u{3000}p\u{2003}\u{a0}"), Command::Prev);
    assert_eq!(parse_command("\u{85}b\u{1680}\u{2028}\u{2029}\u{202f}\u{205f}"), Command::Bookmark);
}

#[test]
fn anything_else_is_no_command() {
    for line in [
        "", "\n", "   ", "x", "N", "Q", "nn", "n p", "next", "quit", "1", "n.", "\u{200b}n", "ñ",
        "\u{180e}n", "-n", "g 3",
    ] {
        assert_eq!(parse_command(line), Command::Unknown, "line {:?}", line);
    }
}

#[test]
fn commands_are_read_from_the_line_as_trimmed() {
    let letters = ["n", "p", "b", "g", "t", "i", "q", "x", "", "nq"];
    let pads = ["", " ", "\n", "\t\r\n", "\u{2000}\u{200a}", "\u{b}\u{c}"];
    for letter in letters {
        let plain = parse_command(letter);
        for before in pads {
            for after in pads {
                let line = format!("{}{}{}", before, letter, after);
                assert_eq!(line.trim(), letter);
                assert_eq!(parse_command(&line), plain, "line {:?}", line);
            }
        }
    }
}

#[test]
fn white_space_is_what_unicode_calls_white_space() {
    let mut count = 0;
    for code in 0..=0x10FFFFu32 {
        if let Some(c) = char::from_u32(code) {
            assert_eq!(is_whitespace(c), c.is_whitespace(), "U+{:04X}", code);
            if is_whitespace(c) {
                count += 1;
            }
        }
    }
    assert_eq!(count, 25);
}

#[test]
fn a_string_is_taken_apart_into_its_characters() {
    assert_eq!(chars_of(""), Vec::<char>::new());
    assert_eq!(chars_of("a b"), vec!['a', ' ', 'b']);
    assert_eq!(chars_of("页 1"), vec!['页', ' ', '1']);
}

#[test]
fn trimming_finds_the_text_between_the_white_space() {
    let bounds = |text: &str| {
        let chars = chars_of(text);
        let (lo, hi) = trim_bounds(&chars);
        chars[lo..hi].iter().collect::<String>()
    };
    assert_eq!(bounds("  12 \n"), "12");
    assert_eq!(bounds("a  b"), "a  b");
    assert_eq!(bounds("\t\u{3000}页 码\u{a0}"), "页 码");
    assert_eq!(bounds(""), "");
    assert_eq!(bounds(" \n\t "), "");
    assert_eq!(bounds("x"), "x");
    for text in ["", " ", "a", " a", "a ", " a b ", "\n\n", "\u{2009}+5\u{2009}", "  \u{200b} "] {
        assert_eq!(bounds(text), text.trim(), "text {:?}", text);
    }
}

#[test]
fn decimal_digits_have_their_values() {
    for (value, digit) in "0123456789".chars().enumerate() {
        assert_eq!(digit_value(digit), Some(value));
    }
    for other in ['/', ':', 'a', ' ', '+', '-', '٣', '３', '\u{0}'] {
        assert_eq!(digit_value(other), None);
    }
    for code in 0..=0x10FFFFu32 {
        if let Some(c) = char::from_u32(code) {
            assert_eq!(digit_value(c), c.to_digit(10).filter(|_| c.is_ascii()).map(|d| d as usize));
        }
    }
}

#[test]
fn page_numbers_are_read() {
    assert_eq!(parse_number("3"), Some(3));
    assert_eq!(parse_number("3\n"), Some(3));
    assert_eq!(parse_number("  12 \r\n"), Some(12));
    assert_eq!(parse_number("+7"), Some(7));
    assert_eq!(parse_number("0"), Some(0));
    assert_eq!(parse_number("007"), Some(7));
    assert_eq!(parse_number("+000"), Some(0));
    assert_eq!(parse_number("1234567890"), Some(1234567890));
    assert_eq!(parse_number(&usize::MAX.to_string()), Some(usize::MAX));
    assert_eq!(parse_number(&format!(" +000{}\n", usize::MAX)), Some(usize::MAX));
}

#[test]
fn what_is_no_page_number_is_not_read() {
    for entry in [
        "", " ", "\n", "+", "-", "-1", "-0", "++1", "+-1", "1+", "1 2", "3.5", "3,5", "abc", "12a",
        "a12", "0x10", "1e3", "１２", "٣", "+ 1", "1_000", "\u{200b}1",
    ] {
        assert_eq!(parse_number(entry), None, "entry {:?}", entry);
    }
}

#[test]
fn a_page_number_too_large_for_the_machine_is_not_read() {
    let max = usize::MAX.to_string();
    let mut digits: Vec<u8> = max.clone().into_bytes();
    // One more than the largest number: the last digit of the largest is never 9.
    let last = digits.len() - 1;
    digits[last] += 1;
    let above = String::from_utf8(digits).unwrap();
    assert_eq!(parse_number(&above), None);
    assert_eq!(parse_number(&format!("{}0", max)), None);
    assert_eq!(parse_number("99999999999999999999999999999999999999999999"), None);
    assert_eq!(parse_number(&format!("1{}", "0".repeat(300))), None);
}

#[test]
fn page_numbers_are_read_as_the_trimmed_entry_parses() {
    let max = usize::MAX.to_string();
    let entries = [
        "1", " 1", "1 ", "+1", " +1 ", "-1", "", "+", "0", "00", "10", "42\n", "4 2", "４２",
        "18446744073709551615", "18446744073709551616", "4294967295", "4294967296", "x", "1x",
        "+0", "+00", "\t9\t", "9999999999999999999", "99999999999999999999", max.as_str(),
    ];
    for entry in entries {
        assert_eq!(parse_number(entry), entry.trim().parse::<usize>().ok(), "entry {:?}", entry);
    }
}

#[test]
fn execute_carries_out_navigation() {
    let mut reader = Reader::new(None);
    let mut cursor = open(&mut reader, "/books/a.epub", 3);
    assert_eq!(cursor.execute(&mut reader, Command::Prev, ""), Outcome::AtLowerBound);
    assert!(reader.get("/books/a.epub").is_none());
    assert_eq!(cursor.execute(&mut reader, Command::Next, ""), Outcome::Moved);
    assert_eq!(cursor.current_page(), 1);
    assert_eq!(remembered(&reader, "/books/a.epub"), Some((1, 3)));
    assert_eq!(cursor.execute(&mut reader, Command::Next, "ignored"), Outcome::Moved);
    assert_eq!(cursor.execute(&mut reader, Command::Next, ""), Outcome::AtUpperBound);
    assert_eq!(cursor.current_page(), 2);
    assert_eq!(cursor.execute(&mut reader, Command::Prev, ""), Outcome::Moved);
    assert_eq!(cursor.current_page(), 1);
    assert_eq!(remembered(&reader, "/books/a.epub"), Some((1, 3)));
}

#[test]
fn execute_reads_the_page_entry_for_goto_only() {
    let mut reader = Reader::new(None);
    let mut cursor = open(&mut reader, "/books/a.epub", 5);
    assert_eq!(cursor.execute(&mut reader, Command::Goto, " 4\n"), Outcome::Moved);
    assert_eq!(cursor.current_page(), 3);
    assert_eq!(remembered(&reader, "/books/a.epub"), Some((3, 5)));
    assert_eq!(cursor.execute(&mut reader, Command::Goto, "+5"), Outcome::Moved);
    assert_eq!(cursor.current_page(), 4);
    for entry in ["0", "6", "100"] {
        assert_eq!(cursor.execute(&mut reader, Command::Goto, entry), Outcome::OutOfRange);
        assert_eq!(cursor.current_page(), 4);
    }
    for entry in ["", "four", "-1", "2.0", "99999999999999999999999999"] {
        assert_eq!(cursor.execute(&mut reader, Command::Goto, entry), Outcome::InvalidInput);
        assert_eq!(cursor.current_page(), 4);
    }
    assert_eq!(remembered(&reader, "/books/a.epub"), Some((4, 5)));
    assert_eq!(cursor.execute(&mut reader, Command::Next, "1"), Outcome::AtUpperBound);
    assert_eq!(cursor.execute(&mut reader, Command::Bookmark, "1"), Outcome::Bookmarked);
    assert_eq!(cursor.current_page(), 4);
}

#[test]
fn execute_bookmarks_and_quits_by_writing_the_position() {
    let mut reader = Reader::new(None);
    let mut cursor = open(&mut reader, "/books/a.epub", 5);
    assert!(reader.get("/books/a.epub").is_none());
    assert_eq!(cursor.execute(&mut reader, Command::Bookmark, ""), Outcome::Bookmarked);
    assert_eq!(cursor.current_page(), 0);
    assert_eq!(remembered(&reader, "/books/a.epub"), Some((0, 5)));
    reader.update_progress("/books/a.epub", 4, 5);
    assert_eq!(cursor.execute(&mut reader, Command::Quit, ""), Outcome::Closed);
    assert_eq!(cursor.current_page(), 0);
    assert_eq!(remembered(&reader, "/books/a.epub"), Some((0, 5)));
}

#[test]
fn execute_leaves_everything_alone_for_queries_and_unknown_input() {
    let mut reader = Reader::new(None);
    let mut cursor = open(&mut reader, "/books/a.epub", 5);
    cursor.goto(&mut reader, 2);
    reader.update_progress("/books/a.epub", 4, 5);
    assert_eq!(cursor.execute(&mut reader, Command::Toc, ""), Outcome::ShowToc);
    assert_eq!(cursor.execute(&mut reader, Command::Info, ""), Outcome::ShowInfo);
    assert_eq!(cursor.execute(&mut reader, Command::Unknown, "3"), Outcome::InvalidInput);
    assert_eq!(cursor.current_page(), 1);
    assert_eq!(remembered(&reader, "/books/a.epub"), Some((4, 5)));
    assert_eq!(reader.continue_reading().map(String::as_str), Some("/books/a.epub"));
}

#[test]
fn a_session_driven_by_lines_of_input() {
    let mut reader = Reader::new(None);
    let mut cursor = open(&mut reader, "/books/a.epub", 4);
    let script = [
        ("n\n", "", Outcome::Moved, 1),
        ("n\n", "", Outcome::Moved, 2),
        ("hello\n", "", Outcome::InvalidInput, 2),
        ("g\n", "9\n", Outcome::OutOfRange, 2),
        ("g\n", "nine\n", Outcome::InvalidInput, 2),
        ("g\n", "4\n", Outcome::Moved, 3),
        ("n\n", "", Outcome::AtUpperBound, 3),
        ("t\n", "", Outcome::ShowToc, 3),
        (" p \n", "", Outcome::Moved, 2),
        ("b\n", "", Outcome::Bookmarked, 2),
        ("q\n", "", Outcome::Closed, 2),
    ];
    for (line, entry, outcome, page) in script {
        assert_eq!(cursor.execute(&mut reader, parse_command(line), entry), outcome);
        assert_eq!(cursor.current_page(), page);
    }
    assert_eq!(remembered(&reader, "/books/a.epub"), Some((2, 4)));
}
