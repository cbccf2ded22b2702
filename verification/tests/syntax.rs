use fig::syntax::{find_long_number, is_parseable, leading_command, Command, Word, MAX_NUMBER_DIGITS};

fn word(letter: char, value: f32) -> Word {
    Word { letter, value: Some(value.to_bits()) }
}

#[test]
fn leading_command_reads_number_and_words() {
    let command = leading_command("G1 X10.5 Y-2 F1500").unwrap();
    assert_eq!(
        command,
        Command {
            major: 1,
            minor: None,
            words: vec![word('X', 10.5), word('Y', -2.0), word('F', 1500.0)],
        }
    );
}

#[test]
fn leading_command_reads_a_line_with_its_newline() {
    let command = leading_command("G1 X1 Y2 Z3\n").unwrap();
    assert_eq!(command.major, 1);
    assert_eq!(command.words, vec![word('X', 1.0), word('Y', 2.0), word('Z', 3.0)]);
    let command = leading_command("G1 X1\r\n").unwrap();
    assert_eq!(command.words, vec![word('X', 1.0)]);
}

#[test]
fn leading_command_reads_minor_number() {
    let command = leading_command("G91.1").unwrap();
    assert_eq!(command.major, 91);
    assert_eq!(command.minor, Some(1));
    assert_eq!(command.words, vec![]);
    let command = leading_command("G1.0 X2").unwrap();
    assert_eq!(command.major, 1);
    assert_eq!(command.minor, None);
}

#[test]
fn leading_command_keeps_letter_case_and_sign() {
    let command = leading_command("g01 x+1.25 y-0.5").unwrap();
    assert_eq!(command.major, 1);
    assert_eq!(command.words, vec![word('x', 1.25), word('y', -0.5)]);
}

#[test]
fn leading_command_is_the_first_of_several() {
    let command = leading_command("G90 G1 X5").unwrap();
    assert_eq!(command, Command { major: 90, minor: None, words: vec![] });
    let command = leading_command("G1 X5 G0 Y7").unwrap();
    assert_eq!(command, Command { major: 1, minor: None, words: vec![word('X', 5.0)] });
}

#[test]
fn leading_command_skips_line_number_and_comment() {
    let command = leading_command("N10 (move) G1 X5 ; go").unwrap();
    assert_eq!(command, Command { major: 1, minor: None, words: vec![word('X', 5.0)] });
}

#[test]
fn leading_command_of_first_block_only() {
    assert_eq!(leading_command("; header\nG1 X5\n"), None);
    let command = leading_command("\n\nG0 X1\nG1 X2\n").unwrap();
    assert_eq!(command, Command { major: 0, minor: None, words: vec![word('X', 1.0)] });
}

#[test]
fn no_leading_command_in_blank_or_comment() {
    assert_eq!(leading_command(""), None);
    assert_eq!(leading_command("\n"), None);
    assert_eq!(leading_command("   \t"), None);
    assert_eq!(leading_command("; just a comment"), None);
    assert_eq!(leading_command("(just a comment)"), None);
}

#[test]
fn no_leading_command_for_other_families() {
    assert_eq!(leading_command("M3 S1000"), None);
    assert_eq!(leading_command("T1"), None);
    assert_eq!(leading_command("M104 S200 G1 X1"), None);
}

#[test]
fn no_leading_command_in_bare_words() {
    assert_eq!(leading_command("X5 Y3"), None);
}

#[test]
fn no_leading_command_where_parser_reports_diagnostics() {
    assert_eq!(leading_command("G1 Xabc"), None);
    assert_eq!(leading_command("G1 X"), None);
    assert_eq!(leading_command("G1 X1 $"), None);
    assert_eq!(leading_command("G"), None);
    assert_eq!(leading_command("G X1"), None);
    assert_eq!(leading_command("12 G1 X1"), None);
}

#[test]
fn long_command_number_is_not_parsed() {
    assert_eq!(leading_command("G4294967295 X1"), None);
    assert_eq!(leading_command("G429496730.6 X1"), None);
    assert_eq!(leading_command("G 123456789"), None);
    assert_eq!(leading_command("G1 X1 T\t000000001"), None);
    assert_eq!(leading_command("m999999999999999999999"), None);
}

#[test]
fn eight_digit_command_number_is_parsed() {
    let command = leading_command("G12345678 X1").unwrap();
    assert_eq!(command.major, 12345678);
    let command = leading_command("G00000001 X1").unwrap();
    assert_eq!(command.major, 1);
}

#[test]
fn long_coordinate_is_parsed() {
    let command = leading_command("G1 X0.123456789012 Y1234567890").unwrap();
    assert_eq!(command.words, vec![word('X', 0.123456789012), word('Y', 1234567890.0)]);
}

#[test]
fn overflowing_coordinate_is_an_infinity() {
    let line = format!("G1 X{}", "9".repeat(60));
    let command = leading_command(&line).unwrap();
    assert_eq!(command.words, vec![word('X', f32::INFINITY)]);
}

#[test]
fn find_long_number_needs_a_command_letter() {
    assert_eq!(MAX_NUMBER_DIGITS, 8);
    assert!(find_long_number(b"G123456789"));
    assert!(find_long_number(b"g123456789"));
    assert!(find_long_number(b"M123456789"));
    assert!(find_long_number(b"m123456789"));
    assert!(find_long_number(b"T123456789"));
    assert!(find_long_number(b"t123456789"));
    assert!(find_long_number(b"G \t\r 123456789"));
    assert!(find_long_number(b"X1 G1234567890123"));
    assert!(find_long_number(b"GG123456789"));
    assert!(find_long_number(b"G12 G123456789"));
    assert!(!find_long_number(b""));
    assert!(!find_long_number(b"G"));
    assert!(!find_long_number(b"G12345678"));
    assert!(!find_long_number(b"G12345678 9"));
    assert!(!find_long_number(b"G1234.56789"));
    assert!(!find_long_number(b"X123456789"));
    assert!(!find_long_number(b"123456789"));
    assert!(!find_long_number(b"G.123456789"));
    assert!(!find_long_number(b"G-123456789"));
    assert!(!find_long_number(b"G1 123456789"));
    assert!(!find_long_number(b"G\n123456789"));
}

#[test]
fn is_parseable_follows_find_long_number() {
    assert!(is_parseable(""));
    assert!(is_parseable("G1 X1 Y2"));
    assert!(is_parseable("G1 X123456789.123456789"));
    assert!(!is_parseable("G123456789"));
    assert!(!is_parseable("N1 T 1234567890"));
}
