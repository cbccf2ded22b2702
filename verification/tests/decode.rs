use fig::decode::{decode_command, decode_line, path_from_lines, Axis, LINEAR_MOVE};
use fig::path::{Directive, Kind, Point};
use fig::syntax::{Command, Word};

fn bits(value: f32) -> u32 {
    value.to_bits()
}

fn word(letter: char, value: f32) -> Word {
    Word { letter, value: Some(bits(value)) }
}

fn linear(x: Option<f32>, y: Option<f32>, z: Option<f32>) -> Directive {
    Directive { kind: Kind::LinearMove, x: x.map(bits), y: y.map(bits), z: z.map(bits) }
}

fn point(x: f32, y: f32, z: f32) -> Point {
    Point { x: bits(x), y: bits(y), z: bits(z) }
}

fn lines(text: &[&str]) -> Vec<String> {
    text.iter().map(|line| line.to_string()).collect()
}

#[test]
fn axis_letters_count_in_either_case() {
    assert!(Axis::X.is_named_by('X'));
    assert!(Axis::X.is_named_by('x'));
    assert!(Axis::Y.is_named_by('Y'));
    assert!(Axis::Y.is_named_by('y'));
    assert!(Axis::Z.is_named_by('Z'));
    assert!(Axis::Z.is_named_by('z'));
    assert!(!Axis::X.is_named_by('Y'));
    assert!(!Axis::Y.is_named_by('z'));
    assert!(!Axis::Z.is_named_by('E'));
    assert!(!Axis::X.is_named_by('F'));
}

#[test]
fn command_decodes_to_linear_move() {
    assert_eq!(LINEAR_MOVE, 1);
    let command = Command {
        major: 1,
        minor: None,
        words: vec![word('X', 1.0), word('Y', 2.0), word('Z', 3.0)],
    };
    assert_eq!(decode_command(&command), Some(linear(Some(1.0), Some(2.0), Some(3.0))));
}

#[test]
fn command_with_fewer_axes_leaves_the_rest_absent() {
    let command = Command { major: 1, minor: None, words: vec![] };
    assert_eq!(decode_command(&command), Some(linear(None, None, None)));
    let command = Command { major: 1, minor: None, words: vec![word('Y', 0.0)] };
    assert_eq!(decode_command(&command), Some(linear(None, Some(0.0), None)));
    let command = Command { major: 1, minor: None, words: vec![word('z', -4.5), word('x', 2.0)] };
    assert_eq!(decode_command(&command), Some(linear(Some(2.0), None, Some(-4.5))));
}

#[test]
fn command_ignores_words_that_are_no_axis() {
    let command = Command {
        major: 1,
        minor: None,
        words: vec![word('F', 1500.0), word('X', 1.0), word('E', 0.25)],
    };
    assert_eq!(decode_command(&command), Some(linear(Some(1.0), None, None)));
    let command = Command {
        major: 1,
        minor: None,
        words: vec![Word { letter: 'F', value: None }, word('E', f32::INFINITY)],
    };
    assert_eq!(decode_command(&command), Some(linear(None, None, None)));
}

#[test]
fn last_word_of_an_axis_gives_its_value() {
    let command = Command {
        major: 1,
        minor: None,
        words: vec![word('X', 1.0), word('Y', 5.0), word('x', 2.0)],
    };
    assert_eq!(decode_command(&command), Some(linear(Some(2.0), Some(5.0), None)));
}

#[test]
fn other_numbers_decode_to_other_kind() {
    let command = Command { major: 0, minor: None, words: vec![word('X', 1.0)] };
    assert_eq!(
        decode_command(&command),
        Some(Directive { kind: Kind::Other, x: Some(bits(1.0)), y: None, z: None })
    );
    let command = Command { major: 1, minor: Some(1), words: vec![word('X', 1.0)] };
    assert_eq!(decode_command(&command).unwrap().kind, Kind::Other);
    let command = Command { major: 28, minor: None, words: vec![] };
    assert_eq!(decode_command(&command).unwrap().kind, Kind::Other);
}

#[test]
fn axis_without_finite_number_spoils_the_command() {
    let command = Command {
        major: 1,
        minor: None,
        words: vec![word('X', 1.0), Word { letter: 'Y', value: None }],
    };
    assert_eq!(decode_command(&command), None);
    let command = Command { major: 1, minor: None, words: vec![word('Z', f32::INFINITY)] };
    assert_eq!(decode_command(&command), None);
    let command = Command { major: 1, minor: None, words: vec![word('x', f32::NAN), word('x', 1.0)] };
    assert_eq!(decode_command(&command), None);
    let command = Command { major: 0, minor: None, words: vec![word('Y', f32::NEG_INFINITY)] };
    assert_eq!(decode_command(&command), None);
}

#[test]
fn line_decodes_to_linear_move() {
    assert_eq!(decode_line("G1 X10.5 Y-2 Z0.25 F1500\n"), Some(linear(Some(10.5), Some(-2.0), Some(0.25))));
    assert_eq!(decode_line("G01 X5"), Some(linear(Some(5.0), None, None)));
    assert_eq!(decode_line("g1 z7"), Some(linear(None, None, Some(7.0))));
    assert_eq!(decode_line("G1"), Some(linear(None, None, None)));
    assert_eq!(decode_line("G1 F3000"), Some(linear(None, None, None)));
    assert_eq!(decode_line("N20 G1 Y0"), Some(linear(None, Some(0.0), None)));
}

#[test]
fn line_of_another_kind_decodes_to_other() {
    assert_eq!(
        decode_line("G0 X1 Y2"),
        Some(Directive { kind: Kind::Other, x: Some(bits(1.0)), y: Some(bits(2.0)), z: None })
    );
    assert_eq!(decode_line("G28").unwrap().kind, Kind::Other);
    assert_eq!(decode_line("G1.5 X1").unwrap().kind, Kind::Other);
    assert_eq!(decode_line("G90 G1 X5").unwrap(), Directive { kind: Kind::Other, x: None, y: None, z: None });
}

#[test]
fn line_without_directive_decodes_to_none() {
    assert_eq!(decode_line(""), None);
    assert_eq!(decode_line("\n"), None);
    assert_eq!(decode_line("; travel"), None);
    assert_eq!(decode_line("(travel)"), None);
    assert_eq!(decode_line("M104 S200"), None);
    assert_eq!(decode_line("T0"), None);
    assert_eq!(decode_line("X1 Y2"), None);
}

#[test]
fn malformed_line_decodes_to_none() {
    assert_eq!(decode_line("G1 Xabc Y2"), None);
    assert_eq!(decode_line("G1 X1 Y"), None);
    assert_eq!(decode_line("G1 X1..2"), None);
    assert_eq!(decode_line("G1 X1 ?"), None);
    assert_eq!(decode_line(&format!("G1 X{}", "9".repeat(60))), None);
    assert_eq!(decode_line("G1234567890 X1"), None);
}

#[test]
fn decoding_twice_gives_the_same() {
    for line in ["G1 X1 Y2", "G0 Z5", "M3", "G1 Xoops", "", "; note", "G1 X-0.0"] {
        assert_eq!(decode_line(line), decode_line(line));
    }
    let first = decode_line("G1 X3");
    let _ = decode_line("G1 Y9 Z9");
    assert_eq!(decode_line("G1 X3"), first);
}

#[test]
fn path_of_first_point_defaults_to_zero() {
    assert_eq!(path_from_lines(&lines(&["G1 X5.0"])), vec![point(5.0, 0.0, 0.0)]);
}

#[test]
fn path_repeats_point_of_directive_without_axes() {
    assert_eq!(
        path_from_lines(&lines(&["G1 X1.0 Y2.0 Z3.0", "G1"])),
        vec![point(1.0, 2.0, 3.0), point(1.0, 2.0, 3.0)]
    );
}

#[test]
fn path_carries_axes_transitively() {
    assert_eq!(
        path_from_lines(&lines(&["G1 X1.0", "G1 Y2.0", "G1 Z3.0"])),
        vec![point(1.0, 0.0, 0.0), point(1.0, 2.0, 0.0), point(1.0, 2.0, 3.0)]
    );
}

#[test]
fn malformed_line_leaves_path_and_cursor_alone() {
    let with = path_from_lines(&lines(&["G1 X1 Y2 Z3", "G1 Xabc Y9", "G1 Y5"]));
    let without = path_from_lines(&lines(&["G1 X1 Y2 Z3", "G1 Y5"]));
    assert_eq!(with, without);
    assert_eq!(with, vec![point(1.0, 2.0, 3.0), point(1.0, 5.0, 3.0)]);
    let with = path_from_lines(&lines(&["G1 Zoops", "G1 X4"]));
    assert_eq!(with, vec![point(4.0, 0.0, 0.0)]);
}

#[test]
fn path_of_empty_file_is_empty() {
    assert_eq!(path_from_lines(&vec![]), vec![]);
    assert_eq!(path_from_lines(&lines(&["", "; nothing here", "M104 S200", "G28", "G0 X1"])), vec![]);
}

#[test]
fn path_of_a_small_file() {
    let file = lines(&[
        "; generated\n",
        "G21\n",
        "G90\n",
        "M104 S200\n",
        "G28\n",
        "G1 Z0.3 F3000\n",
        "G0 X50 Y50\n",
        "G1 X10 Y10 E0.5\n",
        "G1 X20\n",
        "\n",
        "G1 Y20 ; up\n",
        "G1 X10 Y10 Z0.6\n",
        "M84\n",
    ]);
    assert_eq!(
        path_from_lines(&file),
        vec![
            point(0.0, 0.0, 0.3),
            point(10.0, 10.0, 0.3),
            point(20.0, 10.0, 0.3),
            point(20.0, 20.0, 0.3),
            point(10.0, 10.0, 0.6),
        ]
    );
}
