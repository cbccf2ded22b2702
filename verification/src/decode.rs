//! Decoding of one line of text into a directive.
//!
//! A line is decoded on its own, with no memory of the lines before it. The
//! parser finds the command that the line leads with; this module reads the
//! kind and the three axis fields out of that command.

use vstd::prelude::*;
use crate::path::{
    finite, is_finite, lemma_path_is_finite, lemma_path_length, moves, path_of, Directive, Kind,
    PathBuilder, Point,
};
use crate::syntax::{leading, leading_command, Command, CommandView, Word};

verus! {

/// The number of the linear-move command, `G1`.
pub const LINEAR_MOVE: u32 = 1;

/// One of the three spatial axes.
#[derive(Clone, Copy, Debug, PartialEq, Eq, Structural)]
pub enum Axis {
    X,
    Y,
    Z,
}

impl Axis {
    /// Whether a word's letter addresses this axis. Letters count in either case.
    pub open spec fn names(self, letter: char) -> bool {
        match self {
            Axis::X => letter == 'X' || letter == 'x',
            Axis::Y => letter == 'Y' || letter == 'y',
            Axis::Z => letter == 'Z' || letter == 'z',
        }
    }

    /// Tells whether a word's letter addresses this axis.
    pub fn is_named_by(self, letter: char) -> (r: bool)
        ensures
            r == self.names(letter),
    {
        match self {
            Axis::X => letter == 'X' || letter == 'x',
            Axis::Y => letter == 'Y' || letter == 'y',
            Axis::Z => letter == 'Z' || letter == 'z',
        }
    }
}

/// Whether a word is an axis field.
pub open spec fn is_axis_word(word: Word) -> bool {
    Axis::X.names(word.letter) || Axis::Y.names(word.letter) || Axis::Z.names(word.letter)
}

/// Whether a word holds a finite number.
pub open spec fn holds_number(word: Word) -> bool {
    word.value is Some && is_finite(word.value->0)
}

/// Every axis field among the words holds a finite number. One that does
/// not spoils the whole line.
pub open spec fn well_formed(words: Seq<Word>) -> bool {
    forall|i: int|
        0 <= i < words.len() && is_axis_word(#[trigger] words[i]) ==> holds_number(words[i])
}

/// The value that the words give an axis: that of the last word that names
/// it, and `None` where no word does.
pub open spec fn axis_value(words: Seq<Word>, axis: Axis) -> Option<u32>
    decreases words.len(),
{
    if words.len() == 0 {
        None
    } else if axis.names(words.last().letter) {
        words.last().value
    } else {
        axis_value(words.drop_last(), axis)
    }
}

/// The kind of the G command with the given number.
pub open spec fn kind_of(major: u32, minor: Option<u32>) -> Kind {
    if major == LINEAR_MOVE && minor is None {
        Kind::LinearMove
    } else {
        Kind::Other
    }
}

/// The directive that a G command decodes to, or `None` where one of its
/// axis fields holds no finite number.
pub open spec fn decoded_command(command: CommandView) -> Option<Directive> {
    if well_formed(command.words) {
        Some(
            Directive {
                kind: kind_of(command.major, command.minor),
                x: axis_value(command.words, Axis::X),
                y: axis_value(command.words, Axis::Y),
                z: axis_value(command.words, Axis::Z),
            },
        )
    } else {
        None
    }
}

/// The directive that a line of text decodes to, or `None` where it holds
/// none: the line is blank or a comment, does not parse, leads with
/// something other than a G command, or has a malformed axis field.
pub open spec fn decoded_line(line: Seq<char>) -> Option<Directive> {
    match leading(line) {
        Some(command) => decoded_command(command),
        None => None,
    }
}

/// Reads the kind and the axis fields out of a G command.
pub fn decode_command(command: &Command) -> (directive: Option<Directive>)
    ensures
        directive == decoded_command(command@),
{
    let mut x: Option<u32> = None;
    let mut y: Option<u32> = None;
    let mut z: Option<u32> = None;
    let mut i: usize = 0;
    while i < command.words.len()
        invariant
            i <= command.words.len(),
            well_formed(command.words@.take(i as int)),
            x == axis_value(command.words@.take(i as int), Axis::X),
            y == axis_value(command.words@.take(i as int), Axis::Y),
            z == axis_value(command.words@.take(i as int), Axis::Z),
        decreases command.words.len() - i,
    {
        let word = command.words[i];
        let ghost seen = command.words@.take(i + 1);
        proof {
            assert(seen.drop_last() == command.words@.take(i as int));
            assert(seen.last() == word);
        }
        let on_x = Axis::X.is_named_by(word.letter);
        let on_y = Axis::Y.is_named_by(word.letter);
        let on_z = Axis::Z.is_named_by(word.letter);
        if on_x || on_y || on_z {
            let number = match word.value {
                Some(bits) => finite(bits),
                None => false,
            };
            if !number {
                proof {
                    assert(command.words@[i as int] == word);
                }
                return None;
            }
            if on_x {
                x = word.value;
            } else if on_y {
                y = word.value;
            } else {
                z = word.value;
            }
        }
        proof {
            assert forall|k: int|
                0 <= k < seen.len() && is_axis_word(#[trigger] seen[k]) implies holds_number(
                seen[k],
            ) by {
                if k < i {
                    assert(seen[k] == command.words@.take(i as int)[k]);
                }
            }
        }
        i += 1;
    }
    proof {
        assert(command.words@.take(i as int) == command.words@);
    }
    let kind = if command.major == LINEAR_MOVE && command.minor.is_none() {
        Kind::LinearMove
    } else {
        Kind::Other
    };
    Some(Directive { kind, x, y, z })
}

/// Decodes one line of text.
pub fn decode_line(line: &str) -> (directive: Option<Directive>)
    ensures
        directive == decoded_line(line@),
{
    match leading_command(line) {
        Some(command) => decode_command(&command),
        None => None,
    }
}

/// What each line of a file decodes to, in order.
pub open spec fn decoded_lines(lines: Seq<String>) -> Seq<Option<Directive>> {
    Seq::new(lines.len(), |i: int| decoded_line(lines[i]@))
}

/// Decodes the lines of a file in order and resolves them into the path of
/// the tool head.
pub fn path_from_lines(lines: &Vec<String>) -> (path: Vec<Point>)
    ensures
        path@ == path_of(decoded_lines(lines@)),
{
    let mut builder = PathBuilder::new();
    let mut i: usize = 0;
    while i < lines.len()
        invariant
            i <= lines.len(),
            builder@ == path_of(decoded_lines(lines@).take(i as int)),
        decreases lines.len() - i,
    {
        let directive = decode_line(lines[i].as_str());
        proof {
            let decoded = decoded_lines(lines@);
            assert(decoded.take(i + 1).drop_last() == decoded.take(i as int));
            assert(decoded.take(i + 1).last() == directive);
        }
        builder.push(directive);
        i += 1;
    }
    proof {
        assert(decoded_lines(lines@).take(i as int) == decoded_lines(lines@));
    }
    builder.finish()
}

/// An axis is absent from the directive exactly when no word of the command
/// names it: a value of zero is a value, and never stands for absence.
pub proof fn lemma_absent_axis(words: Seq<Word>, axis: Axis)
    requires
        well_formed(words),
    ensures
        axis_value(words, axis) is None <==> forall|i: int|
            0 <= i < words.len() ==> !axis.names((#[trigger] words[i]).letter),
    decreases words.len(),
{
    if words.len() > 0 {
        let rest = words.drop_last();
        assert(forall|i: int| 0 <= i < rest.len() ==> rest[i] == words[i]);
        lemma_absent_axis(rest, axis);
        if axis.names(words.last().letter) {
            assert(is_axis_word(words[words.len() - 1]));
        } else if axis_value(words, axis) is None {
            assert forall|i: int| 0 <= i < words.len() implies !axis.names(
                (#[trigger] words[i]).letter,
            ) by {
                if i < rest.len() {
                    assert(rest[i] == words[i]);
                }
            }
        }
    }
}

/// An axis that is present has the value of a word that names it, and that
/// value is a finite number.
pub proof fn lemma_present_axis(words: Seq<Word>, axis: Axis)
    requires
        well_formed(words),
        axis_value(words, axis) is Some,
    ensures
        is_finite(axis_value(words, axis)->0),
        exists|i: int|
            0 <= i < words.len() && axis.names((#[trigger] words[i]).letter) && words[i].value
                == axis_value(words, axis),
    decreases words.len(),
{
    let rest = words.drop_last();
    if axis.names(words.last().letter) {
        assert(is_axis_word(words[words.len() - 1]));
    } else {
        assert(forall|i: int| 0 <= i < rest.len() ==> rest[i] == words[i]);
        lemma_present_axis(rest, axis);
        let i = choose|i: int|
            0 <= i < rest.len() && axis.names((#[trigger] rest[i]).letter) && rest[i].value
                == axis_value(rest, axis);
        assert(words[i] == rest[i]);
    }
}

/// Every directive that decoding gives carries finite values only.
pub proof fn lemma_decoded_is_finite(command: CommandView)
    requires
        decoded_command(command) is Some,
    ensures
        decoded_command(command)->0.is_finite(),
{
    if axis_value(command.words, Axis::X) is Some {
        lemma_present_axis(command.words, Axis::X);
    }
    if axis_value(command.words, Axis::Y) is Some {
        lemma_present_axis(command.words, Axis::Y);
    }
    if axis_value(command.words, Axis::Z) is Some {
        lemma_present_axis(command.words, Axis::Z);
    }
}

/// Decoding has no memory: what a line decodes to depends on its text alone,
/// so the same text decodes to the same directive, or to none, every time.
pub proof fn lemma_decoding_has_no_memory(first: Seq<char>, second: Seq<char>)
    requires
        first == second,
    ensures
        decoded_line(first) == decoded_line(second),
{
}

/// The path of a file has one point for each of its lines that decodes to a
/// linear move, whatever its other lines hold, and every point is finite.
pub proof fn lemma_path_of_file(lines: Seq<String>)
    ensures
        path_of(decoded_lines(lines)).len() == moves(decoded_lines(lines)).len(),
        forall|i: int|
            0 <= i < path_of(decoded_lines(lines)).len() ==> (#[trigger] path_of(
                decoded_lines(lines),
            )[i]).is_finite(),
{
    let decoded = decoded_lines(lines);
    lemma_path_length(decoded);
    assert forall|k: int| 0 <= k < decoded.len() && decoded[k] is Some implies (
    #[trigger] decoded[k])->0.is_finite() by {
        lemma_decoded_is_finite(leading(lines[k]@)->0);
    }
    assert forall|i: int| 0 <= i < path_of(decoded).len() implies (#[trigger] path_of(
        decoded,
    )[i]).is_finite() by {
        lemma_path_is_finite(decoded, i);
    }
}

} // verus!
