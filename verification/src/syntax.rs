//! What a line of G-code holds, as the `gcode` crate parses it.
//!
//! The crate's syntax tree is opaque here. The functions of this module read
//! out of it the commands that the decoder needs; their contracts are taken
//! on trust from the crate's source, and everything else in the library is
//! proved from them.

use vstd::prelude::*;
use vstd::utf8::encode_utf8;

verus! {

/// One address word of a command, such as `X10.5`: a letter and a number.
#[derive(Clone, Copy, Debug, PartialEq, Eq)]
pub struct Word {
    pub letter: char,
    /// The binary32 bit pattern of the number; `None` where the word holds
    /// something other than a number literal.
    pub value: Option<u32>,
}

/// A G command with the words that follow it, such as `G1 X10.5 Y-2`.
#[derive(Debug, PartialEq, Eq)]
pub struct Command {
    /// The number before the decimal point: the `91` of `G91.1`.
    pub major: u32,
    /// The digit after the decimal point, where there is one other than zero.
    pub minor: Option<u32>,
    pub words: Vec<Word>,
}

/// A [`Command`] as a mathematical value.
pub ghost struct CommandView {
    pub major: u32,
    pub minor: Option<u32>,
    pub words: Seq<Word>,
}

impl View for Command {
    type V = CommandView;

    open spec fn view(&self) -> CommandView {
        CommandView { major: self.major, minor: self.minor, words: self.words@ }
    }
}

/// The commands of some source text: one sequence for each block (a line
/// that holds anything), and in it one entry for each command of the block,
/// `None` where the command is not a G command.
pub type Blocks = Seq<Seq<Option<CommandView>>>;

#[verifier::external_type_specification]
#[verifier::external_body]
pub struct ExProgram(gcode::Program);

/// The result of `gcode::parse` on a source text: the commands of the
/// program it returns, or `None` where it reports diagnostics. The parser
/// reads nothing but the text, so the result is a function of the text.
pub uninterp spec fn parsed(source: Seq<char>) -> Option<Blocks>;

/// The commands that a parsed program holds: for each entry of
/// `Program::blocks`, in order, the entries of its `Block::codes`, in order.
pub uninterp spec fn commands(program: gcode::Program) -> Blocks;

/// The longest command number, in digits, that is handed to the parser.
pub const MAX_NUMBER_DIGITS: usize = 8;

/// The letters that start a command: `G`, `M` and `T`, in either case.
pub open spec fn is_command_letter(byte: u8) -> bool {
    ||| byte == 'G' as u8
    ||| byte == 'g' as u8
    ||| byte == 'M' as u8
    ||| byte == 'm' as u8
    ||| byte == 'T' as u8
    ||| byte == 't' as u8
}

/// The blanks that the parser skips between a letter and its number.
pub open spec fn is_blank(byte: u8) -> bool {
    byte == ' ' as u8 || byte == '\t' as u8 || byte == '\r' as u8
}

/// The ten decimal digits.
pub open spec fn is_digit(byte: u8) -> bool {
    '0' as u8 <= byte <= '9' as u8
}

/// At `letter` stands a command letter, and after it, blanks aside, a run of
/// more than [`MAX_NUMBER_DIGITS`] digits that begins at `start`.
pub open spec fn long_number_at(bytes: Seq<u8>, letter: int, start: int) -> bool {
    &&& 0 <= letter < start
    &&& start + MAX_NUMBER_DIGITS < bytes.len()
    &&& is_command_letter(bytes[letter])
    &&& forall|k: int| letter < k < start ==> is_blank(#[trigger] bytes[k])
    &&& forall|k: int| start <= k <= start + MAX_NUMBER_DIGITS ==> is_digit(#[trigger] bytes[k])
}

/// Some command of the text has a number too long to be handed to the parser.
pub open spec fn has_long_number(bytes: Seq<u8>) -> bool {
    exists|letter: int, start: int| long_number_at(bytes, letter, start)
}

/// The source texts that the parser is given: shorter than 4 GiB, and with
/// no command number of more than [`MAX_NUMBER_DIGITS`] digits. On any other
/// text the parser's own arithmetic may overflow.
pub open spec fn parseable(bytes: Seq<u8>) -> bool {
    bytes.len() <= u32::MAX && !has_long_number(bytes)
}

/// Calls `gcode::parse`, which returns a program where the parser reports no
/// diagnostics. Taken on trust: that the same text always gives the same
/// commands, and that the parser returns on every text that is
/// [`parseable`].
#[verifier::external_body]
fn parse(source: &str) -> (program: Option<gcode::Program>)
    requires
        parseable(encode_utf8(source@)),
    ensures
        program is Some <==> parsed(source@) is Some,
        program is Some ==> parsed(source@) == Some(commands(program->0)),
{
    gcode::parse(source).ok()
}

/// Reads the length of `Program::blocks`. Taken on trust: that this is the
/// number of blocks that [`commands`] speaks of.
#[verifier::external_body]
fn block_count(program: &gcode::Program) -> (n: usize)
    ensures
        n == commands(*program).len(),
{
    program.blocks.len()
}

/// Reads the length of `Block::codes` of one block. Taken on trust: that
/// this is the number of commands that [`commands`] gives the block.
#[verifier::external_body]
fn command_count(program: &gcode::Program, block: usize) -> (n: usize)
    requires
        block < commands(*program).len(),
    ensures
        n == commands(*program)[block as int].len(),
{
    program.blocks[block].codes.len()
}

/// Reads one entry of `Block::codes`. A `Code::General` comes back with its
/// number, as `Number::major` and `Number::minor` give it, and with the
/// letter and the value of each of its arguments, in order; a number literal
/// comes back as its bit pattern, as `f32::to_bits` gives it. Any other code
/// comes back as `None`. Taken on trust: that this is the entry that
/// [`commands`] speaks of.
#[verifier::external_body]
fn command_at(program: &gcode::Program, block: usize, index: usize) -> (command: Option<Command>)
    requires
        block < commands(*program).len(),
        index < commands(*program)[block as int].len(),
    ensures
        command is Some <==> commands(*program)[block as int][index as int] is Some,
        command is Some ==> command->0@ == commands(*program)[block as int][index as int]->0,
{
    match &program.blocks[block].codes[index] {
        gcode::Code::General(g) => Some(Command {
            major: g.number.major(),
            minor: g.number.minor().map(|m| m.get()),
            words: g.args.iter().map(|a| Word {
                letter: a.letter,
                value: match a.value { gcode::Value::Literal(v) => Some(v.to_bits()), _ => None },
            }).collect(),
        }),
        _ => None,
    }
}

/// The command that a line leads with: the first command of the first block
/// of the parsed text, where that is a G command.
pub open spec fn first_command(blocks: Blocks) -> Option<CommandView> {
    if blocks.len() > 0 && blocks[0].len() > 0 {
        blocks[0][0]
    } else {
        None
    }
}

/// The leading G command of a source text. There is none where the text is
/// not handed to the parser, where the parser reports diagnostics, and where
/// the text starts with no command or with a command of another family.
pub open spec fn leading(source: Seq<char>) -> Option<CommandView> {
    if !parseable(encode_utf8(source)) {
        None
    } else {
        match parsed(source) {
            Some(blocks) => first_command(blocks),
            None => None,
        }
    }
}

/// The view of a command that may be absent.
pub open spec fn view_of(command: Option<Command>) -> Option<CommandView> {
    match command {
        Some(c) => Some(c@),
        None => None,
    }
}

fn byte_is_command_letter(byte: u8) -> (r: bool)
    ensures
        r == is_command_letter(byte),
{
    byte == 'G' as u8 || byte == 'g' as u8 || byte == 'M' as u8 || byte == 'm' as u8
        || byte == 'T' as u8 || byte == 't' as u8
}

fn byte_is_blank(byte: u8) -> (r: bool)
    ensures
        r == is_blank(byte),
{
    byte == ' ' as u8 || byte == '\t' as u8 || byte == '\r' as u8
}

fn byte_is_digit(byte: u8) -> (r: bool)
    ensures
        r == is_digit(byte),
{
    '0' as u8 <= byte && byte <= '9' as u8
}

/// The first `end` bytes agree with a long number at `letter` and `start`, as
/// far as they reach.
spec fn agrees_until(bytes: Seq<u8>, letter: int, start: int, end: int) -> bool {
    &&& 0 <= letter < start
    &&& letter < end <= bytes.len()
    &&& is_command_letter(bytes[letter])
    &&& forall|k: int| letter < k < start && k < end ==> is_blank(#[trigger] bytes[k])
    &&& forall|k: int|
        start <= k < end && k <= start + MAX_NUMBER_DIGITS ==> is_digit(#[trigger] bytes[k])
}

/// Searches the text for a command number of more than
/// [`MAX_NUMBER_DIGITS`] digits.
pub fn find_long_number(bytes: &[u8]) -> (found: bool)
    ensures
        found == has_long_number(bytes@),
{
    let mut i: usize = 0;
    // A command letter has been passed, with nothing but blanks and then
    // digits since.
    let mut armed: bool = false;
    // The digits passed since the letter.
    let mut run: usize = 0;
    let ghost mut letter: int = 0;
    let ghost mut start: int = 0;
    while i < bytes.len()
        invariant
            i <= bytes.len(),
            run <= MAX_NUMBER_DIGITS,
            !armed ==> run == 0,
            armed ==> 0 <= letter < i && is_command_letter(bytes@[letter]),
            armed && run == 0 ==> forall|k: int| letter < k < i ==> is_blank(#[trigger] bytes@[k]),
            armed && run > 0 ==> {
                &&& start == i - run
                &&& letter < start
                &&& forall|k: int| letter < k < start ==> is_blank(#[trigger] bytes@[k])
                &&& forall|k: int| start <= k < i ==> is_digit(#[trigger] bytes@[k])
            },
            forall|l: int, s: int| #[trigger]
                agrees_until(bytes@, l, s, i as int) ==> armed && l == letter && if s < i {
                    run > 0 && s == start
                } else {
                    run == 0
                },
        decreases bytes.len() - i,
    {
        let byte = bytes[i];
        proof {
            assert forall|l: int, s: int| #[trigger]
                agrees_until(bytes@, l, s, i + 1) && l < i implies agrees_until(
                bytes@,
                l,
                s,
                i as int,
            ) && (if s <= i {
                is_digit(byte)
            } else {
                is_blank(byte)
            }) by {
                if agrees_until(bytes@, l, s, i + 1) && l < i {
                    assert(agrees_until(bytes@, l, s, i as int));
                    if s <= i {
                        assert(is_digit(bytes@[i as int]));
                    } else {
                        assert(is_blank(bytes@[i as int]));
                    }
                }
            }
        }
        if byte_is_command_letter(byte) {
            armed = true;
            run = 0;
            proof {
                letter = i as int;
            }
        } else if armed && byte_is_digit(byte) {
            if run == 0 {
                proof {
                    start = i as int;
                }
            }
            if run == MAX_NUMBER_DIGITS {
                proof {
                    assert(long_number_at(bytes@, letter, start));
                }
                return true;
            }
            run += 1;
        } else if armed && run == 0 && byte_is_blank(byte) {
        } else {
            armed = false;
            run = 0;
        }
        i += 1;
    }
    proof {
        assert forall|l: int, s: int| !long_number_at(bytes@, l, s) by {
            if long_number_at(bytes@, l, s) {
                assert(agrees_until(bytes@, l, s, i as int));
            }
        }
    }
    false
}

/// Tells whether a text is one that the parser is given.
pub fn is_parseable(source: &str) -> (r: bool)
    ensures
        r == parseable(encode_utf8(source@)),
{
    let bytes = source.as_bytes();
    bytes.len() <= u32::MAX as usize && !find_long_number(bytes)
}

/// Parses a line and reads its leading G command.
pub fn leading_command(source: &str) -> (command: Option<Command>)
    ensures
        view_of(command) == leading(source@),
{
    if !is_parseable(source) {
        return None;
    }
    match parse(source) {
        Some(program) => {
            if block_count(&program) > 0 && command_count(&program, 0) > 0 {
                command_at(&program, 0, 0)
            } else {
                None
            }
        },
        None => None,
    }
}

} // verus!
