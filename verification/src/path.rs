//! Directives, points, and the accumulator that turns the first into the second.
//!
//! A coordinate is carried as the bit pattern of an IEEE-754 binary32 number.
//! The accumulator never computes with coordinates, it only moves them, so the
//! bit pattern is all it needs; positive zero is the pattern `0`.

use vstd::prelude::*;

verus! {

/// The exponent field of a binary32 bit pattern.
pub const EXPONENT_MASK: u32 = 0x7f80_0000;

/// The bit pattern of positive zero, the default of an axis that no directive has set yet.
pub const ZERO: u32 = 0;

/// A bit pattern stands for a finite number when its exponent field is not all ones.
pub open spec fn is_finite(bits: u32) -> bool {
    bits & EXPONENT_MASK != EXPONENT_MASK
}

/// Tells whether `bits` stands for a finite number (neither an infinity nor a NaN).
pub fn finite(bits: u32) -> (r: bool)
    ensures
        r == is_finite(bits),
{
    bits & EXPONENT_MASK != EXPONENT_MASK
}

/// What a directive asks of the machine.
#[derive(Clone, Copy, Debug, PartialEq, Eq, Structural)]
pub enum Kind {
    /// Move in a straight line to the given position: the one kind that makes a point.
    LinearMove,
    /// Any other command; it leaves the path alone.
    Other,
}

/// One decoded instruction. An axis that the line did not mention is `None`,
/// which is not the same as an axis set to zero.
#[derive(Clone, Copy, Debug, PartialEq, Eq)]
pub struct Directive {
    pub kind: Kind,
    pub x: Option<u32>,
    pub y: Option<u32>,
    pub z: Option<u32>,
}

/// A fully resolved position.
#[derive(Clone, Copy, Debug, PartialEq, Eq, Structural)]
pub struct Point {
    pub x: u32,
    pub y: u32,
    pub z: u32,
}

/// The value of one axis after a directive: its own value, or the one before it.
pub open spec fn carry(field: Option<u32>, previous: u32) -> u32 {
    match field {
        Some(v) => v,
        None => previous,
    }
}

/// An axis value is acceptable when it is absent or finite.
pub open spec fn field_is_finite(field: Option<u32>) -> bool {
    match field {
        Some(v) => is_finite(v),
        None => true,
    }
}

/// The last point of a path, if it has one.
pub open spec fn last_point(path: Seq<Point>) -> Option<Point> {
    if path.len() == 0 {
        None
    } else {
        Some(path.last())
    }
}

impl Point {
    /// The point that absent axes of the first directive fall back to.
    pub open spec fn origin() -> Point {
        Point { x: ZERO, y: ZERO, z: ZERO }
    }

    /// All three coordinates are finite.
    pub open spec fn is_finite(self) -> bool {
        is_finite(self.x) && is_finite(self.y) && is_finite(self.z)
    }
}

impl Directive {
    pub open spec fn is_linear_move(self) -> bool {
        self.kind == Kind::LinearMove
    }

    /// Every axis that is present is finite.
    pub open spec fn is_finite(self) -> bool {
        field_is_finite(self.x) && field_is_finite(self.y) && field_is_finite(self.z)
    }

    /// The point this directive moves to when the cursor stands at `cursor`.
    /// Before the first point there is no cursor, and absent axes are zero.
    pub open spec fn resolved(self, cursor: Option<Point>) -> Point {
        let base = match cursor {
            Some(p) => p,
            None => Point::origin(),
        };
        Point { x: carry(self.x, base.x), y: carry(self.y, base.y), z: carry(self.z, base.z) }
    }

    /// Resolves the directive against the cursor.
    pub fn resolve(&self, cursor: Option<Point>) -> (p: Point)
        ensures
            p == self.resolved(cursor),
    {
        let base = match cursor {
            Some(p) => p,
            None => Point { x: ZERO, y: ZERO, z: ZERO },
        };
        Point {
            x: match self.x {
                Some(v) => v,
                None => base.x,
            },
            y: match self.y {
                Some(v) => v,
                None => base.y,
            },
            z: match self.z {
                Some(v) => v,
                None => base.z,
            },
        }
    }
}

/// The path after one more decoded line. A linear move adds the point it
/// resolves to against the last point of the path; a line that did not decode,
/// or decoded to another kind, adds nothing.
pub open spec fn step(path: Seq<Point>, line: Option<Directive>) -> Seq<Point> {
    match line {
        Some(d) => if d.is_linear_move() {
            path.push(d.resolved(last_point(path)))
        } else {
            path
        },
        None => path,
    }
}

/// The path that a whole stream of decoded lines leaves, taken in order.
pub open spec fn path_of(lines: Seq<Option<Directive>>) -> Seq<Point>
    decreases lines.len(),
{
    if lines.len() == 0 {
        Seq::empty()
    } else {
        step(path_of(lines.drop_last()), lines.last())
    }
}

/// Accumulates a path, one decoded line at a time.
///
/// It owns the points made so far. The cursor is the last of them, and is
/// undefined until the first linear move has been resolved.
pub struct PathBuilder {
    points: Vec<Point>,
}

impl View for PathBuilder {
    type V = Seq<Point>;

    closed spec fn view(&self) -> Seq<Point> {
        self.points@
    }
}

impl PathBuilder {
    /// An accumulator that has seen nothing.
    pub fn new() -> (b: Self)
        ensures
            b@ == Seq::<Point>::empty(),
    {
        PathBuilder { points: Vec::new() }
    }

    /// Whether the next linear move will be the first point of the path.
    pub fn is_first(&self) -> (r: bool)
        ensures
            r == (self@.len() == 0),
    {
        self.points.len() == 0
    }

    /// The current position: the last point made, or `None` before the first.
    pub fn cursor(&self) -> (r: Option<Point>)
        ensures
            r == last_point(self@),
    {
        let n: usize = self.points.len();
        if n == 0 {
            None
        } else {
            Some(self.points[n - 1])
        }
    }

    /// The number of points made so far.
    pub fn len(&self) -> (n: usize)
        ensures
            n == self@.len(),
    {
        self.points.len()
    }

    /// Takes the next decoded line of the stream.
    pub fn push(&mut self, line: Option<Directive>)
        ensures
            final(self)@ == step(old(self)@, line),
    {
        if let Some(directive) = line {
            if let Kind::LinearMove = directive.kind {
                let point = directive.resolve(self.cursor());
                self.points.push(point);
            }
        }
    }

    /// Hands the finished path over.
    pub fn finish(self) -> (path: Vec<Point>)
        ensures
            path@ == self@,
    {
        self.points
    }
}

/// Resolves a whole stream of decoded lines into its path.
pub fn trace(lines: &Vec<Option<Directive>>) -> (path: Vec<Point>)
    ensures
        path@ == path_of(lines@),
{
    let mut builder = PathBuilder::new();
    let mut i: usize = 0;
    while i < lines.len()
        invariant
            i <= lines.len(),
            builder@ == path_of(lines@.take(i as int)),
        decreases lines.len() - i,
    {
        proof {
            assert(lines@.take(i + 1).drop_last() == lines@.take(i as int));
        }
        builder.push(lines[i]);
        i += 1;
    }
    proof {
        assert(lines@.take(i as int) == lines@);
    }
    builder.finish()
}

/// Whether a decoded line is one that makes a point.
pub open spec fn is_move(line: Option<Directive>) -> bool {
    match line {
        Some(d) => d.is_linear_move(),
        None => false,
    }
}

/// The lines of a stream that make a point, in order.
pub open spec fn moves(lines: Seq<Option<Directive>>) -> Seq<Option<Directive>> {
    lines.filter(|line: Option<Directive>| is_move(line))
}

proof fn lemma_moves_push(lines: Seq<Option<Directive>>, line: Option<Directive>)
    ensures
        moves(lines.push(line)) == if is_move(line) {
            moves(lines).push(line)
        } else {
            moves(lines)
        },
        path_of(lines.push(line)) == step(path_of(lines), line),
{
    reveal(Seq::filter);
    assert(lines.push(line).drop_last() == lines);
}

proof fn lemma_moves_are_moves(lines: Seq<Option<Directive>>, i: int)
    requires
        0 <= i < moves(lines).len(),
    ensures
        is_move(moves(lines)[i]),
{
    let pred = |line: Option<Directive>| is_move(line);
    lines.lemma_filter_pred(pred, i);
}

/// The path has exactly one point for each line that decoded to a linear
/// move; every other line adds none.
pub proof fn lemma_path_length(lines: Seq<Option<Directive>>)
    ensures
        path_of(lines).len() == moves(lines).len(),
    decreases lines.len(),
{
    if lines.len() > 0 {
        lemma_path_length(lines.drop_last());
        lemma_moves_push(lines.drop_last(), lines.last());
        assert(lines.drop_last().push(lines.last()) == lines);
    } else {
        reveal(Seq::filter);
    }
}

/// Point `i` of the path is linear move `i` of the stream, resolved against
/// the point just before it, or against nothing when it is the first.
pub proof fn lemma_path_point(lines: Seq<Option<Directive>>, i: int)
    requires
        0 <= i < path_of(lines).len(),
    ensures
        i < moves(lines).len(),
        moves(lines)[i] is Some,
        moves(lines)[i]->0.is_linear_move(),
        path_of(lines)[i] == moves(lines)[i]->0.resolved(
            if i == 0 {
                None
            } else {
                Some(path_of(lines)[i - 1])
            },
        ),
    decreases lines.len(),
{
    lemma_path_length(lines);
    lemma_moves_are_moves(lines, i);
    let rest = lines.drop_last();
    lemma_path_length(rest);
    lemma_moves_push(rest, lines.last());
    assert(rest.push(lines.last()) == lines);
    if i < path_of(rest).len() {
        lemma_path_point(rest, i);
    }
}

/// Carry-forward, axis by axis: an axis that linear move `i` leaves out keeps
/// the value it had at point `i - 1`, or is zero at the first point; an axis
/// that the move gives has the given value.
pub proof fn lemma_carry_forward(lines: Seq<Option<Directive>>, i: int)
    requires
        0 <= i < path_of(lines).len(),
    ensures
        i < moves(lines).len(),
        moves(lines)[i] is Some,
        ({
            let directive = moves(lines)[i]->0;
            let point = path_of(lines)[i];
            let before = if i == 0 {
                Point::origin()
            } else {
                path_of(lines)[i - 1]
            };
            &&& point.x == carry(directive.x, before.x)
            &&& point.y == carry(directive.y, before.y)
            &&& point.z == carry(directive.z, before.z)
        }),
{
    lemma_path_point(lines, i);
}

/// Lines that make no point are invisible: the path of a stream is the path
/// of its linear moves alone.
pub proof fn lemma_skipped_lines_are_invisible(lines: Seq<Option<Directive>>)
    ensures
        path_of(lines) == path_of(moves(lines)),
    decreases lines.len(),
{
    if lines.len() > 0 {
        let rest = lines.drop_last();
        lemma_skipped_lines_are_invisible(rest);
        lemma_moves_push(rest, lines.last());
        assert(rest.push(lines.last()) == lines);
        if is_move(lines.last()) {
            lemma_moves_push(moves(rest), lines.last());
        }
    } else {
        reveal(Seq::filter);
    }
}

/// Dropping one line that makes no point, wherever it stands, leaves the
/// whole path as it was.
pub proof fn lemma_dropped_line_changes_nothing(
    before: Seq<Option<Directive>>,
    line: Option<Directive>,
    after: Seq<Option<Directive>>,
)
    requires
        !is_move(line),
    ensures
        path_of(before.push(line) + after) == path_of(before + after),
{
    let pred = |l: Option<Directive>| is_move(l);
    lemma_skipped_lines_are_invisible(before.push(line) + after);
    lemma_skipped_lines_are_invisible(before + after);
    lemma_moves_push(before, line);
    Seq::filter_distributes_over_add(before.push(line), after, pred);
    Seq::filter_distributes_over_add(before, after, pred);
}

/// A stream whose directives carry only finite values leaves a path of
/// finite points.
pub proof fn lemma_path_is_finite(lines: Seq<Option<Directive>>, i: int)
    requires
        forall|k: int|
            0 <= k < lines.len() && lines[k] is Some ==> (#[trigger] lines[k])->0.is_finite(),
        0 <= i < path_of(lines).len(),
    ensures
        path_of(lines)[i].is_finite(),
    decreases lines.len(),
{
    let rest = lines.drop_last();
    assert(forall|k: int| 0 <= k < rest.len() ==> rest[k] == lines[k]);
    if i < path_of(rest).len() {
        lemma_path_is_finite(rest, i);
    } else {
        assert(is_finite(ZERO)) by (bit_vector);
        if path_of(rest).len() > 0 {
            lemma_path_is_finite(rest, path_of(rest).len() - 1);
        }
    }
}

} // verus!
