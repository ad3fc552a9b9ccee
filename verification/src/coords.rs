//! Grid coordinates, neighbour arithmetic and the text form `"x,y"`.

use crate::direction::Direction;
use crate::error::Error;
use crate::text::{
    chars_of, int_text, lemma_int_text_round_trip, parse_i32, parse_int, push_int, read_i32,
};
use vstd::prelude::*;

verus! {

/// The positions that a walk of `steps` steps from `start` in direction `dir`
/// passes, the start itself left out, nearest first.
pub open spec fn positions_towards(start: Coords2D, dir: Direction, steps: int) -> Seq<Coords2D> {
    Seq::new(
        if steps > 0 {
            steps as nat
        } else {
            0nat
        },
        |i: int| start.stepped(dir, i + 1),
    )
}

/// A position on the grid. North is towards smaller `y`, east towards larger
/// `x`.
#[derive(PartialEq, Eq, Hash, Debug, Clone, Copy, Structural)]
pub struct Coords2D {
    pub x: i32,
    pub y: i32,
}

/// Whether `v` is a coordinate value that an `i32` can hold.
pub open spec fn in_coordinate_range(v: int) -> bool {
    i32::MIN <= v <= i32::MAX
}

/// The number of leading characters of `s` before its first comma; the whole
/// length where it holds no comma.
pub open spec fn field_len(s: Seq<char>) -> nat
    decreases s.len(),
{
    if s.len() == 0 || s[0] == ',' {
        0
    } else {
        1 + field_len(s.drop_first())
    }
}

/// The position written by a text of comma-separated fields: the first two
/// fields are read as `x` and `y`, further fields are ignored. `None` where
/// there are fewer than two fields or one of the two is no `i32`.
pub open spec fn parse_coords(s: Seq<char>) -> Option<Coords2D> {
    let a = field_len(s) as int;
    if a == s.len() {
        None
    } else {
        let rest = s.skip(a + 1);
        let b = field_len(rest) as int;
        match (parse_i32(s.take(a)), parse_i32(rest.take(b))) {
            (Some(x), Some(y)) => Some(Coords2D { x, y }),
            _ => None,
        }
    }
}

impl Coords2D {
    /// The x coordinate reached after `steps` steps in direction `dir`.
    pub open spec fn target_x(self, dir: Direction, steps: int) -> int {
        match dir {
            Direction::EAST => self.x + steps,
            Direction::WEST => self.x - steps,
            _ => self.x as int,
        }
    }

    /// The y coordinate reached after `steps` steps in direction `dir`.
    pub open spec fn target_y(self, dir: Direction, steps: int) -> int {
        match dir {
            Direction::NORTH => self.y - steps,
            Direction::SOUTH => self.y + steps,
            _ => self.y as int,
        }
    }

    /// Whether the position `steps` steps away in direction `dir` is on the
    /// grid, that is, has coordinates that fit in an `i32`.
    pub open spec fn can_step(self, dir: Direction, steps: int) -> bool {
        in_coordinate_range(self.target_x(dir, steps)) && in_coordinate_range(
            self.target_y(dir, steps),
        )
    }

    /// The position `steps` steps away in direction `dir`.
    pub open spec fn stepped(self, dir: Direction, steps: int) -> Coords2D
        recommends
            self.can_step(dir, steps),
    {
        Coords2D {
            x: self.target_x(dir, steps) as i32,
            y: self.target_y(dir, steps) as i32,
        }
    }

    /// The canonical text of the position: `x`, a comma, `y`.
    pub open spec fn text(self) -> Seq<char> {
        int_text(self.x as int) + seq![','] + int_text(self.y as int)
    }

    /// The neighbouring position one step in direction `dir`.
    pub fn neighbor_coords(&self, dir: &Direction) -> (r: Self)
        requires
            self.can_step(*dir, 1),
        ensures
            r == self.stepped(*dir, 1),
    {
        self.neighbor_coords_distance(dir, 1)
    }

    /// The position `steps` steps in direction `dir`. A negative count walks
    /// the other way.
    pub fn neighbor_coords_distance(&self, dir: &Direction, steps: i32) -> (r: Self)
        requires
            self.can_step(*dir, steps as int),
        ensures
            r == self.stepped(*dir, steps as int),
    {
        match dir {
            Direction::NORTH => Self { x: self.x, y: self.y - steps },
            Direction::EAST => Self { x: self.x + steps, y: self.y },
            Direction::SOUTH => Self { x: self.x, y: self.y + steps },
            Direction::WEST => Self { x: self.x - steps, y: self.y },
        }
    }

    /// As `neighbor_coords`, with the direction taken by value.
    pub fn go(&self, dir: Direction) -> (r: Self)
        requires
            self.can_step(dir, 1),
        ensures
            r == self.stepped(dir, 1),
    {
        self.neighbor_coords_distance(&dir, 1)
    }

    /// The neighbouring position one step in direction `dir`, or `None` where
    /// the grid ends.
    pub fn checked_neighbor(&self, dir: &Direction) -> (r: Option<Self>)
        ensures
            r == if self.can_step(*dir, 1) {
                Some(self.stepped(*dir, 1))
            } else {
                None::<Coords2D>
            },
    {
        let fits = match dir {
            Direction::NORTH => self.y > i32::MIN,
            Direction::EAST => self.x < i32::MAX,
            Direction::SOUTH => self.y < i32::MAX,
            Direction::WEST => self.x > i32::MIN,
        };
        if fits {
            Some(self.neighbor_coords_distance(dir, 1))
        } else {
            None
        }
    }

    /// The position diagonally up and to the left of `pos`.
    pub fn get_north_west(pos: &Self) -> (r: Self)
        requires
            pos.x > i32::MIN,
            pos.y > i32::MIN,
        ensures
            r.x == pos.x - 1,
            r.y == pos.y - 1,
    {
        Coords2D { x: pos.x - 1, y: pos.y - 1 }
    }

    /// Reads a position from text: see `parse_coords`.
    pub fn from_string(stringrep: &str) -> (r: Option<Self>)
        ensures
            r == parse_coords(stringrep@),
    {
        let chars = chars_of(stringrep);
        let len = chars.len();
        let a = scan_field(&chars, 0);
        assert(chars@.skip(0) =~= chars@);
        if a == len {
            return None;
        }
        let b = scan_field(&chars, a + 1);
        proof {
            let s = chars@;
            let rest = s.skip(a + 1);
            assert(s.take(a as int) =~= s.subrange(0, a as int));
            assert(rest.take(field_len(rest) as int) =~= s.subrange(a + 1, b as int));
        }
        let x = read_i32(&chars, 0, a);
        let y = read_i32(&chars, a + 1, b);
        match (x, y) {
            (Some(x), Some(y)) => Some(Coords2D { x, y }),
            _ => None,
        }
    }

    /// Writes the position as `x`, a comma, `y`.
    pub fn to_string(&self) -> (r: String)
        ensures
            r@ == self.text(),
    {
        let mut out = String::new();
        push_int(&mut out, self.x as i64);
        proof {
            reveal_strlit(",");
        }
        out.append(",");
        push_int(&mut out, self.y as i64);
        assert(out@ =~= self.text());
        out
    }
}

impl Default for Coords2D {
    fn default() -> (r: Self)
        ensures
            r == (Coords2D { x: 0, y: 0 }),
    {
        Coords2D { x: 0, y: 0 }
    }
}

/// The positions that a walk of `steps` steps from `start` in direction
/// `direction` passes, nearest first; none where no step count is given. A
/// negative step count is refused with `InvalidArgument`.
pub fn get_coords_in_direction(start: &Coords2D, direction: &Direction, steps: Option<&i32>) -> (r:
    Result<Vec<Coords2D>, Error>)
    requires
        steps matches Some(n) ==> *n >= 0 ==> start.can_step(*direction, *n as int),
    ensures
        match r {
            Ok(coords) => match steps {
                Some(n) => *n >= 0 && coords@ == positions_towards(*start, *direction, *n as int),
                None => coords@ == Seq::<Coords2D>::empty(),
            },
            Err(e) => e == Error::InvalidArgument && (steps matches Some(n) && *n < 0),
        },
{
    let mut ret: Vec<Coords2D> = Vec::new();
    if let Some(steps) = steps {
        let n: i32 = *steps;
        if n < 0 {
            return Err(Error::InvalidArgument);
        }
        let mut i: i32 = 0;
        while i < n
            invariant
                0 <= i <= n,
                start.can_step(*direction, n as int),
                ret@ == positions_towards(*start, *direction, i as int),
            decreases n - i,
        {
            i += 1;
            ret.push(start.neighbor_coords_distance(direction, i));
            assert(ret@ =~= positions_towards(*start, *direction, i as int));
        }
    }
    assert(steps is None ==> ret@ =~= Seq::<Coords2D>::empty());
    Ok(ret)
}

/// The index of the first comma at or after `from`, or the length of `chars`
/// where none follows.
fn scan_field(chars: &Vec<char>, from: usize) -> (end: usize)
    requires
        from <= chars.len(),
    ensures
        from <= end <= chars.len(),
        end == from + field_len(chars@.skip(from as int)),
{
    let mut i = from;
    while i < chars.len() && chars[i] != ','
        invariant
            from <= i <= chars.len(),
            field_len(chars@.skip(from as int)) == (i - from) + field_len(chars@.skip(i as int)),
        decreases chars.len() - i,
    {
        assert(chars@.skip(i as int).drop_first() =~= chars@.skip(i + 1));
        i += 1;
    }
    i
}

/// A text without commas is one field.
proof fn lemma_field_len_no_comma(s: Seq<char>, tail: Seq<char>)
    requires
        forall|k: int| 0 <= k < s.len() ==> (#[trigger] s[k]) != ',',
        tail.len() == 0 || tail[0] == ',',
    ensures
        field_len(s + tail) == s.len(),
    decreases s.len(),
{
    if s.len() == 0 {
        assert(s + tail =~= tail);
    } else {
        assert((s + tail).drop_first() =~= s.drop_first() + tail);
        lemma_field_len_no_comma(s.drop_first(), tail);
    }
}

/// Reading the canonical text of a position gives the position back.
pub proof fn lemma_coords_text_round_trip(pos: Coords2D)
    ensures
        parse_coords(pos.text()) == Some(pos),
{
    let xs = int_text(pos.x as int);
    let ys = int_text(pos.y as int);
    let s = pos.text();
    lemma_int_text_round_trip(pos.x as int);
    lemma_int_text_round_trip(pos.y as int);
    assert(s =~= xs + (seq![','] + ys));
    lemma_field_len_no_comma(xs, seq![','] + ys);
    let a = xs.len() as int;
    assert(s.take(a) =~= xs);
    let rest = s.skip(a + 1);
    assert(rest =~= ys + Seq::<char>::empty());
    lemma_field_len_no_comma(ys, Seq::<char>::empty());
    assert(rest.take(ys.len() as int) =~= ys);
    assert(parse_int(xs) == Some(pos.x as int));
    assert(parse_int(ys) == Some(pos.y as int));
}

} // verus!
