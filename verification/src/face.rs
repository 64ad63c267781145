//! Directions of the block faces and sets of them.

use vstd::prelude::*;

verus! {

/// One of the six axis directions in which a block has a face.
///
/// `Front` looks along `+z`, `Back` along `-z`, `Right` along `+x`, `Left`
/// along `-x`, `Top` along `+y` and `Bottom` along `-y`.
#[derive(Clone, Copy, Debug, PartialEq, Eq, Hash, Structural)]
pub enum Direction {
    Front,
    Back,
    Right,
    Left,
    Top,
    Bottom,
}

impl Direction {
    /// The bit that stands for this direction in a face mask.
    pub open spec fn mask(self) -> u8 {
        match self {
            Direction::Front => 0b000001,
            Direction::Back => 0b000010,
            Direction::Right => 0b000100,
            Direction::Left => 0b001000,
            Direction::Top => 0b010000,
            Direction::Bottom => 0b100000,
        }
    }

    /// The step that this direction makes along the three axes.
    pub open spec fn step(self) -> (int, int, int) {
        match self {
            Direction::Front => (0, 0, 1),
            Direction::Back => (0, 0, -1),
            Direction::Right => (1, 0, 0),
            Direction::Left => (-1, 0, 0),
            Direction::Top => (0, 1, 0),
            Direction::Bottom => (0, -1, 0),
        }
    }

    /// The direction that looks the other way.
    pub open spec fn spec_opposite(self) -> Direction {
        match self {
            Direction::Front => Direction::Back,
            Direction::Back => Direction::Front,
            Direction::Right => Direction::Left,
            Direction::Left => Direction::Right,
            Direction::Top => Direction::Bottom,
            Direction::Bottom => Direction::Top,
        }
    }

    /// The bit that stands for this direction in a face mask.
    pub fn bit(self) -> (b: u8)
        ensures
            b == self.mask(),
    {
        match self {
            Direction::Front => 0b000001,
            Direction::Back => 0b000010,
            Direction::Right => 0b000100,
            Direction::Left => 0b001000,
            Direction::Top => 0b010000,
            Direction::Bottom => 0b100000,
        }
    }

    /// The direction that looks the other way.
    #[verifier::when_used_as_spec(spec_opposite)]
    pub fn opposite(self) -> (d: Direction)
        ensures
            d == self.spec_opposite(),
    {
        match self {
            Direction::Front => Direction::Back,
            Direction::Back => Direction::Front,
            Direction::Right => Direction::Left,
            Direction::Left => Direction::Right,
            Direction::Top => Direction::Bottom,
            Direction::Bottom => Direction::Top,
        }
    }
}

/// A set of block faces, kept as a mask with one bit per direction.
#[derive(Clone, Copy, Debug, PartialEq, Eq, Hash, Structural)]
pub struct Face {
    pub bits: u8,
}

/// The value of one flag inside a mask: the direction's bit if set, else zero.
pub open spec fn flag_bits(d: Direction, set: bool) -> int {
    if set {
        d.mask() as int
    } else {
        0
    }
}

impl Face {
    /// Whether the face in direction `d` belongs to the set.
    pub open spec fn spec_contains(&self, d: Direction) -> bool {
        self.bits & d.mask() == d.mask()
    }

    /// The set that holds exactly the faces whose flag is true.
    pub open spec fn spec_from_flags(
        front: bool,
        back: bool,
        right: bool,
        left: bool,
        top: bool,
        bottom: bool,
    ) -> Face {
        Face {
            bits: (flag_bits(Direction::Front, front) + flag_bits(Direction::Back, back)
                + flag_bits(Direction::Right, right) + flag_bits(Direction::Left, left)
                + flag_bits(Direction::Top, top) + flag_bits(Direction::Bottom, bottom)) as u8,
        }
    }

    /// The flag of direction `d` among six flags.
    pub open spec fn pick(
        d: Direction,
        front: bool,
        back: bool,
        right: bool,
        left: bool,
        top: bool,
        bottom: bool,
    ) -> bool {
        match d {
            Direction::Front => front,
            Direction::Back => back,
            Direction::Right => right,
            Direction::Left => left,
            Direction::Top => top,
            Direction::Bottom => bottom,
        }
    }

    /// The set of no faces.
    pub open spec fn spec_empty() -> Face {
        Face { bits: 0 }
    }

    /// The set of all six faces.
    pub open spec fn spec_all() -> Face {
        Face { bits: 0b111111 }
    }

    /// This set with the face in direction `d` put in or taken out.
    pub open spec fn spec_with(self, d: Direction, value: bool) -> Face {
        if value {
            Face { bits: self.bits | d.mask() }
        } else {
            Face { bits: self.bits & !d.mask() }
        }
    }

    /// The set of no faces.
    #[verifier::when_used_as_spec(spec_empty)]
    pub fn empty() -> (f: Face)
        ensures
            f == Face::spec_empty(),
    {
        Face { bits: 0 }
    }

    /// The set of all six faces.
    #[verifier::when_used_as_spec(spec_all)]
    pub fn all() -> (f: Face)
        ensures
            f == Face::spec_all(),
    {
        Face { bits: 0b111111 }
    }

    /// The mask as a number: bit 0 for front, up to bit 5 for bottom.
    pub fn bits(&self) -> (b: u8)
        ensures
            b == self.bits,
    {
        self.bits
    }

    /// Whether the face in direction `d` belongs to the set.
    #[verifier::when_used_as_spec(spec_contains)]
    pub fn contains(&self, d: Direction) -> (b: bool)
        ensures
            b == self.spec_contains(d),
    {
        let m: u8 = d.bit();
        self.bits & m == m
    }

    /// Puts the face in direction `d` into the set, or takes it out.
    pub fn set(&mut self, d: Direction, value: bool)
        ensures
            *final(self) == old(self).spec_with(d, value),
    {
        let m: u8 = d.bit();
        if value {
            self.bits = self.bits | m;
        } else {
            self.bits = self.bits & !m;
        }
    }

    /// The set that holds exactly the faces whose flag is true.
    pub fn from_flags(
        front: bool,
        back: bool,
        right: bool,
        left: bool,
        top: bool,
        bottom: bool,
    ) -> (f: Face)
        ensures
            f == Face::spec_from_flags(front, back, right, left, top, bottom),
    {
        let a: u8 = if front { Direction::Front.bit() } else { 0 };
        let b: u8 = if back { Direction::Back.bit() } else { 0 };
        let c: u8 = if right { Direction::Right.bit() } else { 0 };
        let d: u8 = if left { Direction::Left.bit() } else { 0 };
        let e: u8 = if top { Direction::Top.bit() } else { 0 };
        let g: u8 = if bottom { Direction::Bottom.bit() } else { 0 };
        Face { bits: a + b + c + d + e + g }
    }
}

/// The empty set holds no face and the full set holds every face.
pub proof fn lemma_empty_and_all(d: Direction)
    ensures
        !Face::spec_empty().spec_contains(d),
        Face::spec_all().spec_contains(d),
{
    let m = d.mask();
    assert(m == 1 || m == 2 || m == 4 || m == 8 || m == 16 || m == 32);
    assert((m == 1 || m == 2 || m == 4 || m == 8 || m == 16 || m == 32) ==> (0u8 & m != m
        && 0b111111u8 & m == m)) by (bit_vector);
}

/// After a face was put in or taken out, the set holds that face exactly if
/// it was put in, and every other face as before.
pub proof fn lemma_with_contains(f: Face, d: Direction, value: bool, e: Direction)
    ensures
        f.spec_with(d, value).spec_contains(e) == (if e == d {
            value
        } else {
            f.spec_contains(e)
        }),
{
    let bits = f.bits;
    let m = d.mask();
    let n = e.mask();
    assert(m == 1 || m == 2 || m == 4 || m == 8 || m == 16 || m == 32);
    assert(n == 1 || n == 2 || n == 4 || n == 8 || n == 16 || n == 32);
    assert(e == d <==> n == m);
    assert((m == 1 || m == 2 || m == 4 || m == 8 || m == 16 || m == 32) && (n == 1 || n == 2
        || n == 4 || n == 8 || n == 16 || n == 32) ==> {
        &&& ((bits | m) & m == m)
        &&& ((bits & !m) & m != m)
        &&& (n != m ==> (((bits | m) & n == n) <==> (bits & n == n)))
        &&& (n != m ==> (((bits & !m) & n == n) <==> (bits & n == n)))
    }) by (bit_vector);
}

/// A mask made from six flags holds a face exactly if its flag was true, and
/// uses no bit beyond the six.
pub proof fn lemma_from_flags_contains(
    d: Direction,
    front: bool,
    back: bool,
    right: bool,
    left: bool,
    top: bool,
    bottom: bool,
)
    ensures
        Face::spec_from_flags(front, back, right, left, top, bottom).spec_contains(d)
            == Face::pick(d, front, back, right, left, top, bottom),
        Face::spec_from_flags(front, back, right, left, top, bottom).bits < 64,
{
    let a: u8 = if front { 1 } else { 0 };
    let b: u8 = if back { 2 } else { 0 };
    let c: u8 = if right { 4 } else { 0 };
    let e: u8 = if left { 8 } else { 0 };
    let g: u8 = if top { 16 } else { 0 };
    let h: u8 = if bottom { 32 } else { 0 };
    let s: u8 = (a + b + c + e + g + h) as u8;
    assert(Face::spec_from_flags(front, back, right, left, top, bottom).bits == s);
    assert({
        &&& ((s & 1 == 1) <==> a == 1)
        &&& ((s & 2 == 2) <==> b == 2)
        &&& ((s & 4 == 4) <==> c == 4)
        &&& ((s & 8 == 8) <==> e == 8)
        &&& ((s & 16 == 16) <==> g == 16)
        &&& ((s & 32 == 32) <==> h == 32)
    }) by (bit_vector)
        requires
            a == 0 || a == 1,
            b == 0 || b == 2,
            c == 0 || c == 4,
            e == 0 || e == 8,
            g == 0 || g == 16,
            h == 0 || h == 32,
            s == a + b + c + e + g + h,
    ;
}

} // verus!
