use voxel_engine::face::Direction;
use voxel_engine::face::Face;

const DIRECTIONS: [Direction; 6] = [
    Direction::Front,
    Direction::Back,
    Direction::Right,
    Direction::Left,
    Direction::Top,
    Direction::Bottom,
];

#[test]
fn every_direction_has_its_own_bit() {
    assert_eq!(Direction::Front.bit(), 0b000001);
    assert_eq!(Direction::Back.bit(), 0b000010);
    assert_eq!(Direction::Right.bit(), 0b000100);
    assert_eq!(Direction::Left.bit(), 0b001000);
    assert_eq!(Direction::Top.bit(), 0b010000);
    assert_eq!(Direction::Bottom.bit(), 0b100000);
}

#[test]
fn opposite_directions_pair_up() {
    assert_eq!(Direction::Front.opposite(), Direction::Back);
    assert_eq!(Direction::Back.opposite(), Direction::Front);
    assert_eq!(Direction::Right.opposite(), Direction::Left);
    assert_eq!(Direction::Left.opposite(), Direction::Right);
    assert_eq!(Direction::Top.opposite(), Direction::Bottom);
    assert_eq!(Direction::Bottom.opposite(), Direction::Top);
}

#[test]
fn empty_holds_nothing_and_all_holds_everything() {
    assert_eq!(Face::empty().bits(), 0);
    assert_eq!(Face::all().bits(), 0b111111);
    for d in DIRECTIONS {
        assert!(!Face::empty().contains(d));
        assert!(Face::all().contains(d));
    }
}

#[test]
fn set_puts_in_and_takes_out_one_face() {
    let mut faces = Face::empty();
    faces.set(Direction::Top, true);
    assert_eq!(faces.bits(), 0b010000);
    faces.set(Direction::Left, true);
    assert_eq!(faces.bits(), 0b011000);
    faces.set(Direction::Top, true);
    assert_eq!(faces.bits(), 0b011000);
    faces.set(Direction::Top, false);
    assert_eq!(faces.bits(), 0b001000);
    faces.set(Direction::Front, false);
    assert_eq!(faces.bits(), 0b001000);
    assert!(faces.contains(Direction::Left));
    assert!(!faces.contains(Direction::Top));
}

#[test]
fn from_flags_sets_the_bit_of_each_true_flag() {
    assert_eq!(Face::from_flags(false, false, false, false, false, false), Face::empty());
    assert_eq!(Face::from_flags(true, true, true, true, true, true), Face::all());
    assert_eq!(Face::from_flags(true, false, false, false, false, false).bits(), 1);
    assert_eq!(Face::from_flags(false, true, false, false, false, false).bits(), 2);
    assert_eq!(Face::from_flags(false, false, true, false, false, false).bits(), 4);
    assert_eq!(Face::from_flags(false, false, false, true, false, false).bits(), 8);
    assert_eq!(Face::from_flags(false, false, false, false, true, false).bits(), 16);
    assert_eq!(Face::from_flags(false, false, false, false, false, true).bits(), 32);
    assert_eq!(Face::from_flags(true, false, true, false, true, false).bits(), 0b010101);
}

#[test]
fn from_flags_agrees_with_contains_on_every_combination() {
    for bits in 0u8..64 {
        let flag = |d: Direction| bits & d.bit() != 0;
        let faces = Face::from_flags(
            flag(Direction::Front),
            flag(Direction::Back),
            flag(Direction::Right),
            flag(Direction::Left),
            flag(Direction::Top),
            flag(Direction::Bottom),
        );
        assert_eq!(faces.bits(), bits);
        for d in DIRECTIONS {
            assert_eq!(faces.contains(d), flag(d));
        }
    }
}
