use geometric_algebra::{Multivector, Scalar, E1, E12, E123, E2, E3};

fn first() -> Multivector<i32, 3, 3> {
    let mut mv = Multivector::<i32, 3, 3>::new();
    mv.set_coefficient::<0b000>(4);
    mv.set_coefficient::<0b001>(2);
    mv.set_coefficient::<0b011>(5);
    mv.set_coefficient::<0b111>(-1);
    mv
}

fn second() -> Multivector<i32, 3, 3> {
    let mut mv = Multivector::<i32, 3, 3>::new();
    mv.set_coefficient::<0b001>(10);
    mv.set_coefficient::<0b010>(-7);
    mv.set_coefficient::<0b111>(1);
    mv
}

fn third() -> Multivector<i32, 3, 3> {
    let mut mv = Multivector::<i32, 3, 3>::new();
    mv.set_coefficient::<0b000>(-4);
    mv.set_coefficient::<0b110>(3);
    mv
}

#[test]
fn new_is_all_zero() {
    let mv = Multivector::<i32, 3, 3>::new();
    assert_eq!(mv.non_zero_blades(), Vec::<(usize, i32)>::new());
    assert_eq!(mv.get_coefficient::<0>(), 0);
    assert_eq!(mv.get_coefficient::<7>(), 0);
    assert_eq!(mv.scalar(), 0);
    assert_eq!(mv.max_grade(), 0);
    assert!(mv.is_homogeneous());
}

#[test]
fn default_is_new() {
    let mv: Multivector<i32, 3, 3> = Default::default();
    assert_eq!(mv.non_zero_blades(), Vec::<(usize, i32)>::new());
    assert_eq!(mv.get_coefficient::<7>(), 0);
    let sum = mv + first();
    assert_eq!(sum.non_zero_blades(), first().non_zero_blades());
}

#[test]
fn zero_dimensions_hold_one_scalar() {
    let mut mv = Multivector::<i64, 0, 0>::new();
    assert_eq!(mv.scalar(), 0);
    mv.set_coefficient::<0>(9);
    assert_eq!(mv.non_zero_blades(), vec![(0, 9)]);
    assert_eq!(mv.max_grade(), 0);
    assert!(mv.is_homogeneous());
}

#[test]
fn from_scalar_sets_slot_zero_only() {
    let mv = Multivector::<i32, 3, 3>::from_scalar(6);
    assert_eq!(mv.scalar(), 6);
    assert_eq!(mv.get_coefficient::<0>(), 6);
    assert_eq!(mv.non_zero_blades(), vec![(0, 6)]);
    assert_eq!(mv.max_grade(), 0);
    assert!(mv.is_homogeneous());
}

#[test]
fn set_then_get_coefficient() {
    let mut mv = Multivector::<i32, 4, 4>::new();
    mv.set_coefficient::<0b1010>(12);
    mv.set_coefficient::<0b1111>(-2);
    assert_eq!(mv.get_coefficient::<0b1010>(), 12);
    assert_eq!(mv.get_coefficient::<0b1111>(), -2);
    assert_eq!(mv.get_coefficient::<0b0101>(), 0);
    mv.set_coefficient::<0b1010>(0);
    assert_eq!(mv.non_zero_blades(), vec![(15, -2)]);
}

#[test]
fn scalar_is_slot_zero_whatever_else_is_there() {
    let mv = first();
    assert_eq!(mv.scalar(), 4);
    assert_eq!(second().scalar(), 0);
}

#[test]
fn add_blade_accumulates() {
    let mut mv = Multivector::<i32, 3, 3>::new();
    mv.add_blade(E12::<i32>::new(5));
    mv.add_blade(E12::<i32>::new(-2));
    mv.add_blade(E3::<i32>::new(8));
    mv.add_blade(Scalar::<i32>::new(1));
    assert_eq!(mv.get_coefficient::<0b011>(), 3);
    assert_eq!(mv.non_zero_blades(), vec![(0, 1), (3, 3), (4, 8)]);
    mv.add_blade(E3::<i32>::new(-8));
    assert_eq!(mv.non_zero_blades(), vec![(0, 1), (3, 3)]);
}

#[test]
fn vector_and_bivector_in_three_dimensions() {
    let mut mv = Multivector::<i32, 3, 3>::new();
    mv.set_coefficient::<0b001>(2);
    mv.set_coefficient::<0b011>(5);
    assert_eq!(mv.max_grade(), 2);
    assert_eq!(mv.non_zero_blades(), vec![(1, 2), (3, 5)]);
    assert!(!mv.is_homogeneous());
    let part = mv.grade(1);
    assert_eq!(part.non_zero_blades(), vec![(1, 2)]);
    assert_eq!(part.get_coefficient::<0b001>(), 2);
    assert_eq!(part.get_coefficient::<0b011>(), 0);
    assert_eq!(mv.non_zero_blades(), vec![(1, 2), (3, 5)]);
}

#[test]
fn non_zero_blades_ascend_by_mask() {
    let mut mv = Multivector::<i32, 3, 3>::new();
    mv.set_coefficient::<0b111>(1);
    mv.set_coefficient::<0b100>(2);
    mv.set_coefficient::<0b000>(3);
    mv.set_coefficient::<0b010>(4);
    assert_eq!(mv.non_zero_blades(), vec![(0, 3), (2, 4), (4, 2), (7, 1)]);
}

#[test]
fn max_grade_is_the_highest_grade_present() {
    assert_eq!(first().max_grade(), 3);
    assert_eq!(third().max_grade(), 2);
    let mut mv = Multivector::<i32, 3, 3>::new();
    mv.set_coefficient::<0b100>(1);
    assert_eq!(mv.max_grade(), 1);
    mv.set_coefficient::<0b100>(0);
    assert_eq!(mv.max_grade(), 0);
}

#[test]
fn homogeneity() {
    let mut vector = Multivector::<i32, 3, 3>::new();
    vector.add_blade(E1::<i32>::new(1));
    vector.add_blade(E2::<i32>::new(2));
    vector.add_blade(E3::<i32>::new(3));
    assert!(vector.is_homogeneous());
    vector.add_blade(Scalar::<i32>::new(1));
    assert!(!vector.is_homogeneous());
    let mut top = Multivector::<i32, 3, 3>::new();
    top.add_blade(E123::<i32>::new(4));
    assert!(top.is_homogeneous());
    assert!(!first().is_homogeneous());
}

#[test]
fn every_grade_part_is_homogeneous() {
    let mut k = 0;
    while k <= 4 {
        assert!(first().grade(k).is_homogeneous());
        k += 1;
    }
    assert_eq!(first().grade(0).non_zero_blades(), vec![(0, 4)]);
    assert_eq!(first().grade(1).non_zero_blades(), vec![(1, 2)]);
    assert_eq!(first().grade(2).non_zero_blades(), vec![(3, 5)]);
    assert_eq!(first().grade(3).non_zero_blades(), vec![(7, -1)]);
    assert_eq!(first().grade(4).non_zero_blades(), Vec::<(usize, i32)>::new());
}

#[test]
fn addition_is_slot_by_slot() {
    let total = first() + second();
    assert_eq!(total.non_zero_blades(), vec![(0, 4), (1, 12), (2, -7), (3, 5)]);
    assert_eq!(total.get_coefficient::<0b111>(), 0);
}

#[test]
fn subtraction_is_slot_by_slot() {
    let rest = first() - second();
    assert_eq!(rest.non_zero_blades(), vec![(0, 4), (1, -8), (2, 7), (3, 5), (7, -2)]);
}

#[test]
fn subtraction_is_not_commutative() {
    let one = (first() - second()).non_zero_blades();
    let other = (second() - first()).non_zero_blades();
    assert_ne!(one, other);
    assert_eq!(other, vec![(0, -4), (1, 8), (2, -7), (3, -5), (7, 2)]);
}

#[test]
fn addition_is_commutative() {
    assert_eq!((first() + second()).non_zero_blades(), (second() + first()).non_zero_blades());
}

#[test]
fn addition_is_associative() {
    let left = (first() + second()) + third();
    let right = first() + (second() + third());
    assert_eq!(left.non_zero_blades(), right.non_zero_blades());
    assert_eq!(left.non_zero_blades(), vec![(1, 12), (2, -7), (3, 5), (6, 3)]);
}

#[test]
fn adding_zero_changes_nothing() {
    let zero = Multivector::<i32, 3, 3>::new();
    assert_eq!((first() + zero).non_zero_blades(), first().non_zero_blades());
    let zero = Multivector::<i32, 3, 3>::new();
    assert_eq!((zero + first()).non_zero_blades(), first().non_zero_blades());
}

#[test]
fn subtracting_what_was_added_gives_the_start() {
    let back = (first() + second()) - second();
    assert_eq!(back.non_zero_blades(), first().non_zero_blades());
    let unsigned_start = {
        let mut mv = Multivector::<u8, 2, 2>::new();
        mv.set_coefficient::<1>(200);
        mv
    };
    let unsigned_step = {
        let mut mv = Multivector::<u8, 2, 2>::new();
        mv.set_coefficient::<1>(55);
        mv.set_coefficient::<2>(255);
        mv
    };
    let step_again = {
        let mut mv = Multivector::<u8, 2, 2>::new();
        mv.set_coefficient::<1>(55);
        mv.set_coefficient::<2>(255);
        mv
    };
    let back = (unsigned_start + unsigned_step) - step_again;
    assert_eq!(back.non_zero_blades(), vec![(1, 200)]);
}

#[test]
fn grade_parts_sum_to_the_whole() {
    let mut total = Multivector::<i32, 3, 3>::new();
    let mut k = 0;
    while k <= 3 {
        total = total + first().grade(k);
        k += 1;
    }
    assert_eq!(total.non_zero_blades(), first().non_zero_blades());
    assert_eq!(total.non_zero_blades(), vec![(0, 4), (1, 2), (3, 5), (7, -1)]);
}

#[test]
fn grade_parameter_does_not_limit_storage() {
    let mut mv = Multivector::<i32, 3, 1>::new();
    mv.set_coefficient::<0b111>(5);
    assert_eq!(mv.get_coefficient::<0b111>(), 5);
    assert_eq!(mv.max_grade(), 3);
}
