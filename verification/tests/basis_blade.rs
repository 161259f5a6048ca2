use geometric_algebra::mask;
use geometric_algebra::BasisBlade;
use geometric_algebra::{E1, E12, E123, E1234, E124, E13, E134, E14, E2, E23, E234, E24, E3, E34, E4, Scalar};

#[test]
fn new_keeps_the_coefficient() {
    let blade = E12::<i32>::new(7);
    assert_eq!(blade.coefficient(), 7);
    assert_eq!(blade.coefficient, 7);
}

#[test]
fn basis_is_the_mask_of_the_type() {
    assert_eq!(Scalar::<i32>::basis(), 0);
    assert_eq!(E3::<i32>::basis(), 0b100);
    assert_eq!(E124::<u8>::basis(), 0b1011);
    assert_eq!(BasisBlade::<i64, 77>::basis(), 77);
}

#[test]
fn blades_are_plain_values() {
    let blade = E1::<i64>::new(-3);
    let copy = blade;
    let clone = blade.clone();
    assert_eq!(blade, copy);
    assert_eq!(blade, clone);
    assert_ne!(blade, E1::<i64>::new(4));
    assert_eq!(format!("{:?}", blade), "BasisBlade { coefficient: -3 }");
}

#[test]
fn grade_is_the_population_count() {
    assert_eq!(Scalar::<i32>::new(1).grade(), 0);
    assert_eq!(E1::<i32>::new(1).grade(), 1);
    assert_eq!(E2::<i32>::new(1).grade(), 1);
    assert_eq!(E3::<i32>::new(1).grade(), 1);
    assert_eq!(E4::<i32>::new(1).grade(), 1);
    assert_eq!(E12::<i32>::new(1).grade(), 2);
    assert_eq!(E13::<i32>::new(1).grade(), 2);
    assert_eq!(E23::<i32>::new(1).grade(), 2);
    assert_eq!(E14::<i32>::new(1).grade(), 2);
    assert_eq!(E24::<i32>::new(1).grade(), 2);
    assert_eq!(E34::<i32>::new(1).grade(), 2);
    assert_eq!(E123::<i32>::new(1).grade(), 3);
    assert_eq!(E124::<i32>::new(1).grade(), 3);
    assert_eq!(E134::<i32>::new(1).grade(), 3);
    assert_eq!(E234::<i32>::new(1).grade(), 3);
    assert_eq!(E1234::<i32>::new(1).grade(), 4);
}

#[test]
fn grade_does_not_depend_on_the_coefficient() {
    assert_eq!(E13::<i32>::new(0).grade(), E13::<i32>::new(99).grade());
    assert_eq!(E13::<u8>::new(0).min_dim(), E13::<u8>::new(9).min_dim());
}

#[test]
fn grade_agrees_with_count_ones_for_every_small_mask() {
    let mut m: usize = 0;
    while m < 4096 {
        assert_eq!(mask::grade(m), m.count_ones() as usize);
        m += 1;
    }
    assert_eq!(mask::grade(usize::MAX), usize::BITS as usize);
    assert_eq!(mask::grade(usize::MAX - 1), usize::BITS as usize - 1);
}

#[test]
fn min_dim_of_the_scalar_is_zero() {
    assert_eq!(Scalar::<i32>::new(5).min_dim(), 0);
    assert_eq!(mask::min_dim(0), 0);
}

#[test]
fn min_dim_is_one_more_than_the_highest_index() {
    assert_eq!(E1::<i32>::new(1).min_dim(), 1);
    assert_eq!(E2::<i32>::new(1).min_dim(), 2);
    assert_eq!(E3::<i32>::new(1).min_dim(), 3);
    assert_eq!(E4::<i32>::new(1).min_dim(), 4);
    assert_eq!(E12::<i32>::new(1).min_dim(), 2);
    assert_eq!(E13::<i32>::new(1).min_dim(), 3);
    assert_eq!(E14::<i32>::new(1).min_dim(), 4);
    assert_eq!(E123::<i32>::new(1).min_dim(), 3);
    assert_eq!(E1234::<i32>::new(1).min_dim(), 4);
    assert_eq!(BasisBlade::<i32, 0x8000_0000>::new(1).min_dim(), 32);
}

#[test]
fn min_dim_is_zero_only_for_the_empty_mask() {
    let mut m: usize = 1;
    while m < 4096 {
        let d = mask::min_dim(m);
        assert!(d > 0);
        assert_eq!(d as u32, usize::BITS - m.leading_zeros());
        assert!(mask::contains_basis(m, d - 1));
        assert!(!mask::contains_basis(m, d));
        m += 1;
    }
    assert_eq!(mask::min_dim(usize::MAX), usize::BITS as usize);
}

#[test]
fn contains_basis_tests_one_bit() {
    assert!(E13::<i32>::contains_basis(0));
    assert!(!E13::<i32>::contains_basis(1));
    assert!(E13::<i32>::contains_basis(2));
    assert!(!E13::<i32>::contains_basis(3));
    assert!(!Scalar::<i32>::contains_basis(0));
}

#[test]
fn contains_basis_is_false_beyond_the_word() {
    assert!(!E1234::<i32>::contains_basis(usize::BITS as usize));
    assert!(!E1234::<i32>::contains_basis(usize::BITS as usize + 1));
    assert!(!E1234::<i32>::contains_basis(usize::MAX));
    assert!(!mask::contains_basis(usize::MAX, usize::BITS as usize));
    assert!(mask::contains_basis(usize::MAX, usize::BITS as usize - 1));
}

#[test]
fn basis_indices_of_named_blades() {
    assert_eq!(Scalar::<i32>::basis_indices(), Vec::<usize>::new());
    assert_eq!(E1::<i32>::basis_indices(), vec![0]);
    assert_eq!(E4::<i32>::basis_indices(), vec![3]);
    assert_eq!(E13::<i32>::basis_indices(), vec![0, 2]);
    assert_eq!(E234::<i32>::basis_indices(), vec![1, 2, 3]);
    assert_eq!(E1234::<i32>::basis_indices(), vec![0, 1, 2, 3]);
}

#[test]
fn basis_indices_ascend_and_give_the_mask_back() {
    let masks: Vec<usize> = vec![0, 1, 2, 3, 5, 0b1011, 0xF0F0, 0x8000_0001, usize::MAX, usize::MAX - 1];
    for m in masks {
        let indices = mask::basis_indices(m);
        let mut rebuilt: usize = 0;
        let mut i = 0;
        while i < indices.len() {
            if i > 0 {
                assert!(indices[i - 1] < indices[i]);
            }
            assert!(mask::contains_basis(m, indices[i]));
            rebuilt |= 1usize << indices[i];
            i += 1;
        }
        assert_eq!(rebuilt, m);
        assert_eq!(indices.len(), mask::grade(m));
    }
}

#[test]
fn basis_indices_of_the_full_word() {
    let indices = mask::basis_indices(usize::MAX);
    assert_eq!(indices.len(), usize::BITS as usize);
    assert_eq!(indices[0], 0);
    assert_eq!(indices[indices.len() - 1], usize::BITS as usize - 1);
}
