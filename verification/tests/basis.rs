use rust_libcint::basis::{ao_offsets, cgto, flatten, ANG_OF, ATM_SLOTS, BAS_SLOTS, NCTR_OF};
use rust_libcint::{CintError, CintType};

fn shell(l: i32, nctr: i32) -> Vec<i32> {
    vec![0, l, 1, nctr, 0, 0, 0, 0]
}

fn flat(shells: &[(i32, i32)]) -> Vec<i32> {
    shells.iter().flat_map(|&(l, nctr)| shell(l, nctr)).collect()
}

#[test]
fn record_layout() {
    assert_eq!(ATM_SLOTS, 6);
    assert_eq!(BAS_SLOTS, 8);
    assert_eq!(ANG_OF, 1);
    assert_eq!(NCTR_OF, 3);
}

#[test]
fn spheric_counts_by_hand() {
    assert_eq!(cgto(CintType::Spheric, 0, 1), Ok(1));
    assert_eq!(cgto(CintType::Spheric, 1, 1), Ok(3));
    assert_eq!(cgto(CintType::Spheric, 2, 1), Ok(5));
    assert_eq!(cgto(CintType::Spheric, 3, 1), Ok(7));
    assert_eq!(cgto(CintType::Spheric, 0, 4), Ok(4));
    assert_eq!(cgto(CintType::Spheric, 1, 2), Ok(6));
    assert_eq!(cgto(CintType::Spheric, 2, 3), Ok(15));
    assert_eq!(cgto(CintType::Spheric, 3, 5), Ok(35));
}

#[test]
fn cartesian_counts_by_hand() {
    assert_eq!(cgto(CintType::Cartesian, 0, 1), Ok(1));
    assert_eq!(cgto(CintType::Cartesian, 1, 1), Ok(3));
    assert_eq!(cgto(CintType::Cartesian, 2, 1), Ok(6));
    assert_eq!(cgto(CintType::Cartesian, 3, 1), Ok(10));
    assert_eq!(cgto(CintType::Cartesian, 0, 4), Ok(4));
    assert_eq!(cgto(CintType::Cartesian, 1, 2), Ok(6));
    assert_eq!(cgto(CintType::Cartesian, 2, 3), Ok(18));
    assert_eq!(cgto(CintType::Cartesian, 3, 5), Ok(50));
}

#[test]
fn counts_follow_the_formulas() {
    for l in 0..40i32 {
        for nctr in 0..6i32 {
            assert_eq!(cgto(CintType::Spheric, l, nctr), Ok((2 * l + 1) * nctr));
            assert_eq!(cgto(CintType::Cartesian, l, nctr), Ok((l + 1) * (l + 2) / 2 * nctr));
        }
    }
}

#[test]
fn count_without_contracted_function_is_zero() {
    assert_eq!(cgto(CintType::Spheric, 12, 0), Ok(0));
    assert_eq!(cgto(CintType::Cartesian, i32::MAX, 0), Ok(0));
}

#[test]
fn negative_fields_are_refused() {
    assert_eq!(cgto(CintType::Spheric, -1, 1), Err(CintError::NegativeShell));
    assert_eq!(cgto(CintType::Cartesian, 1, -1), Err(CintError::NegativeShell));
    assert_eq!(cgto(CintType::Cartesian, i32::MIN, i32::MIN), Err(CintError::NegativeShell));
}

#[test]
fn counts_at_the_edge_of_i32() {
    // 2 * 1073741823 + 1 = 2147483647
    assert_eq!(cgto(CintType::Spheric, 1073741823, 1), Ok(i32::MAX));
    assert_eq!(cgto(CintType::Spheric, 1073741824, 1), Err(CintError::ComponentOverflow));
    assert_eq!(cgto(CintType::Spheric, 0, i32::MAX), Ok(i32::MAX));
    assert_eq!(cgto(CintType::Spheric, 1, i32::MAX), Err(CintError::ComponentOverflow));
    // 65535 * 65536 / 2 = 2147450880, 65536 * 65537 / 2 = 2147516416
    assert_eq!(cgto(CintType::Cartesian, 65534, 1), Ok(2147450880));
    assert_eq!(cgto(CintType::Cartesian, 65535, 1), Err(CintError::ComponentOverflow));
    assert_eq!(
        cgto(CintType::Cartesian, i32::MAX, i32::MAX),
        Err(CintError::ComponentOverflow)
    );
}

#[test]
fn flatten_keeps_record_order() {
    let rows = vec![vec![1, 2, 3], vec![4, 5, 6], vec![7, 8, 9]];
    assert_eq!(flatten(&rows, 3), Some(vec![1, 2, 3, 4, 5, 6, 7, 8, 9]));
}

#[test]
fn flatten_of_no_record() {
    let rows: Vec<Vec<i32>> = Vec::new();
    assert_eq!(flatten(&rows, 8), Some(Vec::new()));
}

#[test]
fn flatten_of_empty_records() {
    let rows: Vec<Vec<i32>> = vec![vec![], vec![]];
    assert_eq!(flatten(&rows, 0), Some(Vec::new()));
    assert_eq!(flatten(&rows, 1), None);
}

#[test]
fn flatten_refuses_ragged_records() {
    let short = vec![vec![1, 2, 3], vec![4, 5]];
    assert_eq!(flatten(&short, 3), None);
    let long = vec![vec![1, 2, 3, 4], vec![4, 5, 6]];
    assert_eq!(flatten(&long, 3), None);
    let other_width = vec![vec![1, 2], vec![3, 4]];
    assert_eq!(flatten(&other_width, 3), None);
}

#[test]
fn flatten_places_slot_of_record() {
    let rows: Vec<Vec<i32>> = (0..5).map(|r| (0..8).map(|c| 100 * r + c).collect()).collect();
    let flat = flatten(&rows, 8).unwrap();
    assert_eq!(flat.len(), 40);
    for r in 0..5usize {
        for c in 0..8usize {
            assert_eq!(flat[r * 8 + c], rows[r][c]);
        }
    }
}

#[test]
fn offsets_of_the_worked_example() {
    let bas = vec![0, 1, 1, 1, 1, 6, 7, 0, 0, 2, 1, 1, 1, 8, 9, 0];
    assert_eq!(ao_offsets(CintType::Spheric, &bas), Ok(vec![0, 3, 8]));
    assert_eq!(ao_offsets(CintType::Cartesian, &bas), Ok(vec![0, 3, 9]));
}

#[test]
fn offsets_of_no_shell() {
    assert_eq!(ao_offsets(CintType::Spheric, &[]), Ok(vec![0]));
    assert_eq!(ao_offsets(CintType::Cartesian, &[]), Ok(vec![0]));
}

#[test]
fn offsets_are_running_sums() {
    let shells = [(0, 2), (1, 1), (3, 2), (2, 0), (0, 1), (4, 3)];
    let bas = flat(&shells);
    for cint_type in [CintType::Spheric, CintType::Cartesian] {
        let ao_loc = ao_offsets(cint_type, &bas).unwrap();
        assert_eq!(ao_loc.len(), shells.len() + 1);
        assert_eq!(ao_loc[0], 0);
        let mut sum = 0;
        for (k, &(l, nctr)) in shells.iter().enumerate() {
            assert!(ao_loc[k] <= ao_loc[k + 1]);
            sum += cgto(cint_type, l, nctr).unwrap();
            assert_eq!(ao_loc[k + 1], sum);
        }
        assert_eq!(*ao_loc.last().unwrap(), sum);
    }
    assert_eq!(
        ao_offsets(CintType::Spheric, &bas),
        Ok(vec![0, 2, 5, 19, 19, 20, 47])
    );
    assert_eq!(
        ao_offsets(CintType::Cartesian, &bas),
        Ok(vec![0, 2, 5, 25, 25, 26, 71])
    );
}

#[test]
fn offsets_refuse_a_broken_record() {
    let bas = vec![0, 1, 1, 1, 1, 6, 7];
    assert_eq!(ao_offsets(CintType::Spheric, &bas), Err(CintError::RecordWidth));
    let mut longer = flat(&[(0, 1), (1, 1)]);
    longer.push(0);
    assert_eq!(ao_offsets(CintType::Cartesian, &longer), Err(CintError::RecordWidth));
}

#[test]
fn offsets_refuse_negative_fields() {
    assert_eq!(
        ao_offsets(CintType::Spheric, &flat(&[(0, 1), (-1, 1)])),
        Err(CintError::NegativeShell)
    );
    assert_eq!(
        ao_offsets(CintType::Spheric, &flat(&[(0, -3), (1, 1)])),
        Err(CintError::NegativeShell)
    );
}

#[test]
fn negative_field_comes_before_overflow() {
    let bas = flat(&[(0, i32::MAX), (0, i32::MAX), (0, -1)]);
    assert_eq!(ao_offsets(CintType::Spheric, &bas), Err(CintError::NegativeShell));
}

#[test]
fn offsets_refuse_more_components_than_i32() {
    let fits = flat(&[(0, i32::MAX - 1), (0, 1)]);
    assert_eq!(ao_offsets(CintType::Spheric, &fits), Ok(vec![0, i32::MAX - 1, i32::MAX]));
    let over = flat(&[(0, i32::MAX - 1), (0, 2)]);
    assert_eq!(ao_offsets(CintType::Spheric, &over), Err(CintError::ComponentOverflow));
    let one_shell = flat(&[(0, 1), (1, i32::MAX)]);
    assert_eq!(ao_offsets(CintType::Cartesian, &one_shell), Err(CintError::ComponentOverflow));
    let cart_only = flat(&[(65535, 1)]);
    assert_eq!(ao_offsets(CintType::Spheric, &cart_only), Ok(vec![0, 131071]));
    assert_eq!(ao_offsets(CintType::Cartesian, &cart_only), Err(CintError::ComponentOverflow));
}

#[test]
fn conventions_coincide_on_s_shells() {
    let bas = flat(&[(0, 1), (0, 3), (0, 2)]);
    assert_eq!(ao_offsets(CintType::Spheric, &bas), Ok(vec![0, 1, 4, 6]));
    assert_eq!(ao_offsets(CintType::Cartesian, &bas), Ok(vec![0, 1, 4, 6]));
}

#[test]
fn conventions_coincide_on_p_shells_and_empty_shells() {
    let bas = flat(&[(1, 2), (0, 1), (5, 0), (1, 1)]);
    assert_eq!(ao_offsets(CintType::Spheric, &bas), Ok(vec![0, 6, 7, 7, 10]));
    assert_eq!(ao_offsets(CintType::Cartesian, &bas), Ok(vec![0, 6, 7, 7, 10]));
}

#[test]
fn conventions_differ_from_the_first_d_shell_on() {
    let bas = flat(&[(0, 1), (1, 1), (2, 1), (0, 1)]);
    let spheric = ao_offsets(CintType::Spheric, &bas).unwrap();
    let cartesian = ao_offsets(CintType::Cartesian, &bas).unwrap();
    assert_eq!(spheric, vec![0, 1, 4, 9, 10]);
    assert_eq!(cartesian, vec![0, 1, 4, 10, 11]);
    assert_ne!(spheric, cartesian);
    assert_eq!(spheric[..3], cartesian[..3]);
    for k in 3..5 {
        assert!(spheric[k] < cartesian[k]);
    }
}
