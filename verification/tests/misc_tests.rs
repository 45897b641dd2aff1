use bbsg::counts::{device_count, sum_counts, transformer_count};
use bbsg::rank::rank_desc;
use bbsg::schedule::{
    final_year_projection, install_schedule, nil_schedule, operation_schedule, projection_values,
    year_projection, zero_projection,
};

#[test]
fn rank_largest_first_ties_in_order() {
    assert_eq!(rank_desc(&vec![3, 1, 3, 2]), vec![0, 3, 1, 2]);
    assert_eq!(rank_desc(&vec![]), Vec::<usize>::new());
    assert_eq!(rank_desc(&vec![5]), vec![0]);
    assert_eq!(rank_desc(&vec![1, 1, 1]), vec![0, 1, 2]);
}

#[test]
fn ranks_are_a_permutation() {
    let keys: Vec<u64> = vec![10, 40, 20, 40, 0, 30, 20];
    let r = rank_desc(&keys);
    let mut sorted = r.clone();
    sorted.sort();
    assert_eq!(sorted, (0..keys.len()).collect::<Vec<usize>>());
    for i in 0..keys.len() {
        for k in 0..keys.len() {
            if keys[i] > keys[k] {
                assert!(r[i] < r[k]);
            }
        }
    }
}

#[test]
fn schedules() {
    assert_eq!(install_schedule(2.5f32), vec![2.5, 2.5, 2.5]);
    let op = operation_schedule(0f32, 4.0);
    assert_eq!(op.len(), 15);
    assert_eq!(&op[..3], &[0.0, 0.0, 0.0]);
    assert!(op[3..].iter().all(|x| *x == 4.0));
    assert_eq!(nil_schedule(0f32), vec![0.0]);
}

#[test]
fn projections() {
    let z = zero_projection(2021, 2024, 0f32);
    assert_eq!(z, vec![(2021, 0.0), (2022, 0.0), (2023, 0.0), (2024, 0.0)]);
    assert!(zero_projection(2025, 2024, 0f32).is_empty());
    let f = final_year_projection(0f32, 9.0);
    assert_eq!(f.len(), 12);
    assert_eq!(f[0], (2028, 0.0));
    assert_eq!(f[10], (2038, 0.0));
    assert_eq!(f[11], (2039, 9.0));
    let y = year_projection(&vec![1f32, 2.0, 3.0]);
    assert_eq!(y, vec![(2028, 1.0), (2029, 2.0), (2030, 3.0)]);
    assert_eq!(projection_values(&y), vec![1.0, 2.0, 3.0]);
}

#[test]
fn device_counts() {
    assert_eq!(sum_counts(&vec![1, 2, 3]), 6);
    assert_eq!(sum_counts(&vec![]), 0);
    assert_eq!(transformer_count(&vec![1, 2], &vec![4]), 7);
    assert_eq!(device_count(&vec![1, 2], &vec![4], 10, 20), 37);
}
