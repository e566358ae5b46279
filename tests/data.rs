use numdata::{Data, DataError, NumericElement};

fn sample() -> Data<i32> {
    Data::new(vec![1, 2, 3, 4, 5], vec![5])
}

#[test]
fn five_element_scenario() {
    let d = sample();
    assert_eq!(d.sum(), 15);
    assert_eq!(d.mean(), Ok(3));
    assert_eq!(d.min(), Some(&1));
    assert_eq!(d.max(), Some(&5));
    let s = d.slice(1, 3).unwrap();
    assert_eq!(s.data, vec![2, 3]);
    assert_eq!(s.shape, vec![5]);
    assert_eq!(d.dot(&d), Ok(55));
    assert_eq!(d.render(), "Data: [1, 2, 3, 4, 5] , Shape: [5]");
}

#[test]
fn empty_buffer_scenario() {
    let d: Data<i32> = Data::new(vec![], vec![]);
    assert_eq!(d.sum(), 0);
    assert_eq!(d.min(), None);
    assert_eq!(d.max(), None);
    assert_eq!(d.mean(), Err(DataError::EmptyBufferReduction));
    assert_eq!(d.render(), "Data: [] , Shape: []");
}

#[test]
fn dot_length_mismatch() {
    let a: Data<i32> = Data::new(vec![1, 2, 3], vec![3]);
    let b: Data<i32> = Data::new(vec![1, 2, 3, 4], vec![4]);
    assert_eq!(a.dot(&b), Err(DataError::LengthMismatch));
    assert_eq!(b.dot(&a), Err(DataError::LengthMismatch));
}

#[test]
fn dot_of_empty_buffers_is_zero() {
    let a: Data<i64> = Data::new(vec![], vec![]);
    let b: Data<i64> = Data::new(vec![], vec![2]);
    assert_eq!(a.dot(&b), Ok(0));
}

#[test]
fn mean_times_count_gives_sum() {
    let d: Data<i32> = Data::new(vec![-4, 7, -9], vec![3]);
    let m = d.mean().unwrap();
    assert_eq!(m * 3, d.sum());
    assert_eq!(m, -2);
}

#[test]
fn mean_rounds_toward_zero() {
    let d: Data<i32> = Data::new(vec![1, 2], vec![2]);
    assert_eq!(d.mean(), Ok(1));
    let n: Data<i32> = Data::new(vec![-1, -2], vec![2]);
    assert_eq!(n.mean(), Ok(-1));
    let u: Data<u32> = Data::new(vec![7, 8, 9, 10], vec![4]);
    assert_eq!(u.mean(), Ok(8));
}

#[test]
fn dot_is_symmetric() {
    let a: Data<i64> = Data::new(vec![3, -1, 4], vec![3]);
    let b: Data<i64> = Data::new(vec![2, 7, -5], vec![1, 3]);
    assert_eq!(a.dot(&b), Ok(-21));
    assert_eq!(b.dot(&a), Ok(-21));
}

#[test]
fn dot_with_itself_is_not_negative() {
    let a: Data<i32> = Data::new(vec![-3, -1, -4], vec![3]);
    assert_eq!(a.dot(&a), Ok(26));
}

#[test]
fn slice_keeps_range_and_shape() {
    let d: Data<u64> = Data::new(vec![10, 20, 30, 40], vec![2, 2]);
    let s = d.slice(0, 4).unwrap();
    assert_eq!(s.data, vec![10, 20, 30, 40]);
    let e = d.slice(2, 2).unwrap();
    assert_eq!(e.length(), 0);
    assert_eq!(e.shape, vec![2, 2]);
    let t = d.slice(3, 4).unwrap();
    assert_eq!(t.data, vec![40]);
    assert_eq!(d.data, vec![10, 20, 30, 40]);
}

#[test]
fn slice_rejects_bad_ranges() {
    let d = sample();
    assert_eq!(d.slice(3, 2).err(), Some(DataError::InvalidSliceRange));
    assert_eq!(d.slice(0, 6).err(), Some(DataError::InvalidSliceRange));
    assert_eq!(d.slice(6, 6).err(), Some(DataError::InvalidSliceRange));
}

#[test]
fn slice_is_a_copy() {
    let d = sample();
    let mut s = d.slice(0, 2).unwrap();
    s.push(9);
    assert_eq!(s.data, vec![1, 2, 9]);
    assert_eq!(d.data, vec![1, 2, 3, 4, 5]);
}

#[test]
fn reshape_grows_with_zeros() {
    let mut d = sample();
    assert_eq!(d.reshape(8), Ok(()));
    assert_eq!(d.data, vec![1, 2, 3, 4, 5, 0, 0, 0]);
    assert_eq!(d.shape, vec![5]);
}

#[test]
fn reshape_shrinks_to_prefix() {
    let mut d = sample();
    assert_eq!(d.reshape(2), Ok(()));
    assert_eq!(d.data, vec![1, 2]);
    assert_eq!(d.shape, vec![5]);
    assert_eq!(d.reshape(2), Ok(()));
    assert_eq!(d.data, vec![1, 2]);
}

#[test]
fn reshape_to_zero_is_refused() {
    let mut d = sample();
    assert_eq!(d.reshape(0), Err(DataError::ZeroLengthReshape));
    assert_eq!(d.data, vec![1, 2, 3, 4, 5]);
    assert_eq!(d.shape, vec![5]);
}

#[test]
fn min_and_max_bound_every_element() {
    let d: Data<i32> = Data::new(vec![4, -2, 9, -2, 9, 0], vec![6]);
    let lo = *d.min().unwrap();
    let hi = *d.max().unwrap();
    assert_eq!(lo, -2);
    assert_eq!(hi, 9);
    for x in &d.data {
        assert!(lo <= *x && *x <= hi);
    }
}

#[test]
fn push_and_add_append() {
    let mut d: Data<i32> = Data::new(vec![], vec![1]);
    d.push(4);
    d.add(-6);
    assert_eq!(d.data, vec![4, -6]);
    assert_eq!(d.length(), 2);
    assert_eq!(d.shape(), 2);
    assert_eq!(d.shape, vec![1]);
}

#[test]
fn get_in_and_out_of_range() {
    let d = sample();
    assert_eq!(d.get(0), Some(&1));
    assert_eq!(d.get(4), Some(&5));
    assert_eq!(d.get(5), None);
}

#[test]
fn send_hands_back_the_same_buffer() {
    let d = sample().send();
    assert_eq!(d.data, vec![1, 2, 3, 4, 5]);
    assert_eq!(d.shape, vec![5]);
}

#[test]
fn render_negative_and_wide_values() {
    let d: Data<i64> = Data::new(vec![-7, 0, i64::MIN, i64::MAX], vec![2, 2]);
    assert_eq!(
        d.render(),
        "Data: [-7, 0, -9223372036854775808, 9223372036854775807] , Shape: [2, 2]"
    );
    let u: Data<u64> = Data::new(vec![u64::MAX, 10], vec![]);
    assert_eq!(u.render(), "Data: [18446744073709551615, 10] , Shape: []");
    let w: Data<u32> = Data::new(vec![100], vec![1, 20, 300]);
    assert_eq!(w.render(), "Data: [100] , Shape: [1, 20, 300]");
}

#[test]
fn element_operations() {
    assert_eq!(<i32 as NumericElement>::zero(), 0);
    assert_eq!(<i32 as NumericElement>::from_count(12), 12);
    assert_eq!((-7i32).divided_by(&2), -3);
    assert_eq!(7u64.divided_by(&2), 3);
    assert_eq!(6i64.times(&-7), -42);
    assert_eq!(6u32.plus(&7), 13);
    assert!((-1i32).less_than(&0));
    assert!(!3u64.less_than(&3));
    assert_eq!(i32::MIN.render(), "-2147483648");
}
