use cotton::array::{enumerate, zip};

#[test]
fn enumerate_pairs_each_element_with_its_index() {
    let v = vec![10u32, 20, 30];
    assert_eq!(enumerate(&v), vec![(0, 10), (1, 20), (2, 30)]);
    let empty: Vec<u32> = vec![];
    assert_eq!(enumerate(&empty), vec![]);
}

#[test]
fn zip_pairs_positionally() {
    let left = vec![1u8, 2, 3];
    let right = vec!['a', 'b', 'c'];
    assert_eq!(zip(&left, &right), vec![(1, 'a'), (2, 'b'), (3, 'c')]);
}
