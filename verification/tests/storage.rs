use rewind::storage::cuboid::Cuboid;
use rewind::storage::purse::Purse;
use rewind::storage::slice::{ArrayMatrix, Matrix, Slice, SparseMatrix};
use rewind::storage::AList;

#[test]
fn purse_new_is_empty() {
    let purse: Purse<u32> = Purse::new();
    assert_eq!(purse.len(), 0);
}

#[test]
fn purse_new_filled_repeats_the_element() {
    let purse = Purse::new_filled(3, 7u32);
    assert_eq!(purse.len(), 3);
    assert_eq!(*purse.index(0), 7);
    assert_eq!(*purse.index(1), 7);
    assert_eq!(*purse.index(2), 7);
    let none = Purse::new_filled(0, 7u32);
    assert_eq!(none.len(), 0);
}

#[test]
fn purse_set_leaves_the_old_version() {
    let old = Purse::new_filled(3, 1u32);
    let new = old.set(1, 9);
    assert_eq!(*new.index(0), 1);
    assert_eq!(*new.index(1), 9);
    assert_eq!(*new.index(2), 1);
    assert_eq!(new.len(), 3);
    assert_eq!(*old.index(1), 1);
}

#[test]
fn purse_set_shares_untouched_slots() {
    let old = Purse::new_filled(2, String::from("shared"));
    let new = old.set(0, String::from("fresh"));
    assert!(std::ptr::eq(old.index(1), new.index(1)));
    assert!(!std::ptr::eq(old.index(0), new.index(0)));
}

#[test]
fn purse_push_appends() {
    let old: Purse<u32> = Purse::new();
    let one = old.push(4);
    let two = one.push(5);
    assert_eq!(old.len(), 0);
    assert_eq!(one.len(), 1);
    assert_eq!(two.len(), 2);
    assert_eq!(*two.index(0), 4);
    assert_eq!(*two.index(1), 5);
    assert!(std::ptr::eq(one.index(0), two.index(0)));
}

#[test]
fn purse_clone_has_the_same_elements() {
    let purse = Purse::new_filled(2, 3u8).set(1, 4);
    let copy = purse.clone();
    assert_eq!(copy.len(), 2);
    assert_eq!(*copy.index(0), 3);
    assert_eq!(*copy.index(1), 4);
}

#[test]
fn purse_iter_walks_front_to_back() {
    let purse = Purse::new().push(1u32).push(2).push(3);
    let mut iter = purse.into_iter();
    assert_eq!(iter.next(), Some(&1));
    assert_eq!(iter.next(), Some(&2));
    assert_eq!(iter.next(), Some(&3));
    assert_eq!(iter.next(), None);
    assert_eq!(iter.next(), None);
}

#[test]
fn array_matrix_reads_what_was_written() {
    let empty: ArrayMatrix<u32> = ArrayMatrix::new(2, 3);
    assert_eq!(empty.get(1, 2), None);
    let one = empty.set(1, 2, 5);
    assert_eq!(one.get(1, 2), Some(&5));
    assert_eq!(one.get(0, 2), None);
    assert_eq!(one.get(1, 1), None);
    assert_eq!(empty.get(1, 2), None);
    let two = one.set(0, 0, 6).set(1, 2, 7);
    assert_eq!(two.get(0, 0), Some(&6));
    assert_eq!(two.get(1, 2), Some(&7));
}

#[test]
fn array_matrix_keeps_cells_apart_when_not_square() {
    let mut matrix: ArrayMatrix<usize> = ArrayMatrix::new(3, 2);
    for x in 0..3 {
        for y in 0..2 {
            matrix = matrix.set(x, y, 10 * x + y);
        }
    }
    for x in 0..3 {
        for y in 0..2 {
            assert_eq!(matrix.get(x, y), Some(&(10 * x + y)));
        }
    }
}

#[test]
fn sparse_matrix_replaces_or_appends() {
    let empty: SparseMatrix<u32> = SparseMatrix::new(4, 4);
    assert_eq!(empty.get(1, 1), None);
    let one = empty.set(1, 1, 5);
    assert_eq!(one.get(1, 1), Some(&5));
    assert_eq!(one.get(1, 2), None);
    let two = one.set(1, 1, 6);
    assert_eq!(two.get(1, 1), Some(&6));
    assert_eq!(one.get(1, 1), Some(&5));
    assert_eq!(two.size(), one.size());
    let three = two.set(2, 1, 7);
    assert_eq!(three.get(1, 1), Some(&6));
    assert_eq!(three.get(2, 1), Some(&7));
}

#[test]
fn sparse_matrix_size_counts_coordinates_and_values() {
    let pair = std::mem::size_of::<(usize, usize)>();
    let empty: SparseMatrix<u32> = SparseMatrix::new(4, 4);
    assert_eq!(empty.size(), 0);
    let two = empty.set(0, 0, 1).set(3, 3, 2);
    assert_eq!(two.size(), 2 * pair + 2 * 4);
}

#[test]
fn sparse_matrix_packable_compares_with_the_dense_size() {
    let empty: SparseMatrix<u32> = SparseMatrix::new(2, 2);
    assert!(!empty.packable());
    let one = empty.set(0, 0, 1);
    assert!(one.packable());
    let wide: SparseMatrix<u32> = SparseMatrix::new(100, 100);
    assert!(!wide.set(0, 0, 1).packable());
    let flat: SparseMatrix<u32> = SparseMatrix::new(0, 5);
    assert!(flat.packable());
}

#[test]
fn matrix_starts_sparse_and_stays_so() {
    let matrix: Matrix<u32> = Matrix::new(3, 3);
    assert!(matches!(matrix, Matrix::SMatrix(_)));
    assert_eq!(matrix.get(2, 2), None);
    let written = matrix.set(2, 2, 8);
    assert!(matches!(written, Matrix::SMatrix(_)));
    assert_eq!(written.get(2, 2), Some(&8));
    assert_eq!(written.get(2, 1), None);
}

#[test]
fn matrix_dense_variant_reads_and_writes() {
    let dense: Matrix<u32> = Matrix::AMatrix(ArrayMatrix::new(2, 2));
    let written = dense.set(1, 0, 3);
    assert!(matches!(written, Matrix::AMatrix(_)));
    assert_eq!(written.get(1, 0), Some(&3));
    assert_eq!(written.get(0, 1), None);
}

#[test]
fn slice_reads_default_until_written() {
    let slice = Slice::new(4, 2, 0u32);
    assert_eq!(*slice.get(0, 0), 0);
    assert_eq!(*slice.get(3, 1), 0);
    let written = slice.set(3, 1, 9).unwrap();
    assert_eq!(*written.get(3, 1), 9);
    assert_eq!(*written.get(3, 0), 0);
    assert_eq!(*slice.get(3, 1), 0);
}

#[test]
fn slice_outside_reads_default_and_rejects_writes() {
    let slice = Slice::new(4, 2, 7u32).set(0, 0, 1).unwrap();
    assert_eq!(*slice.get(4, 0), 7);
    assert_eq!(*slice.get(0, 2), 7);
    assert_eq!(*slice.get(usize::MAX, usize::MAX), 7);
    assert!(slice.set(4, 0, 1).is_none());
    assert!(slice.set(0, 2, 1).is_none());
    assert!(slice.set(3, 1, 1).is_some());
}

#[test]
fn cuboid_reads_default_until_written() {
    let cuboid = Cuboid::new(2, 3, 4, 5u32);
    for x in 0..2 {
        for y in 0..3 {
            for z in 0..4 {
                assert_eq!(*cuboid.get(x, y, z), 5);
            }
        }
    }
    assert_eq!(*cuboid.get(2, 0, 0), 5);
    assert_eq!(*cuboid.get(0, 3, 0), 5);
    assert_eq!(*cuboid.get(0, 0, 4), 5);
}

#[test]
fn cuboid_set_changes_one_place() {
    let old = Cuboid::new(2, 3, 4, 0u32);
    let new = old.set(1, 2, 3, 8).unwrap();
    for x in 0..2 {
        for y in 0..3 {
            for z in 0..4 {
                let expected = if (x, y, z) == (1, 2, 3) { 8 } else { 0 };
                assert_eq!(*new.get(x, y, z), expected);
                assert_eq!(*old.get(x, y, z), 0);
            }
        }
    }
}

#[test]
fn cuboid_set_outside_has_no_effect() {
    let cuboid = Cuboid::new(2, 3, 4, 0u32);
    assert!(cuboid.set(2, 0, 0, 1).is_none());
    assert!(cuboid.set(0, 3, 0, 1).is_none());
    assert!(cuboid.set(0, 0, 4, 1).is_none());
    assert!(cuboid.set(1, 2, 3, 1).is_some());
}

#[test]
fn cuboid_set_shares_the_other_layers() {
    let old = Cuboid::new(2, 2, 3, String::from("stone")).set(0, 0, 0, String::from("dirt")).unwrap();
    let new = old.set(1, 1, 1, String::from("water")).unwrap();
    assert!(std::ptr::eq(old.get(0, 0, 0), new.get(0, 0, 0)));
    assert_eq!(new.get(1, 1, 1), "water");
    assert_eq!(old.get(1, 1, 1), "stone");
    assert_eq!(new.get(1, 1, 2), "stone");
}

#[test]
fn cuboid_clone_reads_the_same() {
    let cuboid = Cuboid::new(2, 2, 2, 0u8).set(1, 0, 1, 4).unwrap();
    let copy = cuboid.clone();
    assert_eq!(*copy.get(1, 0, 1), 4);
    assert_eq!(*copy.get(0, 0, 0), 0);
}

#[test]
fn alist_push_puts_in_front() {
    let empty: AList<u32> = AList::new();
    let one = empty.push(1);
    let mut two = one.push(2);
    assert_eq!(two.pop().map(|e| *e), Some(2));
    assert_eq!(two.pop().map(|e| *e), Some(1));
    assert_eq!(two.pop().map(|e| *e), None);
    assert_eq!(two.pop().map(|e| *e), None);
}

#[test]
fn alist_pop_leaves_other_handles() {
    let list = AList::new().push(1u32).push(2);
    let mut walker = list.clone();
    assert_eq!(walker.pop().map(|e| *e), Some(2));
    let mut again = list.clone();
    assert_eq!(again.pop().map(|e| *e), Some(2));
    assert_eq!(again.pop().map(|e| *e), Some(1));
    assert_eq!(walker.pop().map(|e| *e), Some(1));
}
