use iterators_collection::{Exclude, VecIter};

fn collect(mut iter: Exclude<VecIter<i32>>) -> Vec<i32> {
    let mut out = Vec::new();
    while let Some(i) = iter.next() {
        out.push(i);
    }
    out
}

#[test]
fn exclude() {
    let array = [1, 2, 3, 4, 5];
    let array_iter = VecIter::new(array.to_vec());
    let iter = Exclude::with_blacklist(array_iter, vec![3, 5]);

    assert_eq!(collect(iter), vec![1, 2, 4]);
}

#[test]
fn exclude_construction() {
    let array = [1, 2, 3, 4, 5];
    let array_iter = VecIter::new(array.to_vec());
    let iter1 = Exclude::with_blacklist(array_iter.clone(), vec![3, 5]);

    let mut iter2 = Exclude::new(array_iter);
    iter2.exclude(3);
    iter2.exclude(5);
    iter2.exclude(3); // already in the blacklist: not appended again

    assert_eq!(iter1.blacklist(), iter2.blacklist());

    iter2.force_exclude(3); // appended even though it is there
    assert_eq!(iter2.blacklist(), &vec![3, 5, 3]);
}

#[test]
fn exclude_new_starts_with_empty_blacklist() {
    let iter = Exclude::new(VecIter::new(vec![7, 8]));
    assert!(iter.blacklist().is_empty());
    assert_eq!(collect(iter), vec![7, 8]);
}

#[test]
fn exclude_skips_repeated_and_adjacent_entries() {
    let iter = Exclude::with_blacklist(VecIter::new(vec![3, 3, 1, 5, 3, 2, 5]), vec![3, 5]);
    assert_eq!(collect(iter), vec![1, 2]);
}

#[test]
fn exclude_everything_listed_yields_none() {
    let mut iter = Exclude::with_blacklist(VecIter::new(vec![4, 4, 4]), vec![4]);
    assert_eq!(iter.next(), None);
    assert_eq!(iter.next(), None);
}

#[test]
fn exclude_added_mid_traversal_takes_effect() {
    let mut iter = Exclude::new(VecIter::new(vec![1, 2, 3, 2, 1]));
    assert_eq!(iter.next(), Some(1));
    iter.exclude(2);
    assert_eq!(iter.next(), Some(3));
    iter.exclude(1);
    assert_eq!(iter.next(), None);
}

#[test]
fn exclude_over_empty_base() {
    let mut iter = Exclude::with_blacklist(VecIter::new(Vec::new()), vec![1]);
    assert_eq!(iter.next(), None);
}
