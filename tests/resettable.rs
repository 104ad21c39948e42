use iterators_collection::{Count, ResettableIterator, SeqIterator};

#[test]
fn count_iterates_well() {
    let expected = [0, 1, 2, 3, 4, 5];
    let mut iter = Count { begin: 0, cur: 0, end: 6 };

    let mut n = 0;
    while let Some(i) = iter.next() {
        assert_eq!(expected[n], i);
        n += 1;
    }
    assert_eq!(n, expected.len());
}

#[test]
fn count_resets_well() {
    let mut iter = Count { begin: 0, cur: 0, end: 6 };
    iter.next();
    iter.next();

    iter.reset();
    assert_eq!(iter.next(), Some(0));
}

#[test]
fn resettable_map_iterates_well() {
    let mut counter = 0;
    let iter = Count { begin: 0, cur: 0, end: 6 };
    let mut iter = iter.resettable_map(|x| x + 1);

    while let Some(i) = iter.next() {
        counter += 1;
        assert_eq!(counter, i);
    }
    assert_eq!(counter, 6);
}

#[test]
fn resettable_map_resets_well() {
    let iter = Count { begin: 0, cur: 0, end: 6 };
    let mut iter = iter.resettable_map(|x| x + 1);

    iter.next();
    iter.next();
    iter.next();

    iter.reset();

    assert_eq!(iter.next(), Some(1));
}

#[test]
fn resettable_map_replays_whole_output_after_reset() {
    let iter = Count { begin: 0, cur: 0, end: 5 };
    let mut iter = iter.resettable_map(|x| x * 10 + 3);

    let mut first = Vec::new();
    while let Some(i) = iter.next() {
        first.push(i);
    }
    assert_eq!(first, vec![3, 13, 23, 33, 43]);

    iter.reset();
    iter.next();
    iter.next();
    iter.reset();

    let mut second = Vec::new();
    while let Some(i) = iter.next() {
        second.push(i);
    }
    assert_eq!(second, first);
}

#[test]
fn resettable_map_over_empty_base_yields_nothing() {
    let iter = Count { begin: 4, cur: 4, end: 4 };
    let mut iter = iter.resettable_map(|x| x + 1);
    assert_eq!(iter.next(), None);
    iter.reset();
    assert_eq!(iter.next(), None);
}

#[test]
fn reset_clone_leaves_source_in_place() {
    let mut iter = Count { begin: 2, cur: 2, end: 8 };
    iter.next();
    iter.next();

    let mut rewound = iter.reset_clone();
    assert_eq!(rewound.next(), Some(2));
    assert_eq!(iter.next(), Some(4));
}
