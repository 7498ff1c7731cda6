use voice_service::batch::work_batches;

#[test]
fn batches_of_three() {
    assert_eq!(work_batches(7, 3), vec![(0, 3), (3, 6), (6, 7)]);
    assert_eq!(work_batches(6, 3), vec![(0, 3), (3, 6)]);
    assert_eq!(work_batches(2, 30), vec![(0, 2)]);
}

#[test]
fn no_work_gives_no_batch() {
    assert!(work_batches(0, 3).is_empty());
}

#[test]
fn batches_cover_every_item_once() {
    for count in 0..40usize {
        for size in 1..8usize {
            let r = work_batches(count, size);
            let mut next = 0;
            for (k, (a, b)) in r.iter().enumerate() {
                assert_eq!(*a, next);
                assert!(a < b && *b <= a + size);
                assert_eq!(*a, k * size);
                next = *b;
            }
            assert_eq!(next, count);
            for i in 0..count {
                let (a, b) = r[i / size];
                assert!(a <= i && i < b);
            }
        }
    }
}
