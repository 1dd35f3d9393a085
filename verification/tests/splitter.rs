use sync_splitter::SyncSplitter;

#[test]
fn works_when_popping_exact_slice_length() {
    let mut splitter = SyncSplitter::new(vec![1u32, 2, 3, 4, 5]);

    assert_eq!(splitter.pop_n(0), Some(0));
    assert_eq!(splitter.pop_n(1), Some(0));
    assert_eq!(*splitter.read(0), 1);
    assert_eq!(splitter.pop(), Some(1));
    assert_eq!(*splitter.read(1), 2);
    assert_eq!(splitter.pop_n(2), Some(2));
    assert_eq!(*splitter.read(2), 3);
    assert_eq!(*splitter.read(3), 4);
    assert_eq!(splitter.pop_n(1), Some(4));
    assert_eq!(*splitter.read(4), 5);
    assert_eq!(splitter.done().0, 5);
}

#[test]
fn works_when_running_out_of_slice() {
    let mut splitter = SyncSplitter::new(vec![1u32, 2, 3, 4, 5]);

    assert_eq!(splitter.pop_n(3), Some(0));
    assert_eq!(splitter.pop_n(3), None);
    // The failed claim of a length the buffer could hold pins the
    // cursor at the capacity, so even a single element is refused now.
    assert_eq!(splitter.pop(), None);
    assert_eq!(splitter.pop_two(), None);
    assert_eq!(splitter.done().0, 5);
}

#[test]
fn reads_what_was_written() {
    let mut splitter = SyncSplitter::new(vec![1u32, 2, 3, 4, 5, 6]);

    let one_to_three = splitter.pop_n(3).unwrap();
    let four = splitter.pop().unwrap();
    let five = splitter.pop_n(1).unwrap();

    splitter.write(one_to_three, 100);
    splitter.write(one_to_three + 1, 200);
    splitter.write(one_to_three + 2, 300);
    splitter.write(four, 400);
    splitter.write(five, 500);

    let (count, buffer) = splitter.done();
    assert_eq!(count, 5);
    assert_eq!(buffer, vec![100u32, 200, 300, 400, 500, 6]);
}

#[test]
fn len_does_not_underflow() {
    let mut splitter = SyncSplitter::new(vec![1u32, 2, 3, 4, 5]);

    assert_eq!(splitter.pop_n(2), Some(0));
    // 100 elements can never fit in a buffer of 5: the claim fails
    // without moving the cursor, and smaller claims still succeed.
    assert_eq!(splitter.pop_n(100), None);
    assert_eq!(splitter.pop_n(1), Some(2));
    assert_eq!(splitter.pop(), Some(3));
    assert_eq!(splitter.done().0, 4);
}

#[test]
fn next_does_not_overflow() {
    let mut splitter = SyncSplitter::new(vec![(); isize::MAX as usize]);
    assert!(splitter.pop_n(isize::MAX as usize).is_some());
    assert!(splitter.pop().is_none());
}

#[test]
fn isize_max_is_ok() {
    let _splitter = SyncSplitter::new(vec![(); isize::MAX as usize]);
}

#[test]
fn isize_max_minus_one_then_pop_min_is_ok() {
    let mut splitter = SyncSplitter::new(vec![(); isize::MAX as usize - 1]);
    assert_eq!(splitter.pop(), Some(0));
}

#[test]
fn exact_fit_claim_exhausts() {
    let mut splitter = SyncSplitter::new(vec![0u8; 5]);
    assert_eq!(splitter.pop_n(5), Some(0));
    assert_eq!(splitter.pop_n(0), None);
    assert_eq!(splitter.pop(), None);
    assert_eq!(splitter.done().0, 5);
}

#[test]
fn over_capacity_claim_on_fresh_splitter_fails() {
    let mut splitter = SyncSplitter::new(vec![0u8; 5]);
    assert_eq!(splitter.pop_n(6), None);
    assert_eq!(splitter.done().0, 0);
}

#[test]
fn exhaustion_is_permanent() {
    let mut splitter = SyncSplitter::new(vec![0u8; 5]);
    assert_eq!(splitter.pop_n(4), Some(0));
    assert_eq!(splitter.pop_n(2), None);
    assert_eq!(splitter.pop_n(0), None);
    assert_eq!(splitter.pop_n(1), None);
    assert_eq!(splitter.pop(), None);
    assert_eq!(splitter.pop_two(), None);
    assert_eq!(splitter.done().0, 5);
}

#[test]
fn zero_length_claim_before_exhaustion_is_a_no_op() {
    let mut splitter = SyncSplitter::new(vec![0u8; 5]);
    assert_eq!(splitter.pop_n(0), Some(0));
    assert_eq!(splitter.pop(), Some(0));
    assert_eq!(splitter.pop_n(0), Some(1));
    assert_eq!(splitter.pop_n(0), Some(1));
    assert_eq!(splitter.done().0, 1);
}

#[test]
fn empty_buffer_is_exhausted_from_the_start() {
    let mut splitter = SyncSplitter::new(Vec::<u8>::new());
    assert_eq!(splitter.pop_n(0), None);
    assert_eq!(splitter.pop(), None);
    assert_eq!(splitter.done().0, 0);
}

#[test]
fn pop_two_returns_adjacent_offsets() {
    let mut splitter = SyncSplitter::new(vec![0u8; 6]);
    assert_eq!(splitter.pop_two(), Some(0));
    assert_eq!(splitter.pop_two(), Some(2));
    assert_eq!(splitter.pop_two(), Some(4));
    assert_eq!(splitter.pop_two(), None);
    assert_eq!(splitter.done().0, 6);
}

// Interleaved single-element claims from several workers: every claimed
// cell receives exactly one worker's marker, the markers never overlap,
// and no cell of the claimed prefix is left unwritten.
#[test]
fn interleaved_claims_write_unique_markers() {
    let workers: usize = 3;
    let per_worker: usize = 4;
    let n: usize = workers * per_worker;
    let mut splitter = SyncSplitter::new(vec![0usize; n]);

    let mut claimed: Vec<Vec<usize>> = vec![Vec::new(); workers];
    for _ in 0..per_worker {
        for worker in 0..workers {
            let offset = splitter.pop().expect("buffer sized for all claims");
            splitter.write(offset, worker + 1);
            claimed[worker].push(offset);
        }
    }

    let (count, buffer) = splitter.done();
    assert_eq!(count, n);
    for (worker, offsets) in claimed.iter().enumerate() {
        assert_eq!(offsets.len(), per_worker);
        for &offset in offsets {
            assert_eq!(buffer[offset], worker + 1);
        }
    }
    // Every cell of the claimed prefix carries some worker's marker.
    for cell in buffer {
        assert!(1 <= cell && cell <= workers);
    }
}
