use imap_fetcher::ranges::{batch_ranges, FetchRange, BATCH_SIZE};

fn spans(total: u32, batch: u32) -> Vec<(u32, u32)> {
    batch_ranges(total, batch).iter().map(|r| (r.start, r.end)).collect()
}

#[test]
fn ten_messages_make_one_batch() {
    assert_eq!(spans(10, 10), vec![(1, 10)]);
}

#[test]
fn twenty_five_messages_make_three_batches() {
    assert_eq!(spans(25, 10), vec![(1, 10), (11, 20), (21, 25)]);
}

#[test]
fn empty_mailbox_has_no_batches() {
    assert!(batch_ranges(0, BATCH_SIZE).is_empty());
}

#[test]
fn one_message_batch_of_one() {
    assert_eq!(spans(3, 1), vec![(1, 1), (2, 2), (3, 3)]);
}

#[test]
fn batches_partition_the_mailbox() {
    for total in 0u32..60 {
        for batch in 1u32..13 {
            let rs: Vec<FetchRange> = batch_ranges(total, batch);
            let expected = ((total + batch - 1) / batch) as usize;
            assert_eq!(rs.len(), expected);
            let mut next = 1u32;
            for r in &rs {
                assert_eq!(r.start, next);
                assert!(r.start <= r.end);
                assert!(r.end - r.start + 1 <= batch);
                next = r.end + 1;
            }
            assert_eq!(next, total + 1);
            if let Some(last) = rs.last() {
                let size = last.end - last.start + 1;
                let want = if total % batch == 0 { batch } else { total % batch };
                assert_eq!(size, want);
            }
        }
    }
}

#[test]
fn largest_count_is_covered() {
    let rs = batch_ranges(u32::MAX, 1 << 30);
    assert_eq!(rs.len(), 4);
    assert_eq!(rs[3].end, u32::MAX);
    assert_eq!(rs[3].start, 3 * (1 << 30) + 1);
}
