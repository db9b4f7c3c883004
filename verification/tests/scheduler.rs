use bereal_export::export::{
    worker_count, chunk_size_for, calculate_chunk_size, chunk_bounds, item_success,
    fold_item_outcomes, reporter_step, ReporterState,
};

#[test]
fn five_items_full_parallelism_on_four_units() {
    // 5 items, 100% parallelism, 4 units: 4 workers, chunks of 2, three
    // chunks of sizes 2, 2 and 1.
    let workers = worker_count(100, 4);
    assert_eq!(workers, 4);
    let chunk = chunk_size_for(5, workers);
    assert_eq!(chunk, 2);
    let bounds = chunk_bounds(5, chunk);
    assert_eq!(bounds, vec![(0, 2), (2, 4), (4, 5)]);
}

#[test]
fn worker_count_floors_at_one() {
    assert_eq!(worker_count(0, 8), 1);
    assert_eq!(worker_count(1, 8), 1);
    assert_eq!(worker_count(50, 8), 4);
    assert_eq!(worker_count(100, 1), 1);
}

#[test]
fn chunks_cover_every_item_exactly_once() {
    for (len, size) in [(7usize, 3usize), (9, 3), (1, 4), (12, 1)] {
        let bounds = chunk_bounds(len, size);
        let mut covered = vec![0usize; len];
        for (start, end) in &bounds {
            assert!(start < end && *end <= len);
            for item in covered.iter_mut().take(*end).skip(*start) {
                *item += 1;
            }
        }
        assert!(covered.iter().all(|c| *c == 1));
        let total: usize = bounds.iter().map(|(s, e)| e - s).sum();
        assert_eq!(total, len);
    }
}

#[test]
fn no_items_means_no_chunks_and_a_finished_reporter() {
    assert_eq!(chunk_size_for(0, 3), 0);
    assert_eq!(chunk_bounds(0, 0).len(), 0);
    // with zero workers the reporter is done at once and cannot hang
    assert!(matches!(reporter_step(0, 0), ReporterState::Done));
}

#[test]
fn reporter_polls_until_all_workers_finish() {
    assert!(matches!(reporter_step(0, 3), ReporterState::Polling));
    assert!(matches!(reporter_step(2, 3), ReporterState::Polling));
    assert!(matches!(reporter_step(3, 3), ReporterState::Done));
}

#[test]
fn machine_chunk_size_is_positive_for_work() {
    assert!(calculate_chunk_size(100, 17) >= 1);
    assert_eq!(calculate_chunk_size(100, 0), 0);
}

#[test]
fn item_succeeds_only_when_every_job_does() {
    assert!(item_success(&vec![true, true, true]));
    assert!(!item_success(&vec![true, false, true]));
    // an item with no jobs is vacuously successful
    assert!(item_success(&vec![]));
}

#[test]
fn one_failing_job_excludes_the_item_from_the_count() {
    // a 3-job item with a single failure is not counted; the others are
    let outcomes = vec![vec![true, false, true], vec![true, true], vec![]];
    assert_eq!(fold_item_outcomes(&outcomes), 2);
    let all_good = vec![vec![true, true, true], vec![true, true], vec![]];
    assert_eq!(fold_item_outcomes(&all_good), 3);
    assert_eq!(fold_item_outcomes(&vec![]), 0);
}
