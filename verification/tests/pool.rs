use thumbnail_processor::pool::WorkerPool;

#[test]
fn pool_never_runs_more_than_workers_and_reports_in_order() {
    // three images, two workers: the third waits for a free worker
    let mut pool = WorkerPool::new(3, 2);
    assert!(pool.can_start());
    assert_eq!(pool.start(), 0);
    assert_eq!(pool.start(), 1);
    assert!(!pool.can_start());
    assert_eq!(pool.running(), 2);
    assert_eq!(pool.next_report(), None);

    // image 1 finishes first; image 0 is still unreported, so nothing yet
    pool.finish(1, false);
    assert_eq!(pool.running(), 1);
    assert_eq!(pool.next_report(), None);
    assert!(pool.can_start());
    assert_eq!(pool.start(), 2);

    pool.finish(0, true);
    assert_eq!(pool.next_report(), Some((0, true)));
    assert_eq!(pool.next_report(), Some((1, false)));
    assert_eq!(pool.next_report(), None);
    assert!(!pool.is_done());
    assert!(pool.is_running(2));
    assert!(!pool.is_running(0));

    pool.finish(2, true);
    assert_eq!(pool.next_report(), Some((2, true)));
    assert!(pool.is_done());
    assert_eq!(pool.succeeded(), 2);
    assert_eq!(pool.failed(), 1);
    assert_eq!(pool.total(), 3);
}

#[test]
fn pool_completes_when_images_exceed_workers() {
    // drive the pool as a run does, always finishing the oldest running image
    for (total, workers) in [(3usize, 2usize), (10, 1), (5, 8), (0, 1), (7, 3)] {
        let mut pool = WorkerPool::new(total, workers);
        let mut running: Vec<usize> = Vec::new();
        let mut reported = Vec::new();
        let mut steps = 0;
        while !pool.is_done() {
            steps += 1;
            assert!(steps < 1000, "pool stalled");
            while pool.can_start() {
                running.push(pool.start());
                assert!(pool.running() <= workers);
            }
            while let Some((i, ok)) = pool.next_report() {
                reported.push((i, ok));
            }
            if pool.is_done() {
                break;
            }
            assert!(pool.running() > 0);
            let i = running.remove(0);
            pool.finish(i, i % 2 == 0);
        }
        let indices: Vec<usize> = reported.iter().map(|(i, _)| *i).collect();
        assert_eq!(indices, (0..total).collect::<Vec<_>>());
        assert_eq!((pool.succeeded() + pool.failed()) as usize, total);
        assert_eq!(pool.succeeded() as usize, (total + 1) / 2);
    }
}

#[test]
fn empty_pool_is_done_at_once() {
    let pool = WorkerPool::new(0, 4);
    assert!(pool.is_done());
    assert!(!pool.can_start());
}

#[test]
fn pool_without_workers_never_starts() {
    let pool = WorkerPool::new(2, 0);
    assert!(!pool.can_start());
    assert!(!pool.is_done());
    assert_eq!(pool.running(), 0);
}
