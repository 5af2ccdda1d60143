use biubo_waf::queue::{per_worker_capacity, AsyncDetectionQueue, DetectionTask};

fn task(id: &str) -> DetectionTask {
    DetectionTask {
        request_id: id.to_string(),
        host: "example.com".to_string(),
        url: "/".to_string(),
        method: "GET".to_string(),
        headers: vec![],
        cookies: vec![],
        body: vec![],
        args: vec![],
    }
}

#[test]
fn queue_without_workers_refuses() {
    let q = AsyncDetectionQueue::new(Vec::new());
    assert_eq!(q.worker_count(), 0);
    assert_eq!(q.submit(task("a")), Err("No detection workers available".to_string()));
}

#[test]
fn queue_round_robin_until_full() {
    let (tx1, mut rx1) = tokio::sync::mpsc::channel::<DetectionTask>(1);
    let (tx2, mut rx2) = tokio::sync::mpsc::channel::<DetectionTask>(1);
    let q = AsyncDetectionQueue::new(vec![tx1, tx2]);
    assert_eq!(q.submit(task("a")), Ok(()));
    assert_eq!(q.submit(task("b")), Ok(()));
    assert_eq!(q.submit(task("c")), Err("All detection worker channels are full".to_string()));
    assert_eq!(rx1.try_recv().unwrap().request_id, "a");
    assert_eq!(rx2.try_recv().unwrap().request_id, "b");
    assert_eq!(q.submit(task("d")), Ok(()));
    assert_eq!(rx2.try_recv().unwrap().request_id, "d");
}

#[test]
fn queue_skips_closed_channels() {
    let (tx1, rx1) = tokio::sync::mpsc::channel::<DetectionTask>(4);
    let (tx2, mut rx2) = tokio::sync::mpsc::channel::<DetectionTask>(4);
    drop(rx1);
    let q = AsyncDetectionQueue::new(vec![tx1, tx2]);
    assert_eq!(q.submit(task("a")), Ok(()));
    assert_eq!(rx2.try_recv().unwrap().request_id, "a");
}

#[test]
fn per_worker_capacity_shares_the_queue() {
    assert_eq!(per_worker_capacity(1000, 3), 333);
    assert_eq!(per_worker_capacity(2, 8), 1);
    assert_eq!(per_worker_capacity(0, 1), 1);
}
