use sfy::log::LogQueue;

fn log(q: &mut LogQueue, msg: &str) {
    q.log(msg);
}

#[test]
fn log_short_mesg() {
    let mut q = LogQueue::new();
    log(&mut q, "asdfasdf");
    assert_eq!(q.dequeue().unwrap().as_str(), "asdfasdf");
    assert!(q.dequeue().is_none());
}

#[test]
fn log_too_long_mesg() {
    let mut q = LogQueue::new();
    log(&mut q, "asdfasdfrrrrrrrrrrrrrrrrrrrrrrrrrrrrrrrrrrrrrrrrrrrrrrrrrrrrrrrrrrrrrrrrrrrrrrrrrrrrrrrrrrrrrrrrrrrrrrrrrrrrrrrrrrrrrrrrrrrrrrrrrrrrrrrrrrrrrrrrrrrrrrrrrrrrrrrrrrrrrrrrrrrrrrrrrrrrrrrrrrrrrrrrrrrrrrrrrrrrrrrrrrrrrrrrrrrrrrrrrrrrrrrrrrrrrrrrrrrrrrrrrrrrrrrrrrrrrrr");
    // too long for a message: queued empty
    assert_eq!(q.dequeue().unwrap().as_str(), "");
}

#[test]
fn log_exactly_256_mesg() {
    let mut q = LogQueue::new();
    let msg = "rrrrrrrrrrrrrrrrrrrrrrrrrrrrrrrrrrrrrrrrrrrrrrrrrrrrrrrrrrrrrrrrrrrrrrrrrrrrrrrrrrrrrrrrrrrrrrrrrrrrrrrrrrrrrrrrrrrrrrrrrrrrrrrrrrrrrrrrrrrrrrrrrrrrrrrrrrrrrrrrrrrrrrrrrrrrrrrrrrrrrrrrrrrrrrrrrrrrrrrrrrrrrrrrrrrrrrrrrrrrrrrrrrrrrrrrrrrrrrrrrrrrrrrrrrrrrrrr";
    log(&mut q, msg);
    assert_eq!(msg.len(), 256);
    assert_eq!(q.dequeue().unwrap().as_str(), msg);
}

#[test]
fn exhaust_queue() {
    let mut q = LogQueue::new();
    for _ in 0..256 {
        log(&mut q, "asdfasdf");
    }
    let mut n = 0;
    while q.dequeue().is_some() {
        n += 1;
    }
    assert_eq!(n, 4);
}

#[test]
fn log_keeps_order() {
    let mut q = LogQueue::new();
    log(&mut q, "first");
    log(&mut q, "second");
    assert_eq!(q.dequeue().unwrap().as_str(), "first");
    log(&mut q, "third");
    assert_eq!(q.dequeue().unwrap().as_str(), "second");
    assert_eq!(q.dequeue().unwrap().as_str(), "third");
    assert!(q.dequeue().is_none());
}
