use mqbroker::queue::qbase::Queue;
use mqbroker::queue::queue_object::QueueObject;

fn obj(content: &[u8]) -> QueueObject {
    QueueObject::new(&"MQ_HOST".to_string(), content.to_vec())
}

#[test]
fn fifo_order_over_many_pushes() {
    let mut q = Queue::new(&"orders".to_string());
    let payloads: Vec<Vec<u8>> = vec![b"one".to_vec(), b"two".to_vec(), b"three".to_vec(), b"four".to_vec()];
    for p in &payloads {
        q.push_back(obj(p));
    }
    assert_eq!(q.len(), 4);
    for p in &payloads {
        let got = q.pop_front().expect("queue should still hold messages");
        assert_eq!(&got.content, p);
        assert_eq!(got.virtual_host, "MQ_HOST");
    }
    assert!(q.is_empty());
}

#[test]
fn pop_on_empty_returns_none_not_stale() {
    let mut q = Queue::new(&"orders".to_string());
    q.push_back(obj(b"only"));
    let first = q.pop_front().unwrap();
    assert_eq!(first.content, b"only".to_vec());
    // the already-consumed message must not come back
    assert!(q.pop_front().is_none());
    assert!(q.pop_front().is_none());
}

#[test]
fn peek_does_not_consume() {
    let mut q = Queue::new(&"orders".to_string());
    q.push_back(obj(b"head"));
    q.push_back(obj(b"tail"));
    let peeked = q.peek().unwrap();
    assert_eq!(peeked.content, b"head".to_vec());
    assert_eq!(q.len(), 2);
    let popped = q.pop_front().unwrap();
    assert_eq!(popped.content, b"head".to_vec());
}

#[test]
fn clear_empties_the_queue() {
    let mut q = Queue::new(&"orders".to_string());
    q.push_back(obj(b"a"));
    q.push_back(obj(b"b"));
    q.clear();
    assert!(q.is_empty());
    assert!(q.peek().is_none());
}

#[test]
fn queue_manager_is_idempotent_by_name() {
    let mut m = mqbroker::queue::manager::QueueManager::new();
    m.add(&"orders".to_string());
    {
        let q = m.get_mut(&"orders".to_string()).unwrap();
        q.push_back(obj(b"kept"));
    }
    // a second add under the same name must not overwrite the queue
    m.add(&"orders".to_string());
    let q = m.get(&"orders".to_string()).unwrap();
    assert_eq!(q.len(), 1);
    assert_eq!(m.get_all().len(), 1);
    let removed = m.remove("orders".to_string()).unwrap();
    assert_eq!(removed.len(), 1);
    assert!(m.get(&"orders".to_string()).is_none());
}
