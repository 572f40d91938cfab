use blockpipe::pool::{copy_bytes, Block, TaskPool};

#[test]
fn pool_yields_in_submission_order() {
    let mut p = TaskPool::new(3);
    assert!(p.is_empty());
    assert!(p.has_remaining());
    assert_eq!(p.limit(), 3);
    for id in 1..=3u128 {
        p.push_back(Block::new(id, vec![id as u8; 2]));
    }
    assert_eq!(p.len(), 3);
    assert!(!p.has_remaining());
    for id in 1..=3u128 {
        let b = p.next().unwrap();
        assert_eq!(b.id, id);
        assert_eq!(b.payload, vec![id as u8; 2]);
    }
    assert!(p.next().is_none());
    assert!(p.is_empty());
}

#[test]
fn pool_push_front_comes_out_first() {
    let mut p = TaskPool::new(2);
    p.push_back(Block::new(1, vec![1]));
    p.push_back(Block::new(2, vec![2]));
    let head = p.next().unwrap();
    p.push_front(head);
    assert_eq!(p.len(), 2);
    assert_eq!(p.next().unwrap().id, 1);
    assert_eq!(p.next().unwrap().id, 2);
}

#[test]
fn pool_keeps_work_beyond_its_limit() {
    let mut p = TaskPool::new(1);
    p.push_back(Block::new(1, vec![]));
    assert!(!p.has_remaining());
    p.push_back(Block::new(2, vec![]));
    p.push_back(Block::new(3, vec![]));
    assert_eq!(p.len(), 3);
    assert_eq!(p.next().unwrap().id, 1);
    assert_eq!(p.next().unwrap().id, 2);
    assert!(!p.has_remaining());
    assert_eq!(p.next().unwrap().id, 3);
    assert!(p.has_remaining());
}

#[test]
fn pool_with_no_limit_has_no_room() {
    let p = TaskPool::new(0);
    assert!(p.is_empty());
    assert!(!p.has_remaining());
}

#[test]
fn block_size_and_duplicate() {
    let b = Block::new(77, vec![5, 6, 7]);
    assert_eq!(b.size(), 3);
    let c = b.duplicate();
    assert_eq!(c.id, 77);
    assert_eq!(c.payload, vec![5, 6, 7]);
    assert_eq!(Block::new(1, Vec::new()).size(), 0);
    assert_eq!(copy_bytes(&vec![1, 2, 3]), vec![1, 2, 3]);
    assert!(copy_bytes(&Vec::new()).is_empty());
}
