use shell_gateway::stream::{batch_chunks, concat_chunks, OutputBatcher, WriteQueue};

#[test]
fn burst_of_small_chunks_is_batched() {
    let chunks: Vec<Vec<u8>> = (0..100u8).map(|i| vec![i; 10]).collect();
    let expected: Vec<u8> = chunks.concat();
    let batches = batch_chunks(chunks, 1024);
    assert_eq!(batches.len(), 1);
    assert_eq!(batches.concat(), expected);

    let chunks: Vec<Vec<u8>> = (0..100u8).map(|i| vec![i; 10]).collect();
    let batches = batch_chunks(chunks, 256);
    assert!(batches.len() < 10);
    assert_eq!(batches.concat(), expected);
    for b in &batches[..batches.len() - 1] {
        assert!(b.len() >= 256);
    }
}

#[test]
fn batcher_flushes_on_size_and_on_time() {
    let mut b = OutputBatcher::new(8, 5);
    assert_eq!(b.push_chunk(b"abc".to_vec(), 100), None);
    assert_eq!(b.on_tick(104), None);
    assert_eq!(b.on_tick(105), Some(b"abc".to_vec()));
    assert_eq!(b.pending_len(), 0);
    assert_eq!(b.push_chunk(b"12345".to_vec(), 200), None);
    assert_eq!(b.push_chunk(b"678".to_vec(), 201), Some(b"12345678".to_vec()));
    assert_eq!(b.on_tick(300), None);
    assert_eq!(b.push_chunk(b"z".to_vec(), 300), None);
    assert_eq!(b.flush(), Some(b"z".to_vec()));
    assert_eq!(b.flush(), None);
}

#[test]
fn output_order_is_kept_across_batches() {
    let mut b = OutputBatcher::new(4, 1_000);
    let mut out: Vec<u8> = Vec::new();
    for chunk in [b"O1".to_vec(), b"O2".to_vec(), b"O3".to_vec()] {
        if let Some(batch) = b.push_chunk(chunk, 0) {
            out.extend(batch);
        }
    }
    if let Some(batch) = b.flush() {
        out.extend(batch);
    }
    assert_eq!(out, b"O1O2O3".to_vec());
}

#[test]
fn writes_start_in_submission_order() {
    let mut q = WriteQueue::new();
    assert_eq!(q.submit(b"W1".to_vec()), Some(b"W1".to_vec()));
    assert_eq!(q.submit(b"W2".to_vec()), None);
    assert_eq!(q.submit(b"W3".to_vec()), None);
    assert_eq!(q.complete(), Some(b"W2".to_vec()));
    assert_eq!(q.complete(), Some(b"W3".to_vec()));
    assert_eq!(q.complete(), None);
    assert_eq!(q.submit(b"W4".to_vec()), Some(b"W4".to_vec()));
}

#[test]
fn concat_of_no_chunks_is_empty() {
    assert_eq!(concat_chunks(Vec::new()), Vec::<u8>::new());
    assert_eq!(batch_chunks(Vec::new(), 16), Vec::<Vec<u8>>::new());
    assert_eq!(batch_chunks(vec![Vec::new(), Vec::new()], 16), Vec::<Vec<u8>>::new());
}
