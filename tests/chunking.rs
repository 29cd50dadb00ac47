use media_relay::chunker::{large_object_parts, ChunkAccumulator};

fn run(chunk_size: usize, fragments: &[Vec<u8>]) -> Vec<Vec<u8>> {
    let mut acc = ChunkAccumulator::new(chunk_size);
    let mut out = Vec::new();
    for f in fragments {
        out.extend(acc.push(f));
    }
    if let Some(rest) = acc.finish() {
        out.push(rest);
    }
    out
}

#[test]
fn empty_stream_gives_no_chunks() {
    assert!(run(4, &[]).is_empty());
    assert!(run(4, &[vec![], vec![]]).is_empty());
}

#[test]
fn small_fragments_are_gathered_into_full_chunks() {
    let frags = vec![vec![1, 2], vec![3], vec![4, 5, 6], vec![7, 8, 9, 10]];
    let out = run(4, &frags);
    assert_eq!(out, vec![vec![1, 2, 3, 4], vec![5, 6, 7, 8], vec![9, 10]]);
}

#[test]
fn large_fragment_is_split_at_once() {
    let mut acc = ChunkAccumulator::new(3);
    let first = acc.push(&[1, 2, 3, 4, 5, 6, 7]);
    assert_eq!(first, vec![vec![1, 2, 3], vec![4, 5, 6]]);
    let second = acc.push(&[8, 9]);
    assert_eq!(second, vec![vec![7, 8, 9]]);
    assert_eq!(acc.finish(), None);
}

#[test]
fn exact_multiple_has_full_last_chunk() {
    let data: Vec<u8> = (0..12).collect();
    let out = run(4, &[data.clone()]);
    assert_eq!(out.len(), 3);
    assert!(out.iter().all(|c| c.len() == 4));
    assert_eq!(out.concat(), data);
}

#[test]
fn chunk_count_and_lengths_follow_the_stream_length() {
    let data: Vec<u8> = (0..=250u8).collect();
    let frags: Vec<Vec<u8>> = data.chunks(7).map(|c| c.to_vec()).collect();
    let out = run(16, &frags);
    let n = data.len();
    assert_eq!(out.len(), (n + 15) / 16);
    for c in &out[..out.len() - 1] {
        assert_eq!(c.len(), 16);
    }
    assert_eq!(out.last().unwrap().len(), n % 16);
    assert_eq!(out.concat(), data);
}

#[test]
fn chunk_size_one_emits_every_byte() {
    let out = run(1, &[vec![5, 6, 7]]);
    assert_eq!(out, vec![vec![5], vec![6], vec![7]]);
}

#[test]
fn small_objects_go_up_in_one_request() {
    use_planner(10, 10, None);
    use_planner(0, 5, None);
}

#[test]
fn large_objects_are_cut_into_ranges() {
    use_planner(25, 10, Some(vec![(0, 10), (10, 20), (20, 25)]));
    use_planner(20, 10, Some(vec![(0, 10), (10, 20)]));
    use_planner(11, 10, Some(vec![(0, 10), (10, 11)]));
}

fn use_planner(len: usize, chunk: usize, expected: Option<Vec<(usize, usize)>>) {
    assert_eq!(large_object_parts(len, chunk), expected);
}
