use std::collections::BTreeMap;
use xvi::file::{apply_changes, fill_block, insert_move, window_position, Cache, FindStep, Finder, BLOCK_SIZE};

/// Search `data` the way the editor searches a file, block by block.
fn find(data: &[u8], start: u64, sequence: &[u8], backward: bool) -> Option<u64> {
    let size = data.len() as u64;
    let mut finder = Finder::new(start, size, backward);
    loop {
        let offset = finder.next_block()?;
        let begin = offset as usize;
        let end = std::cmp::min(begin + BLOCK_SIZE as usize, data.len());
        match finder.block_done(&data[begin..end], sequence) {
            FindStep::Found(pos) => return Some(pos),
            FindStep::NotFound => return None,
            FindStep::Continue => {}
        }
    }
}

fn sample() -> Vec<u8> {
    let mut data = vec![11; 4];
    data.extend_from_slice(&[22, 33, 33, 33, 44]);
    data.extend_from_slice(&[55, 5]);
    data
}

#[test]
fn finder_follows_the_file_search() {
    let data = sample();
    assert_eq!(find(&data, 0, &[42], false), None);
    assert_eq!(find(&data, 0, &[33, 33], false), Some(5));
    assert_eq!(find(&data, 5, &[33, 33], false), Some(6));
    assert_eq!(find(&data, data.len() as u64, &[33, 33], true), Some(6));
}

#[test]
fn finder_wraps_around_forward() {
    let data = sample();
    // from the last byte the search goes round to the start
    assert_eq!(find(&data, 10, &[11, 11], false), Some(0));
}

#[test]
fn window_position_first_and_last() {
    let data = [1u8, 2, 1, 2, 3];
    assert_eq!(window_position(&data, &[1, 2], false), Some(0));
    assert_eq!(window_position(&data, &[1, 2], true), Some(2));
    assert_eq!(window_position(&data, &[4], false), None);
    assert_eq!(window_position(&data, &[1, 2, 3, 4, 5, 6], false), None);
}

#[test]
fn finder_first_offsets() {
    let f = Finder::new(0, 100, true);
    assert_eq!(f.offset, 99);
    let f = Finder::new(7, 100, false);
    assert_eq!(f.offset, 8);
    assert!(!f.round);
}

#[test]
fn changes_applied_to_read_data() {
    let mut data = vec![1u8, 2, 3, 4];
    let mut changes = BTreeMap::new();
    changes.insert(9u64, 0xaa);
    changes.insert(11u64, 0xbb);
    changes.insert(20u64, 0xcc);
    apply_changes(&mut data, 10, &changes);
    assert_eq!(data, vec![1, 0xbb, 3, 4]);
}

/// Insert `length` bytes of `pattern` at `offset`, moving the tail by blocks.
fn insert(data: &mut Vec<u8>, offset: u64, length: u64, pattern: &[u8], block: usize) {
    let size = data.len() as u64;
    data.resize((size + length) as usize, 0);
    let mut back_offset = size;
    while back_offset > offset {
        let (read, write, n) = insert_move(back_offset, offset, length, block);
        let chunk: Vec<u8> = data[read as usize..read as usize + n].to_vec();
        data[write as usize..write as usize + n].copy_from_slice(&chunk);
        back_offset -= n as u64;
    }
    let mut fill = offset;
    let mut pos = 0;
    while fill < offset + length {
        let n = std::cmp::min(block as u64, offset + length - fill) as usize;
        let (bytes, next) = fill_block(pattern, pos, n);
        data[fill as usize..fill as usize + n].copy_from_slice(&bytes);
        pos = next;
        fill += n as u64;
    }
}

#[test]
fn insert_moves_and_fills() {
    let mut data = vec![11, 22, 33, 44, 55, 66, 77];
    insert(&mut data, 1, 4, &[88, 99], 3);
    assert_eq!(data, vec![11, 88, 99, 88, 99, 22, 33, 44, 55, 66, 77]);
}

#[test]
fn insert_move_last_block_is_short() {
    // 10 bytes above offset 4, blocks of 4: the last one has 2 bytes
    assert_eq!(insert_move(14, 4, 5, 4), (10, 15, 4));
    assert_eq!(insert_move(6, 4, 5, 4), (4, 9, 2));
}

#[test]
fn fill_block_repeats_pattern() {
    let (bytes, next) = fill_block(&[1, 2, 3], 2, 5);
    assert_eq!(bytes, vec![3, 1, 2, 3, 1]);
    assert_eq!(next, 1);
}

#[test]
fn cache_covers_inside_range_only() {
    let mut cache = Cache::new();
    assert!(!cache.has(0, 0));
    cache.data = vec![0; 10];
    cache.start = 100;
    assert!(cache.has(100, 9));
    assert!(!cache.has(100, 10));
    assert!(!cache.has(99, 1));
}

#[test]
fn forward_search_in_empty_file_finds_nothing() {
    assert_eq!(find(&[], 0, &[1], false), None);
}
