use std::collections::BTreeSet;

use rotate_puts::naming::FileTurn;
use rotate_puts::pipeline::{ChunkOutcome, Pipeline};
use rotate_puts::writer::RotatingWriter;

const LARGE: u64 = 10 * 1024 * 1024;

fn start(file_size: u64, file_count: u32) -> (Pipeline, FileTurn) {
    Pipeline::start("temp".to_string(), "log".to_string(), file_size, file_count, 0)
}

/// Applies a turn to a set of file names standing for the disk.
fn apply(disk: &mut BTreeSet<String>, turn: &FileTurn) {
    disk.remove(&turn.evict);
    disk.insert(turn.open.clone());
}

#[test]
fn first_file_is_index_zero() {
    let (p, turn) = start(LARGE, 10);
    assert_eq!(turn.open, "temp_000.log");
    assert_eq!(turn.evict, "temp_-10.log");
    assert_eq!(p.buffered_len(), 0);
}

#[test]
fn lines_then_partial_line_at_end() {
    let (mut p, _) = start(LARGE, 10);
    let out = p.on_chunk(b"AAAA\nBBBB\nCCCC", 5);
    assert_eq!(out.write, b"AAAA\nBBBB\n".to_vec());
    assert!(out.turn.is_none());
    assert_eq!(p.finish(), b"CCCC".to_vec());
    assert_eq!(p.buffered_len(), 0);
}

#[test]
fn long_line_overflows_into_single_file() {
    let (mut p, _) = start(LARGE, 10);
    let total: usize = 5 * 1024 * 1024;
    let chunk = vec![b'x'; 128];
    let mut written: usize = 0;
    let mut writes: usize = 0;
    for _ in 0..total / 128 {
        let out: ChunkOutcome = p.on_chunk(&chunk, 1);
        assert!(out.turn.is_none());
        if !out.write.is_empty() {
            assert_eq!(out.write.len(), 4224);
            assert!(out.write.iter().all(|c| *c == b'x'));
            written += out.write.len();
            writes += 1;
        }
        assert!(p.buffered_len() <= 4096);
    }
    assert_eq!(writes, 1241);
    let rest = p.finish();
    assert_eq!(rest.len(), 896);
    assert_eq!(written + rest.len(), total);
}

#[test]
fn end_of_stream_writes_partial_line() {
    let (mut p, _) = start(LARGE, 10);
    let mut file: Vec<u8> = Vec::new();
    for c in [&b"one\ntw"[..], &b"o\nthr"[..], &b"ee"[..]] {
        let out = p.on_chunk(c, 0);
        file.extend_from_slice(&out.write);
    }
    assert_eq!(file, b"one\ntwo\n".to_vec());
    file.extend_from_slice(&p.finish());
    assert_eq!(file, b"one\ntwo\nthree".to_vec());
}

#[test]
fn every_byte_arrives_once_in_order() {
    let (mut p, first) = start(16, 3);
    let input: Vec<u8> = (0..2000u32).map(|i| if i % 7 == 6 { b'\n' } else { b'a' + (i % 26) as u8 }).collect();
    let mut files: Vec<Vec<u8>> = vec![Vec::new()];
    let mut names = vec![first.open];
    for (n, c) in input.chunks(13).enumerate() {
        let out = p.on_chunk(c, n as u64);
        files.last_mut().unwrap().extend_from_slice(&out.write);
        if let Some(t) = out.turn {
            names.push(t.open);
            files.push(Vec::new());
        }
    }
    files.last_mut().unwrap().extend_from_slice(&p.finish());
    assert!(files.len() > 2);
    assert_eq!(files.concat(), input);
    for f in &files[..files.len() - 1] {
        assert!(f.len() >= 16);
        assert!(f.len() < 16 + 13 + 7);
        assert_eq!(*f.last().unwrap(), b'\n');
    }
    for (k, name) in names.iter().enumerate() {
        assert_eq!(*name, format!("temp_{:03}.log", k));
    }
}

#[test]
fn rotation_deletes_file_outside_window() {
    let (mut p, first) = start(1, 2);
    let mut disk = BTreeSet::new();
    apply(&mut disk, &first);
    let mut turns = Vec::new();
    for _ in 0..3 {
        let out = p.on_chunk(b"line\n", 0);
        assert_eq!(out.write, b"line\n".to_vec());
        let turn = out.turn.expect("threshold reached");
        apply(&mut disk, &turn);
        turns.push(turn);
    }
    assert_eq!(turns[2].open, "temp_003.log");
    assert_eq!(turns[2].evict, "temp_001.log");
    let left: Vec<String> = disk.into_iter().collect();
    assert_eq!(left, vec!["temp_002.log".to_string(), "temp_003.log".to_string()]);
}

#[test]
fn retained_files_never_exceed_window() {
    for count in 1..5u32 {
        let (mut p, first) = start(1, count);
        let mut disk = BTreeSet::new();
        apply(&mut disk, &first);
        for _ in 0..20 {
            let out = p.on_chunk(b"z\n", 0);
            apply(&mut disk, &out.turn.expect("threshold reached"));
            assert!(disk.len() <= count as usize);
        }
        assert_eq!(disk.len(), count as usize);
    }
}

#[test]
fn zero_count_never_deletes_an_earlier_file() {
    let (mut p, first) = start(1, 0);
    assert_eq!(first.evict, first.open);
    let mut disk = BTreeSet::new();
    apply(&mut disk, &first);
    for k in 1..6 {
        let turn = p.on_chunk(b"z\n", 0).turn.expect("threshold reached");
        assert_eq!(turn.evict, turn.open);
        assert_eq!(turn.open, format!("temp_{:03}.log", k));
        apply(&mut disk, &turn);
    }
    assert_eq!(disk.len(), 6);
}

#[test]
fn timeout_flushes_after_idle_second() {
    let (mut p, _) = start(LARGE, 10);
    let out = p.on_chunk(b"partial", 100);
    assert!(out.write.is_empty());
    assert!(p.on_timeout(600).is_empty());
    assert!(p.on_timeout(999).is_empty());
    assert_eq!(p.on_timeout(1000), b"partial".to_vec());
    assert_eq!(p.buffered_len(), 0);
    assert!(p.on_timeout(5000).is_empty());
}

#[test]
fn timeout_counts_from_last_line_write() {
    let (mut p, _) = start(LARGE, 10);
    p.on_chunk(b"a\nb", 4000);
    assert!(p.on_timeout(4999).is_empty());
    assert!(p.on_timeout(3000).is_empty());
    assert_eq!(p.on_timeout(5000), b"b".to_vec());
}

#[test]
fn timeout_write_does_not_rotate() {
    let (mut p, _) = start(4, 10);
    p.on_chunk(b"abcdef", 0);
    assert_eq!(p.on_timeout(2000), b"abcdef".to_vec());
    let out = p.on_chunk(b"\n", 2001);
    assert_eq!(out.write, b"\n".to_vec());
    assert_eq!(out.turn.expect("threshold reached").open, "temp_001.log");
}

#[test]
fn writer_counts_and_rotates() {
    let (mut w, turn) = RotatingWriter::open("a".to_string(), "".to_string(), 10, 1);
    assert_eq!(turn.open, "a_000");
    assert!(!w.should_rotate());
    w.record(9);
    assert_eq!(w.written_len(), 9);
    assert!(!w.should_rotate());
    w.record(1);
    assert!(w.should_rotate());
    let t = w.rotate();
    assert_eq!(t.open, "a_001");
    assert_eq!(t.evict, "a_000");
    assert_eq!(w.written_len(), 0);
    assert_eq!(w.file_size(), 10);
    assert_eq!(w.file_count(), 1);
    w.record(usize::MAX);
    assert_eq!(w.written_len(), u64::MAX.min(usize::MAX as u64));
}
