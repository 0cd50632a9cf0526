use turso_mini::buffer::Buffer;
use turso_mini::io::{Completion, File};
use turso_mini::memory::MemoryFile;

fn mem_file() -> MemoryFile {
    MemoryFile::new(String::from("test.db"))
}

fn write_at(f: &mut MemoryFile, pos: u64, bytes: &[u8]) -> i32 {
    let c = f
        .pwrite(pos, &Buffer::new(bytes.to_vec()), Completion::new_write())
        .expect("pwrite always succeeds on the in-memory backend");
    c.succeeded_bytes().expect("the completion is resolved on return")
}

fn read_at(f: &mut MemoryFile, pos: u64, len: usize) -> (Vec<u8>, i32) {
    let c = f
        .pread(pos, Completion::new_read(Buffer::new_zeroed(len)))
        .expect("pread always succeeds on the in-memory backend");
    let n = c.succeeded_bytes().expect("the completion is resolved on return");
    (c.as_read().buf().as_slice().to_vec(), n)
}

#[test]
fn memory_write_then_read_back() {
    let mut f = mem_file();
    let payload = [7u8, 6, 5, 4, 3, 2, 1];
    assert_eq!(write_at(&mut f, 10, &payload), 7);
    let (bytes, n) = read_at(&mut f, 10, 7);
    assert_eq!(n, 7);
    assert_eq!(bytes, payload);
    assert_eq!(f.size().unwrap(), 17);
}

#[test]
fn memory_write_read_across_page_boundary() {
    let mut f = mem_file();
    let payload: Vec<u8> = (0..=255).cycle().take(10000).map(|b| b as u8).collect();
    assert_eq!(write_at(&mut f, 4090, &payload), 10000);
    let (bytes, n) = read_at(&mut f, 4090, 10000);
    assert_eq!(n, 10000);
    assert_eq!(bytes, payload);
}

#[test]
fn memory_never_written_reads_zero() {
    let mut f = mem_file();
    // size must cover the range for a read to see it
    write_at(&mut f, 9000, &[1, 2, 3]);
    let (bytes, n) = read_at(&mut f, 100, 50);
    assert_eq!(n, 50);
    assert_eq!(bytes, vec![0u8; 50]);
}

#[test]
fn memory_read_at_or_past_size_is_empty() {
    let mut f = mem_file();
    write_at(&mut f, 0, &[1, 2, 3, 4]);
    // at the size
    let (_, n) = read_at(&mut f, 4, 8);
    assert_eq!(n, 0);
    // past the size
    let (_, n) = read_at(&mut f, 100, 8);
    assert_eq!(n, 0);
    // a read that straddles the end is clipped
    let (bytes, n) = read_at(&mut f, 2, 8);
    assert_eq!(n, 2);
    assert_eq!(&bytes[..2], [3, 4]);
}

#[test]
fn memory_size_never_shrinks_from_writes() {
    let mut f = mem_file();
    write_at(&mut f, 0, &[9; 100]);
    write_at(&mut f, 10, &[1; 10]);
    assert_eq!(f.size().unwrap(), 100);
}

#[test]
fn memory_truncate_drops_pages_and_tracks_size() {
    let mut f = mem_file();
    write_at(&mut f, 0, &[0xab; 8192]);
    assert_eq!(f.size().unwrap(), 8192);

    let c = f.truncate(100, Completion::new_trunc()).unwrap();
    assert_eq!(c.succeeded_bytes(), Some(0));
    assert_eq!(f.size().unwrap(), 100);

    // the kept prefix is intact
    let (bytes, n) = read_at(&mut f, 0, 100);
    assert_eq!(n, 100);
    assert_eq!(bytes, vec![0xab; 100]);
}

#[test]
fn memory_truncate_zeroes_reexposed_region() {
    // extending the file again after a truncate must not expose stale bytes
    let mut f = mem_file();
    write_at(&mut f, 0, &[0xab; 8192]);
    f.truncate(100, Completion::new_trunc()).unwrap();
    write_at(&mut f, 200, &[0xcd; 4]);
    assert_eq!(f.size().unwrap(), 204);
    let (bytes, n) = read_at(&mut f, 100, 104);
    assert_eq!(n, 104);
    assert_eq!(&bytes[..100], vec![0u8; 100].as_slice());
    assert_eq!(&bytes[100..], [0xcd; 4]);
}

#[test]
fn memory_truncate_to_zero() {
    let mut f = mem_file();
    write_at(&mut f, 0, &[1; 5000]);
    f.truncate(0, Completion::new_trunc()).unwrap();
    assert_eq!(f.size().unwrap(), 0);
    let (_, n) = read_at(&mut f, 0, 16);
    assert_eq!(n, 0);
}

#[test]
fn memory_pwritev_writes_buffers_back_to_back() {
    let mut f = mem_file();
    let bufs = vec![
        Buffer::new(vec![1, 2, 3]),
        Buffer::new(Vec::new()),
        Buffer::new(vec![4, 5]),
    ];
    let c = f.pwritev(32, &bufs, Completion::new_write()).unwrap();
    assert_eq!(c.succeeded_bytes(), Some(5));
    assert_eq!(f.size().unwrap(), 37);
    let (bytes, n) = read_at(&mut f, 32, 5);
    assert_eq!(n, 5);
    assert_eq!(bytes, [1, 2, 3, 4, 5]);
}

#[test]
fn memory_pwritev_across_pages() {
    let mut f = mem_file();
    let bufs = vec![
        Buffer::new(vec![0x11; 3000]),
        Buffer::new(vec![0x22; 3000]),
    ];
    let c = f.pwritev(2000, &bufs, Completion::new_write()).unwrap();
    assert_eq!(c.succeeded_bytes(), Some(6000));
    let (bytes, n) = read_at(&mut f, 2000, 6000);
    assert_eq!(n, 6000);
    assert_eq!(&bytes[..3000], vec![0x11u8; 3000].as_slice());
    assert_eq!(&bytes[3000..], vec![0x22u8; 3000].as_slice());
}

#[test]
fn memory_empty_read_and_write() {
    let mut f = mem_file();
    let c = f
        .pwrite(0, &Buffer::new(Vec::new()), Completion::new_write())
        .unwrap();
    assert_eq!(c.succeeded_bytes(), Some(0));
    assert_eq!(f.size().unwrap(), 0);
    let (_, n) = read_at(&mut f, 0, 0);
    assert_eq!(n, 0);
}

#[test]
fn memory_sync_and_locks_are_no_ops() {
    let mut f = mem_file();
    assert!(f.lock_file().is_ok());
    assert!(f.unlock_file().is_ok());
    let c = f.sync(Completion::new_sync()).unwrap();
    assert_eq!(c.succeeded_bytes(), Some(0));
}

#[test]
fn memory_overwrite_replaces_bytes() {
    let mut f = mem_file();
    write_at(&mut f, 0, &[1, 1, 1, 1, 1, 1]);
    write_at(&mut f, 2, &[9, 9]);
    let (bytes, n) = read_at(&mut f, 0, 6);
    assert_eq!(n, 6);
    assert_eq!(bytes, [1, 1, 9, 9, 1, 1]);
}
