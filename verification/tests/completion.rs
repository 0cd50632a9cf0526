use turso_mini::buffer::Buffer;
use turso_mini::clock::Instant;
use turso_mini::error::CompletionError;
use turso_mini::io::{Completion, CompletionType, ReadCompletion, WriteCompletion};

#[test]
fn completion_starts_pending() {
    let c = Completion::new_write();
    assert!(!c.resolved());
    assert_eq!(c.succeeded_bytes(), None);
}

#[test]
fn completion_single_resolution_is_enforced() {
    // the checked resolution succeeds exactly once; the second attempt is
    // rejected and changes nothing
    let mut c = Completion::new_write();
    assert!(c.try_complete(42));
    assert!(c.resolved());
    assert_eq!(c.succeeded_bytes(), Some(42));

    assert!(!c.try_complete(7));
    assert_eq!(c.succeeded_bytes(), Some(42));

    assert!(!c.try_complete(42));
    assert_eq!(c.succeeded_bytes(), Some(42));
}

#[test]
fn completion_complete_resolves() {
    let mut c = Completion::new_sync();
    c.complete(0);
    assert!(c.resolved());
    assert_eq!(c.succeeded_bytes(), Some(0));
}

#[test]
fn completion_read_carries_its_buffer() {
    let c = Completion::new_read(Buffer::new(vec![1, 2, 3]));
    assert_eq!(c.as_read().buf().as_slice(), [1, 2, 3]);
    assert_eq!(c.as_read().buf().len(), 3);
    assert!(!c.as_read().buf().is_empty());
}

#[test]
fn completion_constructors_pick_the_variant() {
    let r = Completion::new(CompletionType::Read(ReadCompletion::new(Buffer::new_zeroed(4))));
    assert!(!r.resolved());
    assert_eq!(r.as_read().buf().len(), 4);

    let w = Completion::new(CompletionType::Write(WriteCompletion::new()));
    assert!(!w.resolved());

    let t = Completion::new_trunc();
    assert!(!t.resolved());
}

#[test]
fn buffer_accessors() {
    let mut b = Buffer::new(vec![5, 6, 7]);
    assert_eq!(b.len(), 3);
    assert_eq!(b.get(1), 6);
    b.set(1, 66);
    assert_eq!(b.get(1), 66);
    assert_eq!(b.as_slice(), [5, 66, 7]);
    let v = b.into_vec();
    assert_eq!(v, vec![5, 66, 7]);

    let z = Buffer::new_zeroed(8);
    assert_eq!(z.as_slice(), [0u8; 8]);
    let e = Buffer::new(Vec::new());
    assert!(e.is_empty());
}

#[test]
fn instant_epoch_parts() {
    // at or after the epoch
    let i = Instant { secs: 5, micros: 250_000 };
    assert_eq!(i.epoch_parts(), (true, 5, 250_000_000));
    let zero = Instant { secs: 0, micros: 0 };
    assert_eq!(zero.epoch_parts(), (true, 0, 0));

    // whole seconds before the epoch
    let neg = Instant { secs: -2, micros: 0 };
    assert_eq!(neg.epoch_parts(), (false, 2, 0));

    // fractional seconds before the epoch borrow one second
    let frac = Instant { secs: -1, micros: 250_000 };
    assert_eq!(frac.epoch_parts(), (false, 0, 750_000_000));
}

#[test]
fn completion_error_resolution() {
    let mut c = Completion::new_write();
    c.error(CompletionError::IOError(std::io::ErrorKind::NotFound));
    assert!(c.resolved());
    assert_eq!(c.succeeded_bytes(), None);
}
