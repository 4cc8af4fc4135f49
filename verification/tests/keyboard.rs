use rm_os::task::keyboard::{add_scancode, new_scancode_queue, push_outcome, push_scancode, ScancodeOutcome, SCANCODE_QUEUE_CAPACITY};

#[test]
fn scancode_queue_has_capacity() {
    let queue = new_scancode_queue();
    assert_eq!(queue.capacity(), SCANCODE_QUEUE_CAPACITY);
    assert_eq!(SCANCODE_QUEUE_CAPACITY, 100);
}

#[test]
fn scancodes_queue_until_full() {
    let queue = new_scancode_queue();
    for i in 0..SCANCODE_QUEUE_CAPACITY {
        assert_eq!(add_scancode(Some(&queue), i as u8), ScancodeOutcome::Queued);
    }
    assert_eq!(add_scancode(Some(&queue), 0xff), ScancodeOutcome::QueueFull);
    assert_eq!(queue.pop(), Some(0));
    assert_eq!(add_scancode(Some(&queue), 0x2a), ScancodeOutcome::Queued);
}

#[test]
fn missing_queue_drops_scancode() {
    assert_eq!(add_scancode(None, 0x1e), ScancodeOutcome::QueueUninitialized);
}

#[test]
fn push_outcomes() {
    assert_eq!(push_outcome(Ok(())), ScancodeOutcome::Queued);
    assert_eq!(push_outcome(Err(7)), ScancodeOutcome::QueueFull);
}

#[test]
fn warnings() {
    assert_eq!(ScancodeOutcome::Queued.warning(), None);
    assert_eq!(
        ScancodeOutcome::QueueFull.warning(),
        Some("WARNING: scancode queue full; dropping keyboard input")
    );
    assert_eq!(ScancodeOutcome::QueueUninitialized.warning(), Some("WARNING: scancode queue uninitialized"));
}

#[test]
fn push_scancode_hands_back_refused_value() {
    let queue = new_scancode_queue();
    for _ in 0..SCANCODE_QUEUE_CAPACITY {
        assert_eq!(push_scancode(&queue, 1), Ok(()));
    }
    assert_eq!(push_scancode(&queue, 0x3b), Err(0x3b));
    assert_eq!(queue.pop(), Some(1));
}

#[test]
fn add_scancode_pushes_the_scancode() {
    let queue = new_scancode_queue();
    assert_eq!(add_scancode(Some(&queue), 0x1c), ScancodeOutcome::Queued);
    assert_eq!(queue.pop(), Some(0x1c));
}
