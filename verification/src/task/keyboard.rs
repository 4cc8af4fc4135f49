//! The hand-off of keyboard scancodes from the interrupt handler to the task
//! that decodes them, through a bounded lock-free queue.
use vstd::prelude::*;

verus! {

use crossbeam_queue::ArrayQueue;

#[verifier::external_type_specification]
#[verifier::external_body]
#[verifier::reject_recursive_types(T)]
pub struct ExArrayQueue<T>(crossbeam_queue::ArrayQueue<T>);

/// The capacity that a scancode queue was created with.
pub uninterp spec fn scancode_queue_capacity(queue: ArrayQueue<u8>) -> nat;

/// Number of scancodes that the queue holds before further ones are dropped.
pub const SCANCODE_QUEUE_CAPACITY: usize = 100;

/// `ArrayQueue::new` of crossbeam_queue. Claimed: the queue has capacity
/// `cap`. The function panics on a zero capacity, on one whose next power of
/// two above it does not fit, and on one whose slot buffer (at most 16 bytes
/// per slot) exceeds `isize::MAX` bytes, which `requires` rules out. Running
/// out of memory for the buffer is not ruled out.
#[verifier::external_body]
fn array_queue_new(cap: usize) -> (queue: ArrayQueue<u8>)
    requires
        0 < cap <= isize::MAX / 16,
    ensures
        scancode_queue_capacity(queue) == cap,
{
    ArrayQueue::new(cap)
}

/// `ArrayQueue::push` of crossbeam_queue. Claimed: a refused value is handed
/// back unchanged. Whether the push succeeds depends on how full the queue is
/// at that moment, which other threads and interrupt handlers change through
/// shared references, so it is left open.
#[verifier::external_body]
fn array_queue_push(queue: &ArrayQueue<u8>, value: u8) -> (r: Result<(), u8>)
    ensures
        r matches Err(v) ==> v == value,
{
    queue.push(value)
}

/// What became of a scancode handed to the queue.
#[derive(Debug, Clone, Copy, PartialEq, Eq, Structural)]
pub enum ScancodeOutcome {
    /// The scancode was queued for the keyboard task.
    Queued,
    /// The queue was full and the scancode was dropped.
    QueueFull,
    /// No queue exists yet and the scancode was dropped.
    QueueUninitialized,
}

/// Creates the scancode queue, with room for `SCANCODE_QUEUE_CAPACITY`
/// scancodes.
pub fn new_scancode_queue() -> (queue: ArrayQueue<u8>)
    ensures
        scancode_queue_capacity(queue) == SCANCODE_QUEUE_CAPACITY,
{
    array_queue_new(SCANCODE_QUEUE_CAPACITY)
}

/// Pushes `scancode` onto the queue. Whether there is room depends on the
/// queue's state at that moment, which interrupt handlers and tasks change
/// through shared references; a refused scancode comes back unchanged.
pub fn push_scancode(queue: &ArrayQueue<u8>, scancode: u8) -> (r: Result<(), u8>)
    ensures
        r matches Err(v) ==> v == scancode,
{
    array_queue_push(queue, scancode)
}

/// The outcome of a push that the queue answered with `result`.
pub open spec fn push_outcome_spec(result: Result<(), u8>) -> ScancodeOutcome {
    if result is Ok {
        ScancodeOutcome::Queued
    } else {
        ScancodeOutcome::QueueFull
    }
}

/// The outcome of a push, from what the queue answered.
pub fn push_outcome(result: Result<(), u8>) -> (r: ScancodeOutcome)
    ensures
        r == push_outcome_spec(result),
{
    match result {
        Ok(()) => ScancodeOutcome::Queued,
        Err(_) => ScancodeOutcome::QueueFull,
    }
}

/// Hands a scancode to the queue, if there is one. Called from the
/// keyboard interrupt handler, so it never blocks: a full queue drops the
/// scancode.
pub fn add_scancode(queue: Option<&ArrayQueue<u8>>, scancode: u8) -> (r: ScancodeOutcome)
    ensures
        queue is None <==> r == ScancodeOutcome::QueueUninitialized,
        queue is Some ==> (r == ScancodeOutcome::Queued || r == ScancodeOutcome::QueueFull),
        queue matches Some(q) ==> exists|res: Result<(), u8>|
            #[trigger] call_ensures(push_scancode, (q, scancode), res) && r == push_outcome_spec(res),
{
    match queue {
        Some(queue) => push_outcome(push_scancode(queue, scancode)),
        None => ScancodeOutcome::QueueUninitialized,
    }
}

impl ScancodeOutcome {
    /// The warning to print for a dropped scancode; none for a queued one.
    pub fn warning(self) -> (r: Option<&'static str>)
        ensures
            self == ScancodeOutcome::Queued <==> r is None,
            self == ScancodeOutcome::QueueFull ==> r == Some(
                "WARNING: scancode queue full; dropping keyboard input",
            ),
            self == ScancodeOutcome::QueueUninitialized ==> r == Some(
                "WARNING: scancode queue uninitialized",
            ),
    {
        match self {
            ScancodeOutcome::Queued => None,
            ScancodeOutcome::QueueFull => Some("WARNING: scancode queue full; dropping keyboard input"),
            ScancodeOutcome::QueueUninitialized => Some("WARNING: scancode queue uninitialized"),
        }
    }
}

} // verus!
