//! The queue of log messages to be sent back over the notecard.
use vstd::prelude::*;
use vstd::string::StringSliceAdditionalSpecFns;

verus! {

#[verifier::external_type_specification]
#[verifier::external_body]
pub struct ExHeaplessString<const N: usize>(heapless::String<N>);

#[verifier::external_type_specification]
#[verifier::external_body]
#[verifier::reject_recursive_types(T)]
pub struct ExMpMcQueue<T, const N: usize>(heapless::mpmc::MpMcQueue<T, N>);

/// Largest log message, in bytes.
pub const LOG_MSG_SZ: usize = 256;

/// Number of messages the queue holds.
pub const LOGQ_SZ: usize = 4;

/// A log message.
pub type LogMessage = heapless::String<LOG_MSG_SZ>;

/// The bytes of a log message.
pub uninterp spec fn message_bytes(m: heapless::String<LOG_MSG_SZ>) -> Seq<u8>;

/// The messages in a log queue, oldest first.
pub uninterp spec fn queued_messages(q: heapless::mpmc::MpMcQueue<heapless::String<LOG_MSG_SZ>, LOGQ_SZ>) -> Seq<Seq<u8>>;

/// `heapless::String::new`: an empty message.
#[verifier::external_body]
fn message_new() -> (m: LogMessage)
    ensures
        message_bytes(m) == Seq::<u8>::empty(),
{
    heapless::String::new()
}

/// `heapless::String::push_str`: appends the bytes of `s` when they fit in
/// the capacity, and leaves the message unchanged otherwise.
#[verifier::external_body]
fn message_push_str(m: &mut LogMessage, s: &str) -> (r: Result<(), ()>)
    ensures
        r == (if message_bytes(*old(m)).len() + s.spec_bytes().len() <= LOG_MSG_SZ {
            Ok::<(), ()>(())
        } else {
            Err::<(), ()>(())
        }),
        message_bytes(*final(m)) == (if message_bytes(*old(m)).len() + s.spec_bytes().len() <= LOG_MSG_SZ {
            message_bytes(*old(m)) + s.spec_bytes()
        } else {
            message_bytes(*old(m))
        }),
{
    m.push_str(s)
}

/// `heapless::mpmc::MpMcQueue::new`: an empty queue.
#[verifier::external_body]
fn queue_new() -> (q: heapless::mpmc::MpMcQueue<LogMessage, LOGQ_SZ>)
    ensures
        queued_messages(q) == Seq::<Seq<u8>>::empty(),
{
    heapless::mpmc::MpMcQueue::new()
}

/// `heapless::mpmc::MpMcQueue::enqueue`: adds the message at the back when the
/// queue holds fewer than its capacity, and hands it back otherwise.
#[verifier::external_body]
fn queue_enqueue(q: &mut heapless::mpmc::MpMcQueue<LogMessage, LOGQ_SZ>, m: LogMessage) -> (r: Result<(), LogMessage>)
    ensures
        queued_messages(*old(q)).len() <= LOGQ_SZ,
        queued_messages(*final(q)).len() <= LOGQ_SZ,
        match r {
            Ok(()) => queued_messages(*old(q)).len() < LOGQ_SZ,
            Err(back) => queued_messages(*old(q)).len() == LOGQ_SZ && back == m,
        },
        queued_messages(*final(q)) == (if queued_messages(*old(q)).len() < LOGQ_SZ {
            queued_messages(*old(q)).push(message_bytes(m))
        } else {
            queued_messages(*old(q))
        }),
{
    q.enqueue(m)
}

/// `heapless::mpmc::MpMcQueue::dequeue`: takes the message at the front, if any.
#[verifier::external_body]
fn queue_dequeue(q: &mut heapless::mpmc::MpMcQueue<LogMessage, LOGQ_SZ>) -> (r: Option<LogMessage>)
    ensures
        queued_messages(*old(q)).len() <= LOGQ_SZ,
        match r {
            Some(m) => queued_messages(*old(q)).len() > 0 && message_bytes(m) == queued_messages(*old(q))[0],
            None => queued_messages(*old(q)).len() == 0,
        },
        queued_messages(*final(q)) == (if queued_messages(*old(q)).len() > 0 {
            queued_messages(*old(q)).drop_first()
        } else {
            queued_messages(*old(q))
        }),
{
    q.dequeue()
}

/// The message queued for `msg`: its bytes, or nothing when they do not fit
/// in a message.
pub open spec fn spec_log_entry(msg: Seq<u8>) -> Seq<u8> {
    if msg.len() <= LOG_MSG_SZ {
        msg
    } else {
        Seq::empty()
    }
}

/// Log messages waiting to be sent over the notecard.
pub struct LogQueue {
    q: heapless::mpmc::MpMcQueue<LogMessage, LOGQ_SZ>,
}

impl LogQueue {
    /// The queued messages, oldest first.
    pub closed spec fn messages(&self) -> Seq<Seq<u8>> {
        queued_messages(self.q)
    }

    /// An empty queue.
    pub fn new() -> (q: LogQueue)
        ensures
            q.messages() == Seq::<Seq<u8>>::empty(),
    {
        LogQueue { q: queue_new() }
    }

    /// Queue `msg` for sending. A message longer than `LOG_MSG_SZ` bytes is
    /// queued empty; when the queue is full the message is dropped.
    pub fn log(&mut self, msg: &str)
        ensures
            final(self).messages() == (if old(self).messages().len() < LOGQ_SZ {
                old(self).messages().push(spec_log_entry(msg.spec_bytes()))
            } else {
                old(self).messages()
            }),
    {
        let mut s = message_new();
        let _ = message_push_str(&mut s, msg);
        proof {
            assert(Seq::<u8>::empty() + msg.spec_bytes() =~= msg.spec_bytes());
        }
        let _ = queue_enqueue(&mut self.q, s);
    }

    /// Take the oldest message, if any.
    pub fn dequeue(&mut self) -> (r: Option<LogMessage>)
        ensures
            match r {
                Some(m) => old(self).messages().len() > 0 && message_bytes(m) == old(self).messages()[0]
                    && final(self).messages() == old(self).messages().drop_first(),
                None => old(self).messages().len() == 0 && final(self).messages() == old(self).messages(),
            },
    {
        queue_dequeue(&mut self.q)
    }
}

/// Messages come out of the log queue in the order they were logged: after
/// logging `a` and then `b` on an empty queue, `a` is taken first.
pub proof fn lemma_log_fifo(empty: Seq<Seq<u8>>, a: Seq<u8>, b: Seq<u8>)
    requires
        empty.len() == 0,
    ensures
        empty.push(spec_log_entry(a)).push(spec_log_entry(b))[0] == spec_log_entry(a),
        empty.push(spec_log_entry(a)).push(spec_log_entry(b)).drop_first() == seq![spec_log_entry(b)],
{
    assert(empty.push(spec_log_entry(a)).push(spec_log_entry(b)).drop_first() =~= seq![spec_log_entry(b)]);
}

} // verus!
