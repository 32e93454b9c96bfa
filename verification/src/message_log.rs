//! Bounded message logs: once full, each new message pushes out the oldest one.
use std::collections::VecDeque;
use vstd::prelude::*;

verus! {

/// How many protocol messages the tool-traffic log keeps.
pub const MCP_LOG_CAPACITY: usize = 100;

/// How many messages the system log keeps.
pub const SYSTEM_LOG_CAPACITY: usize = 200;

/// The log after `message` is pushed onto `log` with room for `max` messages:
/// when the log already holds `max` or more, its oldest message goes first.
pub open spec fn log_after_push<T>(log: Seq<T>, max: nat, message: T) -> Seq<T> {
    let kept = if log.len() >= max && log.len() > 0 {
        log.subrange(1, log.len() as int)
    } else {
        log
    };
    kept.push(message)
}

/// A first-in first-out log that keeps at most `max_messages` messages
/// (at least the newest one).
pub struct MessageLog<T> {
    messages: VecDeque<T>,
    max_messages: usize,
}

impl<T> View for MessageLog<T> {
    type V = Seq<T>;

    closed spec fn view(&self) -> Seq<T> {
        self.messages@
    }
}

impl<T> MessageLog<T> {
    /// The number of messages the log keeps.
    pub closed spec fn capacity(&self) -> nat {
        self.max_messages as nat
    }

    /// An empty log that keeps `max_messages` messages.
    pub fn new(max_messages: usize) -> (r: Self)
        ensures
            r@ == Seq::<T>::empty(),
            r.capacity() == max_messages,
    {
        MessageLog { messages: VecDeque::new(), max_messages }
    }

    /// Append a message, dropping the oldest one when the log is full.
    pub fn push(&mut self, message: T)
        ensures
            final(self).capacity() == old(self).capacity(),
            final(self)@ == log_after_push(old(self)@, old(self).capacity(), message),
    {
        if self.messages.len() >= self.max_messages {
            self.messages.pop_front();
        }
        self.messages.push_back(message);
    }

    /// The messages, oldest first.
    pub fn messages(&self) -> (r: &VecDeque<T>)
        ensures
            r@ == self@,
    {
        &self.messages
    }

    /// The number of messages held.
    pub fn len(&self) -> (r: usize)
        ensures
            r == self@.len(),
    {
        self.messages.len()
    }

    /// The number of messages the log keeps.
    pub fn max_messages(&self) -> (r: usize)
        ensures
            r == self.capacity(),
    {
        self.max_messages
    }
}

/// A log never grows past its capacity (or past one message when the capacity is zero).
pub proof fn law_log_stays_bounded<T>(log: Seq<T>, max: nat, message: T)
    requires
        log.len() <= max || log.len() <= 1,
    ensures
        log_after_push(log, max, message).len() <= max || log_after_push(log, max, message).len() == 1,
{
}

/// The pushed message is the newest one, and every kept message is one of the
/// previous messages, in the previous order.
pub proof fn law_log_keeps_newest<T>(log: Seq<T>, max: nat, message: T)
    ensures
        log_after_push(log, max, message).last() == message,
        log_after_push(log, max, message).drop_last() == log.subrange(
            log.len() - log_after_push(log, max, message).drop_last().len(),
            log.len() as int,
        ),
{
    let r = log_after_push(log, max, message);
    if log.len() >= max && log.len() > 0 {
        assert(r.drop_last() =~= log.subrange(1, log.len() as int));
    } else {
        assert(r.drop_last() =~= log);
        assert(log.subrange(0, log.len() as int) =~= log);
    }
}

/// A log with room left loses nothing when a message is pushed.
pub proof fn law_log_with_room_keeps_all<T>(log: Seq<T>, max: nat, message: T)
    requires
        log.len() < max,
    ensures
        log_after_push(log, max, message) == log.push(message),
{
}

} // verus!
