//! The event channel: a log that is written at one end and read by any
//! number of readers, each at its own pace.
//!
//! The channel and its readers are `shrev`'s. The first half of this module
//! says what the library takes on trust when it calls them. The second half
//! proves from it that every reader is handed every event once, and in order.

use shrev::{EventChannel, ReaderId};
use vstd::prelude::*;

use crate::event::Event;

verus! {

/// `shrev::EventChannel`, of which nothing is seen here but what the names
/// below say.
#[verifier::external_type_specification]
#[verifier::external_body]
#[verifier::reject_recursive_types(E)]
pub struct ExEventChannel<E>(EventChannel<E>);

/// `shrev::ReaderId`, the handle by which one reader is known to its
/// channel.
#[verifier::external_type_specification]
#[verifier::external_body]
#[verifier::reject_recursive_types(T)]
pub struct ExReaderId<T: 'static>(ReaderId<T>);

/// Every event written to `channel` since it was made, oldest first. The
/// channel's buffer keeps the part of it that some live reader has yet to
/// read, and grows rather than overwrite any of that.
pub uninterp spec fn written(channel: EventChannel<Event>) -> Seq<Event>;

/// What tells `channel` apart from every other channel.
pub uninterp spec fn instance(channel: EventChannel<Event>) -> int;

/// The `instance` of the channel that registered `reader`.
pub uninterp spec fn issuer(reader: ReaderId<Event>) -> int;

/// How many of its channel's events lie behind `reader`: those written
/// before it was registered and those it has read. The channel keeps this
/// number for the reader, and only a call that borrows the reader mutably
/// changes it.
pub uninterp spec fn position(reader: ReaderId<Event>) -> nat;

/// `EventChannel::single_write`: appends `event` to the channel.
#[verifier::external_body]
pub(crate) fn publish(channel: &mut EventChannel<Event>, event: Event)
    ensures
        written(*final(channel)) == written(*old(channel)).push(event),
        instance(*final(channel)) == instance(*old(channel)),
{
    channel.single_write(event)
}

/// `EventChannel::register_reader`: a new reader of `channel` that stands
/// behind everything written so far. Nothing is written by the call.
#[verifier::external_body]
pub(crate) fn register_reader(channel: &mut EventChannel<Event>) -> (reader: ReaderId<Event>)
    ensures
        issuer(reader) == instance(*old(channel)),
        position(reader) == written(*old(channel)).len(),
        written(*final(channel)) == written(*old(channel)),
        instance(*final(channel)) == instance(*old(channel)),
{
    channel.register_reader()
}

/// `EventChannel::read`, with the events copied out of the iterator it
/// returns: all that was written since `reader` last read, or since it was
/// registered, oldest first. The reader then stands behind them. The call
/// panics for a reader of another channel, which `requires` leaves out.
#[verifier::external_body]
pub(crate) fn drain(channel: &EventChannel<Event>, reader: &mut ReaderId<Event>) -> (events: Vec<
    Event,
>)
    requires
        issuer(*old(reader)) == instance(*channel),
    ensures
        events@ == unread(written(*channel), position(*old(reader))),
        position(*final(reader)) == written(*channel).len(),
        issuer(*final(reader)) == issuer(*old(reader)),
{
    channel.read(reader).cloned().collect()
}

/// What is done to a channel that has readers: an event is written, or the
/// reader with the given number takes what is waiting for it.
pub enum Step {
    Publish(Event),
    Drain(nat),
}

/// The events of `log` from place `cursor` on: what waits for a reader that
/// stands at `cursor`.
pub open spec fn unread(log: Seq<Event>, cursor: nat) -> Seq<Event> {
    log.skip(cursor as int)
}

/// The events that `steps` write, in order.
pub open spec fn published(steps: Seq<Step>) -> Seq<Event>
    decreases steps.len(),
{
    if steps.len() == 0 {
        Seq::empty()
    } else {
        match steps.last() {
            Step::Publish(event) => published(steps.drop_last()).push(event),
            Step::Drain(_) => published(steps.drop_last()),
        }
    }
}

/// Where `reader` stands after `steps`, if it stood at `cursor` in a channel
/// that held `log`: at the end of what had been written when it last drained.
pub open spec fn cursor_after(log: Seq<Event>, cursor: nat, reader: nat, steps: Seq<Step>) -> nat
    decreases steps.len(),
{
    if steps.len() == 0 {
        cursor
    } else if steps.last() == Step::Drain(reader) {
        (log + published(steps.drop_last())).len()
    } else {
        cursor_after(log, cursor, reader, steps.drop_last())
    }
}

/// Everything that the drains of `reader` among `steps` hand out, one drain
/// after the other.
pub open spec fn received(log: Seq<Event>, cursor: nat, reader: nat, steps: Seq<Step>) -> Seq<
    Event,
>
    decreases steps.len(),
{
    if steps.len() == 0 {
        Seq::empty()
    } else if steps.last() == Step::Drain(reader) {
        received(log, cursor, reader, steps.drop_last()) + unread(
            log + published(steps.drop_last()),
            cursor_after(log, cursor, reader, steps.drop_last()),
        )
    } else {
        received(log, cursor, reader, steps.drop_last())
    }
}

/// A reader never stands beyond the end of the log.
pub proof fn lemma_cursor_within_log(log: Seq<Event>, cursor: nat, reader: nat, steps: Seq<Step>)
    requires
        cursor <= log.len(),
    ensures
        cursor_after(log, cursor, reader, steps) <= (log + published(steps)).len(),
    decreases steps.len(),
{
    if steps.len() > 0 {
        lemma_cursor_within_log(log, cursor, reader, steps.drop_last());
    }
}

/// However writes and the drains of any readers follow one another, what a
/// reader has been handed, followed by what still waits for it, is what
/// waited for it at the start followed by all that was written since: it
/// gets every event once, in the order of writing, and none from before it
/// was registered.
pub proof fn lemma_reader_gets_each_event_once(
    log: Seq<Event>,
    cursor: nat,
    reader: nat,
    steps: Seq<Step>,
)
    requires
        cursor <= log.len(),
    ensures
        received(log, cursor, reader, steps) + unread(
            log + published(steps),
            cursor_after(log, cursor, reader, steps),
        ) == unread(log, cursor) + published(steps),
    decreases steps.len(),
{
    if steps.len() == 0 {
        assert(log + published(steps) =~= log);
        assert(received(log, cursor, reader, steps) + unread(log, cursor) =~= unread(log, cursor)
            + published(steps));
    } else {
        let before = steps.drop_last();
        let log_before = log + published(before);
        let cursor_before = cursor_after(log, cursor, reader, before);
        let waiting = unread(log_before, cursor_before);
        lemma_reader_gets_each_event_once(log, cursor, reader, before);
        lemma_cursor_within_log(log, cursor, reader, before);
        match steps.last() {
            Step::Publish(event) => {
                assert(log + published(steps) =~= log_before.push(event));
                assert(unread(log_before.push(event), cursor_before) =~= waiting.push(event));
                assert(received(log, cursor, reader, before) + waiting.push(event) =~= (received(
                    log,
                    cursor,
                    reader,
                    before,
                ) + waiting).push(event));
                assert((unread(log, cursor) + published(before)).push(event) =~= unread(
                    log,
                    cursor,
                ) + published(steps));
            },
            Step::Drain(other) => {
                if other == reader {
                    assert(unread(log_before, log_before.len()) =~= Seq::<Event>::empty());
                    assert(received(log, cursor, reader, steps) + Seq::<Event>::empty()
                        =~= received(log, cursor, reader, steps));
                }
            },
        }
    }
}

/// A reader that drains last of all has then been handed all that waited for
/// it at the start and all that was written since, and nothing waits for it.
pub proof fn lemma_last_drain_leaves_nothing(
    log: Seq<Event>,
    cursor: nat,
    reader: nat,
    steps: Seq<Step>,
)
    requires
        cursor <= log.len(),
        steps.len() > 0,
        steps.last() == Step::Drain(reader),
    ensures
        received(log, cursor, reader, steps) == unread(log, cursor) + published(steps),
        unread(log + published(steps), cursor_after(log, cursor, reader, steps)) == Seq::<
            Event,
        >::empty(),
{
    lemma_reader_gets_each_event_once(log, cursor, reader, steps);
}

/// A reader that is registered at the end of the log is handed, with what
/// still waits for it, just what is written afterwards: nothing from before
/// it was registered.
pub proof fn lemma_new_reader_gets_what_follows(log: Seq<Event>, reader: nat, steps: Seq<Step>)
    ensures
        received(log, log.len(), reader, steps) + unread(
            log + published(steps),
            cursor_after(log, log.len(), reader, steps),
        ) == published(steps),
{
    lemma_reader_gets_each_event_once(log, log.len(), reader, steps);
    assert(unread(log, log.len()) + published(steps) =~= published(steps));
}

} // verus!
