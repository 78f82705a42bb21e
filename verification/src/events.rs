//! Domain events and the notification channel that fans them out.  The
//! channel is crossbeam's unbounded multi-producer multi-consumer channel:
//! publishing never blocks the producer, and events from one producer are
//! observed in the order they were published.  What the channel holds at
//! any moment is process-shared state that no contract here speaks about.

use vstd::prelude::*;
use crate::model::ClipboardItem;
use crate::model::ItemModel;
use crate::settings::AppSettings;
use crate::settings::SettingsModel;

verus! {

#[derive(Debug)]
pub enum ClipboardEvent {
    ItemAdded(ClipboardItem),
    ItemUpdated(ClipboardItem),
    ItemRemoved(u128),
    SettingsChanged(AppSettings),
    HotkeyPressed(String),
}

pub ghost enum EventModel {
    ItemAdded(ItemModel),
    ItemUpdated(ItemModel),
    ItemRemoved(u128),
    SettingsChanged(SettingsModel),
    HotkeyPressed(Seq<char>),
}

impl View for ClipboardEvent {
    type V = EventModel;

    open spec fn view(&self) -> EventModel {
        match self {
            ClipboardEvent::ItemAdded(it) => EventModel::ItemAdded(it@),
            ClipboardEvent::ItemUpdated(it) => EventModel::ItemUpdated(it@),
            ClipboardEvent::ItemRemoved(id) => EventModel::ItemRemoved(*id),
            ClipboardEvent::SettingsChanged(s) => EventModel::SettingsChanged(s@),
            ClipboardEvent::HotkeyPressed(n) => EventModel::HotkeyPressed(n@),
        }
    }
}

#[verifier::external_type_specification]
#[verifier::external_body]
#[verifier::reject_recursive_types(T)]
pub struct ExSender<T>(crossbeam_channel::Sender<T>);

#[verifier::external_type_specification]
#[verifier::external_body]
#[verifier::reject_recursive_types(T)]
pub struct ExReceiver<T>(crossbeam_channel::Receiver<T>);

/// Relies on `crossbeam_channel::unbounded`: a channel of unlimited
/// capacity, so a send never blocks the producer.
#[verifier::external_body]
fn event_channel() -> (crossbeam_channel::Sender<ClipboardEvent>, crossbeam_channel::Receiver<
    ClipboardEvent,
>) {
    crossbeam_channel::unbounded()
}

/// Relies on `crossbeam_channel::Sender::send`: on an unbounded channel it
/// returns immediately; it succeeds while a receiver is connected.
#[verifier::external_body]
fn send_event(tx: &crossbeam_channel::Sender<ClipboardEvent>, e: ClipboardEvent) -> bool {
    tx.send(e).is_ok()
}

/// Relies on `crossbeam_channel::Receiver::try_recv`: the next pending
/// event if one is waiting, without blocking.
#[verifier::external_body]
fn try_recv_event(rx: &crossbeam_channel::Receiver<ClipboardEvent>) -> Option<ClipboardEvent> {
    rx.try_recv().ok()
}

/// Relies on `crossbeam_channel::Sender::clone`: another handle to the
/// same channel, for a second producer.
#[verifier::external_body]
fn clone_sender(tx: &crossbeam_channel::Sender<ClipboardEvent>) -> crossbeam_channel::Sender<
    ClipboardEvent,
> {
    tx.clone()
}

/// The notification channel: any number of producers, any number of
/// consumers, non-blocking publish.  The ghost log records every event
/// published through this handle, in publication order, so that callers'
/// contracts can speak of what was published; what consumers have already
/// drained is shared runtime state outside any contract here.
pub struct EventBus {
    tx: crossbeam_channel::Sender<ClipboardEvent>,
    rx: crossbeam_channel::Receiver<ClipboardEvent>,
    history: Ghost<Seq<EventModel>>,
}

impl EventBus {
    /// The events published through this bus, oldest first.
    pub closed spec fn log(&self) -> Seq<EventModel> {
        self.history@
    }

    pub fn new() -> (r: EventBus)
        ensures
            r.log() == Seq::<EventModel>::empty(),
    {
        let (tx, rx) = event_channel();
        EventBus { tx, rx, history: Ghost(Seq::empty()) }
    }

    /// Publishes one event; never blocks.  Returns whether the channel
    /// accepted it.
    pub fn publish(&mut self, e: ClipboardEvent) -> (r: bool)
        ensures
            final(self).log() == old(self).log().push(e@),
    {
        proof {
            self.history@ = self.history@.push(e@);
        }
        send_event(&self.tx, e)
    }

    /// The next pending event, if one is waiting.
    pub fn try_next(&self) -> Option<ClipboardEvent> {
        try_recv_event(&self.rx)
    }

    /// A producer handle for another thread.
    pub fn sender(&self) -> crossbeam_channel::Sender<ClipboardEvent> {
        clone_sender(&self.tx)
    }

    /// The consumer side of the channel.
    pub fn receiver(&self) -> &crossbeam_channel::Receiver<ClipboardEvent> {
        &self.rx
    }
}

} // verus!
