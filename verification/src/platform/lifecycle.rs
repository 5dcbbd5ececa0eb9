//! Events from macOS lifecycle hooks (open file, open URL), queued until
//! the application polls them.

use vstd::prelude::*;
use std::collections::VecDeque;

verus! {

/// An event from a lifecycle hook; paths are kept as strings.
#[derive(Debug, Clone)]
pub enum LifecycleEvent {
    FileOpen(String),
    UrlOpen(String),
}

/// The request an event turns into.
#[derive(Debug, Clone)]
pub enum LifecycleMessage {
    FileOpenRequested(String),
    UrlOpenRequested(String),
}

/// The request an event turns into.
pub open spec fn message_of(e: LifecycleEvent) -> LifecycleMessage {
    match e {
        LifecycleEvent::FileOpen(p) => LifecycleMessage::FileOpenRequested(p),
        LifecycleEvent::UrlOpen(u) => LifecycleMessage::UrlOpenRequested(u),
    }
}

/// Events received and not yet polled, in arrival order.
#[derive(Debug)]
pub struct LifecycleChannel {
    events: VecDeque<LifecycleEvent>,
}

impl LifecycleChannel {
    /// The pending events, oldest first.
    pub closed spec fn view(&self) -> Seq<LifecycleEvent> {
        self.events@
    }

    /// Records an event.
    pub fn send(&mut self, event: LifecycleEvent)
        ensures
            final(self).view() == old(self).view().push(event),
    {
        self.events.push_back(event);
    }
}

/// An empty channel.
pub fn lifecycle_channel() -> (c: LifecycleChannel)
    ensures
        c.view() == Seq::<LifecycleEvent>::empty(),
{
    LifecycleChannel { events: VecDeque::new() }
}

/// The request for the oldest pending event, if any.
pub fn poll_lifecycle(receiver: &mut LifecycleChannel) -> (res: Option<LifecycleMessage>)
    ensures
        old(receiver).view().len() == 0 ==> res is None && final(receiver).view() == old(receiver).view(),
        old(receiver).view().len() > 0 ==> res == Some(message_of(old(receiver).view()[0]))
            && final(receiver).view() == old(receiver).view().drop_first(),
{
    let r = receiver.events.pop_front();
    proof {
        if old(receiver).view().len() > 0 {
            assert(receiver.view() =~= old(receiver).view().drop_first());
        }
    }
    match r {
        Some(LifecycleEvent::FileOpen(path)) => Some(LifecycleMessage::FileOpenRequested(path)),
        Some(LifecycleEvent::UrlOpen(url)) => Some(LifecycleMessage::UrlOpenRequested(url)),
        None => None,
    }
}

/// The requests for all pending events, in arrival order; the channel is
/// left empty.
pub fn drain_lifecycle(receiver: &mut LifecycleChannel) -> (res: Vec<LifecycleMessage>)
    ensures
        res@ == old(receiver).view().map_values(|e: LifecycleEvent| message_of(e)),
        final(receiver).view().len() == 0,
{
    let mut res: Vec<LifecycleMessage> = Vec::new();
    let ghost all = receiver.view();
    loop
        invariant
            all == old(receiver).view(),
            all == all.take(res@.len() as int) + receiver.view(),
            res@.len() <= all.len(),
            res@ == all.take(res@.len() as int).map_values(|e: LifecycleEvent| message_of(e)),
        decreases receiver.view().len(),
    {
        let ghost before = receiver.view();
        match poll_lifecycle(receiver) {
            Some(m) => {
                let ghost n = res@.len() as int;
                res.push(m);
                assert(all.take(n + 1) =~= all.take(n).push(before[0]));
                assert(all == all.take(n + 1) + receiver.view());
                assert(res@ =~= all.take(n + 1).map_values(|e: LifecycleEvent| message_of(e)));
            },
            None => {
                assert(all.take(res@.len() as int) =~= all);
                return res;
            },
        }
    }
}

/// A four-character code, read big-endian (`u32::from_be_bytes`).
pub open spec fn four_char_code_spec(b: [u8; 4]) -> int {
    b[0] * 16777216 + b[1] * 65536 + b[2] * 256 + b[3]
}

/// A four-character code, read big-endian.
pub fn four_char_code(bytes: [u8; 4]) -> (res: u32)
    ensures
        res as int == four_char_code_spec(bytes),
{
    let a = bytes[0] as u32;
    let b = bytes[1] as u32;
    let c = bytes[2] as u32;
    let d = bytes[3] as u32;
    a * 16777216 + b * 65536 + c * 256 + d
}

} // verus!
