//! The listener: what each notification of the producer turns into.
//!
//! Notifications are handled one at a time, to completion, in the order in
//! which they arrive. Each one is either refused with an error, which
//! leaves the listener as it was, or turned into exactly one event for the
//! consumer. The caller forwards the events in the order it gets them. A
//! descriptor that comes with a notification is never dropped on the way:
//! it leaves inside the event, or inside the refusal for the caller to
//! close.

use vstd::prelude::*;
use crate::dmabuf::ScanoutDMABUF;
use crate::error::DisplayError;
use crate::format::normalize;
use crate::frames::{Cursor, MouseSet, Scanout, ScanoutMap, Update, UpdateDMABUF, UpdateMap};

verus! {

/// One call of the producer on the listener interface.
#[derive(Debug)]
pub enum Invocation {
    Scanout(Scanout),
    Update(Update),
    ScanoutMap(ScanoutMap),
    UpdateMap(UpdateMap),
    /// The handle holds the listener's own duplicate of the descriptor that
    /// came with the call, or a negative number where duplication failed.
    ScanoutDmabuf(ScanoutDMABUF),
    UpdateDmabuf(UpdateDMABUF),
    MouseSet(MouseSet),
    CursorDefine(Cursor),
    Disconnected,
}

/// What the consumer is handed.
#[derive(Debug)]
#[allow(inconsistent_fields)]
pub enum DisplayEvent {
    /// A full frame as packed RGBA.
    FrameReady { buffer: Vec<u8>, width: u32, height: u32 },
    /// A rectangle of the last full frame as packed RGBA. Merging it into
    /// the frame is left to the consumer.
    RegionReady { x: i32, y: i32, width: i32, height: i32, buffer: Vec<u8> },
    /// A foreign buffer, not mapped. The consumer maps it when it is ready.
    ForeignFrameReady(ScanoutDMABUF),
    /// A rectangle of the foreign buffer delivered last has changed.
    ForeignRegionChanged(UpdateDMABUF),
    PointerChanged { x: i32, y: i32, on: bool },
    CursorChanged(Cursor),
    Disconnected,
}

/// A refusal: the error to report, and the descriptor that the refused
/// notification brought with it and that nobody owns any more.
#[derive(Clone, Copy, Debug, PartialEq, Eq)]
pub struct Rejected {
    pub error: DisplayError,
    /// The descriptor that the caller must close, once. Only a foreign
    /// buffer brings one.
    pub closing: Option<i32>,
}

/// The descriptor that comes with `inv` and is left without an owner when
/// `inv` is refused.
pub open spec fn orphaned_descriptor(inv: Invocation) -> Option<i32> {
    match inv {
        Invocation::ScanoutDmabuf(h) => h.closing(),
        _ => None,
    }
}

/// What a listener remembers between notifications.
pub struct ListenerState {
    /// False once the session is torn down.
    pub connected: bool,
    /// Whether foreign-memory descriptors can be used here.
    pub dmabuf_supported: bool,
    /// Width and height of the last full frame that was forwarded.
    pub frame: Option<(u32, u32)>,
}

/// The error that `inv` is answered with in `state`, if any.
pub open spec fn rejection(state: ListenerState, inv: Invocation) -> Option<DisplayError> {
    if !state.connected {
        Some(DisplayError::ChannelClosed)
    } else {
        match inv {
            Invocation::Scanout(s) => if s.well_formed() {
                None
            } else {
                Some(DisplayError::FormatError)
            },
            Invocation::Update(u) => if u.well_formed() {
                None
            } else {
                Some(DisplayError::FormatError)
            },
            Invocation::ScanoutMap(_) => Some(DisplayError::UnsupportedOperation),
            Invocation::UpdateMap(_) => Some(DisplayError::UnsupportedOperation),
            Invocation::ScanoutDmabuf(h) => if !state.dmabuf_supported {
                Some(DisplayError::UnsupportedOperation)
            } else if !h.owns_descriptor() {
                Some(DisplayError::MapError)
            } else {
                None
            },
            Invocation::UpdateDmabuf(_) => if !state.dmabuf_supported {
                Some(DisplayError::UnsupportedOperation)
            } else {
                None
            },
            Invocation::MouseSet(_) => None,
            Invocation::CursorDefine(_) => None,
            Invocation::Disconnected => None,
        }
    }
}

/// `event` is what `inv` is forwarded as.
pub open spec fn delivers(inv: Invocation, event: DisplayEvent) -> bool {
    match inv {
        Invocation::Scanout(s) => event matches DisplayEvent::FrameReady { buffer, width, height }
            && width == s.width && height == s.height && buffer@ == s.rgba(),
        Invocation::Update(u) => event matches DisplayEvent::RegionReady {
            x,
            y,
            width,
            height,
            buffer,
        } && x == u.x && y == u.y && width == u.width && height == u.height && buffer@
            == u.rgba(),
        Invocation::ScanoutMap(_) => false,
        Invocation::UpdateMap(_) => false,
        Invocation::ScanoutDmabuf(h) => event == DisplayEvent::ForeignFrameReady(h),
        Invocation::UpdateDmabuf(u) => event == DisplayEvent::ForeignRegionChanged(u),
        Invocation::MouseSet(m) => event == (DisplayEvent::PointerChanged {
            x: m.x,
            y: m.y,
            on: m.on != 0,
        }),
        Invocation::CursorDefine(c) => event == DisplayEvent::CursorChanged(c),
        Invocation::Disconnected => event is Disconnected,
    }
}

/// `out` is the answer to `inv` in `state`: where `inv` is refused, the
/// error together with the descriptor that `inv` leaves behind; else the one
/// event that `inv` is forwarded as.
pub open spec fn answers(
    state: ListenerState,
    inv: Invocation,
    out: Result<DisplayEvent, Rejected>,
) -> bool {
    match rejection(state, inv) {
        Some(e) => out == Err::<DisplayEvent, Rejected>(
            Rejected { error: e, closing: orphaned_descriptor(inv) },
        ),
        None => out matches Ok(event) && delivers(inv, event),
    }
}

/// The state after `inv` was handled in `state`. A rejected notification
/// changes nothing.
pub open spec fn next_state(state: ListenerState, inv: Invocation) -> ListenerState {
    if rejection(state, inv) is Some {
        state
    } else {
        match inv {
            Invocation::Scanout(s) => ListenerState { frame: Some((s.width, s.height)), ..state },
            Invocation::Disconnected => ListenerState { connected: false, frame: None, ..state },
            _ => state,
        }
    }
}

/// The state after all of `invs` were handled, first to last.
pub open spec fn state_after(state: ListenerState, invs: Seq<Invocation>) -> ListenerState
    decreases invs.len(),
{
    if invs.len() == 0 {
        state
    } else {
        next_state(state_after(state, invs.drop_last()), invs.last())
    }
}

/// The protocol side of a session.
pub struct Listener {
    connected: bool,
    dmabuf_supported: bool,
    frame: Option<(u32, u32)>,
}

impl View for Listener {
    type V = ListenerState;

    closed spec fn view(&self) -> ListenerState {
        ListenerState {
            connected: self.connected,
            dmabuf_supported: self.dmabuf_supported,
            frame: self.frame,
        }
    }
}

impl Listener {
    /// A listener of a fresh session. `dmabuf_supported` says whether this
    /// platform can take foreign-memory descriptors.
    pub fn new(dmabuf_supported: bool) -> (listener: Listener)
        ensures
            listener@ == (ListenerState { connected: true, dmabuf_supported, frame: None }),
    {
        Listener { connected: true, dmabuf_supported, frame: None }
    }

    /// Whether the session is still up.
    pub fn is_connected(&self) -> (connected: bool)
        ensures
            connected == self@.connected,
    {
        self.connected
    }

    /// Whether foreign-memory notifications are accepted.
    pub fn supports_dmabuf(&self) -> (supported: bool)
        ensures
            supported == self@.dmabuf_supported,
    {
        self.dmabuf_supported
    }

    /// Width and height of the last full frame forwarded, if any.
    pub fn last_frame(&self) -> (frame: Option<(u32, u32)>)
        ensures
            frame == self@.frame,
    {
        self.frame
    }

    /// Handles one notification: validates it, normalises its pixels, and
    /// answers with the event to forward or with the error to report. A
    /// foreign buffer that is refused is not kept: the refusal carries its
    /// descriptor, which the caller closes.
    pub fn handle(&mut self, inv: Invocation) -> (out: Result<DisplayEvent, Rejected>)
        ensures
            answers(old(self)@, inv, out),
            final(self)@ == next_state(old(self)@, inv),
    {
        if !self.connected {
            let closing = match inv {
                Invocation::ScanoutDmabuf(h) => {
                    let mut h = h;
                    h.release()
                },
                _ => None,
            };
            return Err(Rejected { error: DisplayError::ChannelClosed, closing });
        }
        match inv {
            Invocation::Scanout(s) => {
                match normalize(s.data.as_slice(), s.width, s.height, s.stride, s.pixman_format) {
                    Ok(buffer) => {
                        self.frame = Some((s.width, s.height));
                        Ok(DisplayEvent::FrameReady { buffer, width: s.width, height: s.height })
                    },
                    Err(e) => Err(Rejected { error: e, closing: None }),
                }
            },
            Invocation::Update(u) => {
                if u.width < 0 || u.height < 0 {
                    return Err(Rejected { error: DisplayError::FormatError, closing: None });
                }
                match normalize(
                    u.data.as_slice(),
                    u.width as u32,
                    u.height as u32,
                    u.stride,
                    u.pixman_format,
                ) {
                    Ok(buffer) => Ok(
                        DisplayEvent::RegionReady {
                            x: u.x,
                            y: u.y,
                            width: u.width,
                            height: u.height,
                            buffer,
                        },
                    ),
                    Err(e) => Err(Rejected { error: e, closing: None }),
                }
            },
            Invocation::ScanoutMap(_) => Err(
                Rejected { error: DisplayError::UnsupportedOperation, closing: None },
            ),
            Invocation::UpdateMap(_) => Err(
                Rejected { error: DisplayError::UnsupportedOperation, closing: None },
            ),
            Invocation::ScanoutDmabuf(h) => {
                if !self.dmabuf_supported {
                    let mut h = h;
                    let closing = h.release();
                    Err(Rejected { error: DisplayError::UnsupportedOperation, closing })
                } else if h.fd < 0 {
                    Err(Rejected { error: DisplayError::MapError, closing: None })
                } else {
                    Ok(DisplayEvent::ForeignFrameReady(h))
                }
            },
            Invocation::UpdateDmabuf(u) => {
                if !self.dmabuf_supported {
                    Err(Rejected { error: DisplayError::UnsupportedOperation, closing: None })
                } else {
                    Ok(DisplayEvent::ForeignRegionChanged(u))
                }
            },
            Invocation::MouseSet(m) => Ok(
                DisplayEvent::PointerChanged { x: m.x, y: m.y, on: m.on != 0 },
            ),
            Invocation::CursorDefine(c) => Ok(DisplayEvent::CursorChanged(c)),
            Invocation::Disconnected => {
                self.connected = false;
                self.frame = None;
                Ok(DisplayEvent::Disconnected)
            },
        }
    }

    /// A full frame arrived.
    pub fn scanout(
        &mut self,
        width: u32,
        height: u32,
        stride: u32,
        pixman_format: u32,
        data: Vec<u8>,
    ) -> (out: Result<DisplayEvent, Rejected>)
        ensures
            answers(
                old(self)@,
                Invocation::Scanout(Scanout { width, height, stride, pixman_format, data }),
                out,
            ),
            final(self)@ == next_state(
                old(self)@,
                Invocation::Scanout(Scanout { width, height, stride, pixman_format, data }),
            ),
    {
        self.handle(Invocation::Scanout(Scanout { width, height, stride, pixman_format, data }))
    }

    /// A rectangle of the last full frame arrived. Its data is validated
    /// like a frame's; its position is not held against the extent of the
    /// last full frame, which is the consumer's to do when it merges.
    pub fn update(
        &mut self,
        x: i32,
        y: i32,
        width: i32,
        height: i32,
        stride: u32,
        pixman_format: u32,
        data: Vec<u8>,
    ) -> (out: Result<DisplayEvent, Rejected>)
        ensures
            answers(
                old(self)@,
                Invocation::Update(Update { x, y, width, height, stride, pixman_format, data }),
                out,
            ),
            final(self)@ == next_state(
                old(self)@,
                Invocation::Update(Update { x, y, width, height, stride, pixman_format, data }),
            ),
    {
        self.handle(
            Invocation::Update(Update { x, y, width, height, stride, pixman_format, data }),
        )
    }

    /// A frame was offered through a shared-memory mapping handle, which is
    /// never available here: the call is refused and nothing is forwarded.
    pub fn scanout_map(
        &mut self,
        handle: u64,
        offset: u32,
        width: u32,
        height: u32,
        stride: u32,
        format: u32,
    ) -> (out: Result<DisplayEvent, Rejected>)
        ensures
            out is Err,
            answers(
                old(self)@,
                Invocation::ScanoutMap(ScanoutMap { handle, offset, width, height, stride, format }),
                out,
            ),
            final(self)@ == old(self)@,
    {
        self.handle(
            Invocation::ScanoutMap(ScanoutMap { handle, offset, width, height, stride, format }),
        )
    }

    /// A rectangle of a shared-memory frame changed: refused like the frame.
    pub fn update_map(&mut self, x: i32, y: i32, w: i32, h: i32) -> (out: Result<
        DisplayEvent,
        Rejected,
    >)
        ensures
            out is Err,
            answers(old(self)@, Invocation::UpdateMap(UpdateMap { x, y, w, h }), out),
            final(self)@ == old(self)@,
    {
        self.handle(Invocation::UpdateMap(UpdateMap { x, y, w, h }))
    }

    /// A foreign buffer arrived. `fd` is the listener's own duplicate of the
    /// descriptor that came with the call, negative where duplication
    /// failed. The handle is forwarded as it is; nothing is mapped here.
    /// Where the call is refused, the refusal hands `fd` back for closing.
    pub fn scanout_dmabuf(
        &mut self,
        fd: i32,
        width: u32,
        height: u32,
        stride: u32,
        fourcc: u32,
        modifier: u64,
        y0_top: bool,
    ) -> (out: Result<DisplayEvent, Rejected>)
        ensures
            answers(
                old(self)@,
                Invocation::ScanoutDmabuf(
                    ScanoutDMABUF { fd, width, height, stride, fourcc, modifier, y0_top },
                ),
                out,
            ),
            final(self)@ == old(self)@,
    {
        self.handle(
            Invocation::ScanoutDmabuf(
                ScanoutDMABUF { fd, width, height, stride, fourcc, modifier, y0_top },
            ),
        )
    }

    /// A rectangle of the foreign buffer delivered last has changed.
    pub fn update_dmabuf(&mut self, x: i32, y: i32, w: i32, h: i32) -> (out: Result<
        DisplayEvent,
        Rejected,
    >)
        ensures
            answers(old(self)@, Invocation::UpdateDmabuf(UpdateDMABUF { x, y, w, h }), out),
            final(self)@ == old(self)@,
    {
        self.handle(Invocation::UpdateDmabuf(UpdateDMABUF { x, y, w, h }))
    }

    /// The pointer moved, or was shown or hidden.
    pub fn mouse_set(&mut self, x: i32, y: i32, on: i32) -> (out: Result<
        DisplayEvent,
        Rejected,
    >)
        ensures
            answers(old(self)@, Invocation::MouseSet(MouseSet { x, y, on }), out),
            final(self)@ == old(self)@,
    {
        self.handle(Invocation::MouseSet(MouseSet { x, y, on }))
    }

    /// A new cursor image was defined.
    pub fn cursor_define(
        &mut self,
        width: i32,
        height: i32,
        hot_x: i32,
        hot_y: i32,
        data: Vec<u8>,
    ) -> (out: Result<DisplayEvent, Rejected>)
        ensures
            answers(
                old(self)@,
                Invocation::CursorDefine(Cursor { width, height, hot_x, hot_y, data }),
                out,
            ),
            final(self)@ == old(self)@,
    {
        self.handle(Invocation::CursorDefine(Cursor { width, height, hot_x, hot_y, data }))
    }

    /// The session is torn down. The first call forwards the notice to the
    /// consumer and forgets the last frame. From then on the listener stays
    /// torn down: whatever arrives later, a second teardown notice included,
    /// is answered with `ChannelClosed` and forwards nothing.
    pub fn disconnected(&mut self) -> (out: Result<DisplayEvent, Rejected>)
        ensures
            old(self)@.connected ==> (out matches Ok(event) && event is Disconnected),
            !old(self)@.connected ==> out == Err::<DisplayEvent, Rejected>(
                Rejected { error: DisplayError::ChannelClosed, closing: None },
            ),
            !final(self)@.connected,
            final(self)@ == next_state(old(self)@, Invocation::Disconnected),
    {
        self.handle(Invocation::Disconnected)
    }

    /// The consumer is gone: forwarding an event failed because nobody
    /// receives any more. Intake stops: the listener counts as torn down and
    /// answers every later notification with `ChannelClosed`.
    pub fn consumer_gone(&mut self) -> (error: DisplayError)
        ensures
            error == DisplayError::ChannelClosed,
            final(self)@ == (ListenerState { connected: false, frame: None, ..old(self)@ }),
    {
        self.connected = false;
        self.frame = None;
        DisplayError::ChannelClosed
    }

    /// Handles a batch of notifications in the order given. The answers come
    /// back in the same order, one for each notification: answer `i` is the
    /// answer to notification `i` in the state that the notifications before
    /// it have left.
    pub fn handle_all(&mut self, invs: Vec<Invocation>) -> (outs: Vec<
        Result<DisplayEvent, Rejected>,
    >)
        ensures
            outs@.len() == invs@.len(),
            forall|i: int|
                0 <= i < invs@.len() ==> answers(
                    state_after(old(self)@, invs@.take(i)),
                    invs@[i],
                    #[trigger] outs@[i],
                ),
            final(self)@ == state_after(old(self)@, invs@),
    {
        let ghost all = invs@;
        let ghost start = self@;
        let mut rest = invs;
        let mut outs: Vec<Result<DisplayEvent, Rejected>> = Vec::new();
        assert(all.take(0) =~= Seq::<Invocation>::empty());
        while rest.len() > 0
            invariant
                outs@.len() + rest@.len() == all.len(),
                rest@ == all.skip(outs@.len() as int),
                self@ == state_after(start, all.take(outs@.len() as int)),
                forall|i: int|
                    0 <= i < outs@.len() ==> answers(
                        state_after(start, all.take(i)),
                        all[i],
                        #[trigger] outs@[i],
                    ),
            decreases rest@.len(),
        {
            let ghost n = outs@.len() as int;
            let inv = rest.remove(0);
            let out = self.handle(inv);
            outs.push(out);
            proof {
                assert(inv == all[n]);
                assert(all.take(n + 1).drop_last() =~= all.take(n));
                assert(all.take(n + 1).last() == all[n]);
                assert(rest@ =~= all.skip(n + 1));
            }
        }
        assert(all.take(all.len() as int) =~= all);
        outs
    }
}

/// A well-formed full frame or region of one.
pub open spec fn is_frame_traffic(inv: Invocation) -> bool {
    ||| inv matches Invocation::Scanout(s) && s.well_formed()
    ||| inv matches Invocation::Update(u) && u.well_formed()
}

/// A notification that is answered with an error leaves the listener as it
/// was: errors of single calls never end a session.
pub proof fn lemma_rejection_keeps_state(state: ListenerState, inv: Invocation)
    requires
        rejection(state, inv) is Some,
    ensures
        next_state(state, inv) == state,
{
}

/// Where foreign memory is not supported, a foreign-memory notification is
/// answered with `UnsupportedOperation`, forwards nothing and changes
/// nothing.
pub proof fn lemma_unsupported_is_refused(
    state: ListenerState,
    inv: Invocation,
    out: Result<DisplayEvent, Rejected>,
)
    requires
        state.connected,
        !state.dmabuf_supported,
        inv is ScanoutDmabuf || inv is UpdateDmabuf,
        answers(state, inv, out),
    ensures
        out matches Err(refusal) && refusal.error == DisplayError::UnsupportedOperation,
        next_state(state, inv) == state,
{
}

/// The descriptor of a foreign buffer has one owner at every moment. Where
/// the notification is forwarded, the handle goes to the consumer inside the
/// event, descriptor and all. Where it is refused, the refusal hands the
/// descriptor out for closing exactly when there is one, that is when it is
/// not negative; a notification of any other kind leaves nothing to close.
pub proof fn lemma_refused_descriptor_is_handed_out(
    state: ListenerState,
    inv: Invocation,
    out: Result<DisplayEvent, Rejected>,
)
    requires
        answers(state, inv, out),
    ensures
        inv matches Invocation::ScanoutDmabuf(h) ==> match out {
            Ok(event) => event == DisplayEvent::ForeignFrameReady(h) && h.owns_descriptor(),
            Err(refusal) => (refusal.closing is Some <==> h.fd >= 0) && (h.fd >= 0
                ==> refusal.closing == Some(h.fd)),
        },
        !(inv is ScanoutDmabuf) ==> (out matches Err(refusal) ==> refusal.closing is None),
{
}

/// Only a teardown notice ends a session: any other run of notifications
/// leaves a connected listener connected, with its capabilities unchanged.
pub proof fn lemma_session_survives(state: ListenerState, invs: Seq<Invocation>)
    requires
        state.connected,
        forall|i: int| 0 <= i < invs.len() ==> !(#[trigger] invs[i] is Disconnected),
    ensures
        state_after(state, invs).connected,
        state_after(state, invs).dmabuf_supported == state.dmabuf_supported,
    decreases invs.len(),
{
    if invs.len() > 0 {
        let front = invs.drop_last();
        assert forall|i: int| 0 <= i < front.len() implies !(#[trigger] front[i] is Disconnected) by {
            assert(front[i] == invs[i]);
        }
        lemma_session_survives(state, front);
        assert(!(invs[invs.len() - 1] is Disconnected));
    }
}

/// Frames and their updates reach the consumer in the order in which they
/// arrived: when a connected listener answers a run of well-formed frames
/// and regions, every answer is an event, and answer `i` is the event of
/// notification `i`.
pub proof fn lemma_delivered_in_order(
    state: ListenerState,
    invs: Seq<Invocation>,
    outs: Seq<Result<DisplayEvent, Rejected>>,
)
    requires
        state.connected,
        outs.len() == invs.len(),
        forall|i: int| 0 <= i < invs.len() ==> is_frame_traffic(#[trigger] invs[i]),
        forall|i: int|
            0 <= i < invs.len() ==> answers(
                state_after(state, invs.take(i)),
                invs[i],
                #[trigger] outs[i],
            ),
    ensures
        forall|i: int|
            0 <= i < invs.len() ==> (#[trigger] outs[i] matches Ok(event) && delivers(
                invs[i],
                event,
            )),
{
    assert forall|i: int| 0 <= i < invs.len() implies (#[trigger] outs[i] matches Ok(event)
        && delivers(invs[i], event)) by {
        let before = invs.take(i);
        assert forall|j: int| 0 <= j < before.len() implies !(#[trigger] before[j]
            is Disconnected) by {
            assert(before[j] == invs[j]);
            assert(is_frame_traffic(invs[j]));
        }
        lemma_session_survives(state, before);
        assert(is_frame_traffic(invs[i]));
        assert(rejection(state_after(state, before), invs[i]) is None);
    }
}

} // verus!
