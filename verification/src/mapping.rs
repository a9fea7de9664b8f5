//! The steps of reading a foreign buffer: map, copy, unmap, deliver.
//!
//! The caller performs each system call and reports its outcome as an
//! event; the session answers with the next action. The transition table
//! is the whole policy: a mapping that was obtained is released once, and
//! before the read is complete.

use vstd::prelude::*;
use crate::dmabuf::ScanoutDMABUF;
use crate::error::DisplayError;

verus! {

/// Where a read of a foreign buffer stands.
#[derive(Clone, Copy, Debug, PartialEq, Eq, Structural)]
pub enum MapPhase {
    /// The mapping was requested and its outcome is not known yet.
    Mapping,
    /// The region is mapped and its bytes are being copied.
    Mapped,
    /// The copy is made and the release of the mapping was requested.
    Unmapping,
    /// The mapping is released and the copy can be handed on.
    Done,
    /// The region could not be mapped.
    Failed,
}

/// What the caller reports.
#[derive(Clone, Copy, Debug, PartialEq, Eq, Structural)]
pub enum MapEvent {
    MapSucceeded,
    MapFailed,
    Copied,
    Unmapped,
}

/// What the caller is to do next.
#[derive(Clone, Copy, Debug, PartialEq, Eq, Structural)]
pub enum MapAction {
    /// Copy `len` bytes out of the mapped region into an owned buffer.
    Copy { len: usize },
    /// Release the mapping of `len` bytes.
    Unmap { len: usize },
    /// Hand the owned copy on.
    Deliver,
    /// Report the error; there is nothing to release.
    Fail(DisplayError),
    /// The event does not belong to the current phase and changes nothing.
    Nothing,
}

/// The transition table.
pub open spec fn map_transition(phase: MapPhase, len: usize, event: MapEvent) -> (
    MapPhase,
    MapAction,
) {
    match (phase, event) {
        (MapPhase::Mapping, MapEvent::MapSucceeded) => (MapPhase::Mapped, MapAction::Copy { len }),
        (MapPhase::Mapping, MapEvent::MapFailed) => (
            MapPhase::Failed,
            MapAction::Fail(DisplayError::MapError),
        ),
        (MapPhase::Mapped, MapEvent::Copied) => (MapPhase::Unmapping, MapAction::Unmap { len }),
        (MapPhase::Unmapping, MapEvent::Unmapped) => (MapPhase::Done, MapAction::Deliver),
        _ => (phase, MapAction::Nothing),
    }
}

/// Whether a mapping exists in this phase.
pub open spec fn holds_mapping(phase: MapPhase) -> bool {
    phase == MapPhase::Mapped || phase == MapPhase::Unmapping
}

/// The phase reached from `phase` after `events`, in order.
pub open spec fn phase_after(phase: MapPhase, len: usize, events: Seq<MapEvent>) -> MapPhase
    decreases events.len(),
{
    if events.len() == 0 {
        phase
    } else {
        phase_after(map_transition(phase, len, events[0]).0, len, events.drop_first())
    }
}

/// How many times the caller is told to release the mapping while `events`
/// are handled from `phase`.
pub open spec fn unmaps_requested(phase: MapPhase, len: usize, events: Seq<MapEvent>) -> nat
    decreases events.len(),
{
    if events.len() == 0 {
        0
    } else {
        let step = map_transition(phase, len, events[0]);
        let here: nat = if step.1 is Unmap {
            1
        } else {
            0
        };
        here + unmaps_requested(step.0, len, events.drop_first())
    }
}

/// One read of one foreign buffer.
#[derive(Debug)]
pub struct MapSession {
    phase: MapPhase,
    fd: i32,
    len: usize,
}

impl MapSession {
    pub closed spec fn spec_phase(&self) -> MapPhase {
        self.phase
    }

    pub closed spec fn spec_fd(&self) -> i32 {
        self.fd
    }

    pub closed spec fn spec_len(&self) -> usize {
        self.len
    }

    /// Starts a read of the buffer behind `handle`. The caller is to map
    /// `len()` bytes of descriptor `fd()`, read-only and shared.
    ///
    /// A handle that owns no descriptor, or whose region is larger than the
    /// address space, cannot be mapped: `MapError`.
    pub fn begin(handle: &ScanoutDMABUF) -> (out: Result<MapSession, DisplayError>)
        ensures
            out is Ok <==> handle.owns_descriptor() && handle.region_len() <= usize::MAX,
            out matches Ok(session) ==> session.spec_phase() == MapPhase::Mapping
                && session.spec_fd() == handle.fd && session.spec_len() == handle.region_len(),
            out matches Err(e) ==> e == DisplayError::MapError,
    {
        if handle.fd < 0 {
            return Err(DisplayError::MapError);
        }
        assert(handle.stride * handle.height <= 0xffff_ffff * 0xffff_ffff) by (nonlinear_arith)
            requires
                handle.stride <= 0xffff_ffff,
                handle.height <= 0xffff_ffff,
        ;
        let size: u64 = (handle.stride as u64) * (handle.height as u64);
        if size > usize::MAX as u64 {
            return Err(DisplayError::MapError);
        }
        Ok(MapSession { phase: MapPhase::Mapping, fd: handle.fd, len: size as usize })
    }

    #[verifier::when_used_as_spec(spec_phase)]
    pub fn phase(&self) -> (phase: MapPhase)
        ensures
            phase == self.spec_phase(),
    {
        self.phase
    }

    /// The descriptor to map.
    #[verifier::when_used_as_spec(spec_fd)]
    pub fn fd(&self) -> (fd: i32)
        ensures
            fd == self.spec_fd(),
    {
        self.fd
    }

    /// The number of bytes to map, copy and unmap.
    #[verifier::when_used_as_spec(spec_len)]
    pub fn len(&self) -> (len: usize)
        ensures
            len == self.spec_len(),
    {
        self.len
    }

    /// Takes the caller's report and answers with the next action.
    pub fn step(&mut self, event: MapEvent) -> (action: MapAction)
        ensures
            (final(self).spec_phase(), action) == map_transition(
                old(self).spec_phase(),
                old(self).spec_len(),
                event,
            ),
            final(self).spec_fd() == old(self).spec_fd(),
            final(self).spec_len() == old(self).spec_len(),
    {
        let len = self.len;
        match (self.phase, event) {
            (MapPhase::Mapping, MapEvent::MapSucceeded) => {
                self.phase = MapPhase::Mapped;
                MapAction::Copy { len }
            },
            (MapPhase::Mapping, MapEvent::MapFailed) => {
                self.phase = MapPhase::Failed;
                MapAction::Fail(DisplayError::MapError)
            },
            (MapPhase::Mapped, MapEvent::Copied) => {
                self.phase = MapPhase::Unmapping;
                MapAction::Unmap { len }
            },
            (MapPhase::Unmapping, MapEvent::Unmapped) => {
                self.phase = MapPhase::Done;
                MapAction::Deliver
            },
            _ => MapAction::Nothing,
        }
    }
}

/// How many releases have been requested by the time `phase` is reached.
pub open spec fn unmaps_behind(phase: MapPhase) -> nat {
    if phase == MapPhase::Unmapping || phase == MapPhase::Done {
        1
    } else {
        0
    }
}

/// Along any run, the releases requested are the difference between those
/// behind the last phase and those behind the first.
pub proof fn lemma_unmaps_along_run(phase: MapPhase, len: usize, events: Seq<MapEvent>)
    ensures
        unmaps_behind(phase) + unmaps_requested(phase, len, events) == unmaps_behind(
            phase_after(phase, len, events),
        ),
    decreases events.len(),
{
    if events.len() > 0 {
        lemma_unmaps_along_run(map_transition(phase, len, events[0]).0, len, events.drop_first());
    }
}

/// Whatever the caller reports and in whatever order, a read that is
/// complete has released its mapping exactly once, a read that failed never
/// had one to release, and no read is told to release twice. A copy is
/// delivered only from a phase in which no mapping exists.
pub proof fn lemma_mapping_released_once(len: usize, events: Seq<MapEvent>)
    ensures
        unmaps_requested(MapPhase::Mapping, len, events) <= 1,
        phase_after(MapPhase::Mapping, len, events) == MapPhase::Done ==> unmaps_requested(
            MapPhase::Mapping,
            len,
            events,
        ) == 1,
        phase_after(MapPhase::Mapping, len, events) == MapPhase::Failed ==> unmaps_requested(
            MapPhase::Mapping,
            len,
            events,
        ) == 0,
        !holds_mapping(MapPhase::Done),
        !holds_mapping(MapPhase::Failed),
        forall|phase: MapPhase, event: MapEvent|
            (#[trigger] map_transition(phase, len, event)).1 == MapAction::Deliver
                ==> !holds_mapping(map_transition(phase, len, event).0),
{
    lemma_unmaps_along_run(MapPhase::Mapping, len, events);
}

} // verus!
