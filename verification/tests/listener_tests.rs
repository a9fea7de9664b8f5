use qemu_display::dmabuf::ScanoutDMABUF;
use qemu_display::error::DisplayError;
use qemu_display::format::PIXMAN_A8R8G8B8;
use qemu_display::frames::{Cursor, MouseSet, Scanout, ScanoutMap, Update, UpdateDMABUF, UpdateMap};
use qemu_display::listener::{DisplayEvent, Invocation, Listener, Rejected};

#[test]
fn scanout_delivers_a_white_frame() {
    let mut l = Listener::new(true);
    match l.scanout(4, 2, 16, PIXMAN_A8R8G8B8, vec![0xFF; 64]) {
        Ok(DisplayEvent::FrameReady { buffer, width, height }) => {
            assert_eq!(width, 4);
            assert_eq!(height, 2);
            assert_eq!(buffer, vec![0xFFu8; 32]);
        }
        other => panic!("unexpected answer: {:?}", other),
    }
    assert_eq!(l.last_frame(), Some((4, 2)));
}

#[test]
fn update_after_scanout_delivers_one_patch_with_its_rectangle() {
    let mut l = Listener::new(true);
    assert!(matches!(
        l.scanout(4, 4, 16, PIXMAN_A8R8G8B8, vec![0; 64]),
        Ok(DisplayEvent::FrameReady { .. })
    ));
    match l.update(1, 1, 1, 1, 4, PIXMAN_A8R8G8B8, vec![1, 2, 3, 4]) {
        Ok(DisplayEvent::RegionReady { x, y, width, height, buffer }) => {
            assert_eq!((x, y, width, height), (1, 1, 1, 1));
            assert_eq!(buffer, vec![3u8, 2, 1, 4]);
        }
        other => panic!("unexpected answer: {:?}", other),
    }
    // the cached frame is not touched by an update
    assert_eq!(l.last_frame(), Some((4, 4)));
}

#[test]
fn malformed_scanout_is_dropped_and_session_lives() {
    let mut l = Listener::new(true);
    assert!(matches!(l.scanout(4, 2, 16, PIXMAN_A8R8G8B8, vec![0; 31]), Err(Rejected { error: DisplayError::FormatError, closing: None })));
    assert!(l.is_connected());
    assert_eq!(l.last_frame(), None);
    assert!(matches!(l.scanout(4, 2, 16, PIXMAN_A8R8G8B8, vec![0; 32]), Ok(DisplayEvent::FrameReady { .. })));
}

#[test]
fn update_with_negative_extent_is_rejected() {
    let mut l = Listener::new(true);
    assert!(matches!(l.update(0, 0, -1, 1, 4, PIXMAN_A8R8G8B8, vec![0; 4]), Err(Rejected { error: DisplayError::FormatError, closing: None })));
    assert!(matches!(l.update(0, 0, 1, -1, 4, PIXMAN_A8R8G8B8, vec![0; 4]), Err(Rejected { error: DisplayError::FormatError, closing: None })));
    assert!(matches!(l.update(0, 0, 1, 2, 4, PIXMAN_A8R8G8B8, vec![0; 4]), Err(Rejected { error: DisplayError::FormatError, closing: None })));
    assert!(l.is_connected());
}

#[test]
fn invalid_descriptor_gives_map_error_and_next_scanout_is_delivered() {
    let mut l = Listener::new(true);
    assert!(matches!(l.scanout_dmabuf(-1, 4, 4, 16, 0x34325241, 0, true), Err(Rejected { error: DisplayError::MapError, closing: None })));
    assert!(l.is_connected());
    assert!(matches!(
        l.scanout(4, 2, 16, PIXMAN_A8R8G8B8, vec![0xFF; 64]),
        Ok(DisplayEvent::FrameReady { width: 4, height: 2, .. })
    ));
}

#[test]
fn foreign_frame_is_forwarded_as_a_handle() {
    let mut l = Listener::new(true);
    match l.scanout_dmabuf(7, 640, 480, 2560, 0x34325241, 9, true) {
        Ok(DisplayEvent::ForeignFrameReady(h)) => {
            assert_eq!(h.fd, 7);
            assert_eq!((h.width, h.height, h.stride), (640, 480, 2560));
            assert_eq!(h.fourcc, 0x34325241);
            assert_eq!(h.modifier, 9);
            assert!(h.y0_top);
        }
        other => panic!("unexpected answer: {:?}", other),
    }
    match l.update_dmabuf(1, 2, 3, 4) {
        Ok(DisplayEvent::ForeignRegionChanged(u)) => assert_eq!((u.x, u.y, u.w, u.h), (1, 2, 3, 4)),
        other => panic!("unexpected answer: {:?}", other),
    }
}

#[test]
fn foreign_memory_is_refused_where_unsupported() {
    let mut l = Listener::new(false);
    assert!(!l.supports_dmabuf());
    assert!(matches!(
        l.scanout_dmabuf(7, 1, 1, 4, 0, 0, false),
        Err(Rejected { error: DisplayError::UnsupportedOperation, closing: Some(7) })
    ));
    assert!(matches!(l.update_dmabuf(0, 0, 1, 1), Err(Rejected { error: DisplayError::UnsupportedOperation, closing: None })));
    assert!(l.is_connected());
    assert!(matches!(l.mouse_set(1, 2, 1), Ok(DisplayEvent::PointerChanged { x: 1, y: 2, on: true })));
}

#[test]
fn shared_map_is_always_refused() {
    let mut l = Listener::new(true);
    assert!(matches!(l.scanout_map(1, 0, 4, 4, 16, 0), Err(Rejected { error: DisplayError::UnsupportedOperation, closing: None })));
    assert!(matches!(l.update_map(0, 0, 1, 1), Err(Rejected { error: DisplayError::UnsupportedOperation, closing: None })));
    assert!(l.is_connected());
}

#[test]
fn pointer_and_cursor_are_forwarded() {
    let mut l = Listener::new(true);
    assert!(matches!(l.mouse_set(10, 20, 0), Ok(DisplayEvent::PointerChanged { x: 10, y: 20, on: false })));
    match l.cursor_define(2, 1, 1, 0, vec![9, 8, 7, 6, 5, 4, 3, 2]) {
        Ok(DisplayEvent::CursorChanged(c)) => {
            assert_eq!((c.width, c.height, c.hot_x, c.hot_y), (2, 1, 1, 0));
            assert_eq!(c.data, vec![9u8, 8, 7, 6, 5, 4, 3, 2]);
        }
        other => panic!("unexpected answer: {:?}", other),
    }
}

#[test]
fn disconnected_is_delivered_once_and_intake_stops() {
    let mut l = Listener::new(true);
    assert!(matches!(l.scanout(1, 1, 4, PIXMAN_A8R8G8B8, vec![0; 4]), Ok(_)));
    assert!(matches!(l.disconnected(), Ok(DisplayEvent::Disconnected)));
    assert!(!l.is_connected());
    assert_eq!(l.last_frame(), None);
    assert!(matches!(l.disconnected(), Err(Rejected { error: DisplayError::ChannelClosed, closing: None })));
    assert!(matches!(l.scanout(1, 1, 4, PIXMAN_A8R8G8B8, vec![0; 4]), Err(Rejected { error: DisplayError::ChannelClosed, closing: None })));
    assert!(matches!(l.mouse_set(0, 0, 1), Err(Rejected { error: DisplayError::ChannelClosed, closing: None })));
}

#[test]
fn consumer_gone_stops_intake() {
    let mut l = Listener::new(true);
    assert_eq!(l.consumer_gone(), DisplayError::ChannelClosed);
    assert!(!l.is_connected());
    assert!(matches!(l.update_dmabuf(0, 0, 1, 1), Err(Rejected { error: DisplayError::ChannelClosed, closing: None })));
}

#[test]
fn batch_is_answered_in_order() {
    let mut l = Listener::new(true);
    let invs = vec![
        Invocation::Scanout(Scanout { width: 2, height: 1, stride: 8, pixman_format: PIXMAN_A8R8G8B8, data: vec![1; 8] }),
        Invocation::Update(Update { x: 0, y: 0, width: 1, height: 1, stride: 4, pixman_format: PIXMAN_A8R8G8B8, data: vec![2; 4] }),
        Invocation::Update(Update { x: 1, y: 0, width: 1, height: 1, stride: 4, pixman_format: PIXMAN_A8R8G8B8, data: vec![3; 3] }),
        Invocation::MouseSet(MouseSet { x: 5, y: 6, on: 1 }),
        Invocation::ScanoutMap(ScanoutMap { handle: 1, offset: 0, width: 1, height: 1, stride: 4, format: 0 }),
        Invocation::UpdateMap(UpdateMap { x: 0, y: 0, w: 1, h: 1 }),
        Invocation::ScanoutDmabuf(ScanoutDMABUF { fd: 4, width: 1, height: 1, stride: 4, fourcc: 0, modifier: 0, y0_top: false }),
        Invocation::UpdateDmabuf(UpdateDMABUF { x: 0, y: 0, w: 1, h: 1 }),
        Invocation::CursorDefine(Cursor { width: 1, height: 1, hot_x: 0, hot_y: 0, data: vec![0; 4] }),
        Invocation::Update(Update { x: 1, y: 0, width: 1, height: 1, stride: 4, pixman_format: PIXMAN_A8R8G8B8, data: vec![4; 4] }),
        Invocation::Disconnected,
        Invocation::Scanout(Scanout { width: 1, height: 1, stride: 4, pixman_format: PIXMAN_A8R8G8B8, data: vec![5; 4] }),
    ];
    let outs = l.handle_all(invs);
    assert_eq!(outs.len(), 12);
    assert!(matches!(&outs[0], Ok(DisplayEvent::FrameReady { buffer, width: 2, height: 1 }) if *buffer == vec![1u8; 8]));
    assert!(matches!(&outs[1], Ok(DisplayEvent::RegionReady { x: 0, buffer, .. }) if *buffer == vec![2u8; 4]));
    assert!(matches!(&outs[2], Err(Rejected { error: DisplayError::FormatError, closing: None })));
    assert!(matches!(&outs[3], Ok(DisplayEvent::PointerChanged { x: 5, y: 6, on: true })));
    assert!(matches!(&outs[4], Err(Rejected { error: DisplayError::UnsupportedOperation, closing: None })));
    assert!(matches!(&outs[5], Err(Rejected { error: DisplayError::UnsupportedOperation, closing: None })));
    assert!(matches!(&outs[6], Ok(DisplayEvent::ForeignFrameReady(h)) if h.fd == 4));
    assert!(matches!(&outs[7], Ok(DisplayEvent::ForeignRegionChanged(_))));
    assert!(matches!(&outs[8], Ok(DisplayEvent::CursorChanged(_))));
    assert!(matches!(&outs[9], Ok(DisplayEvent::RegionReady { x: 1, buffer, .. }) if *buffer == vec![4u8; 4]));
    assert!(matches!(&outs[10], Ok(DisplayEvent::Disconnected)));
    assert!(matches!(&outs[11], Err(Rejected { error: DisplayError::ChannelClosed, closing: None })));
    assert!(!l.is_connected());
}

#[test]
fn empty_batch_changes_nothing() {
    let mut l = Listener::new(false);
    assert!(l.handle_all(Vec::new()).is_empty());
    assert!(l.is_connected());
    assert_eq!(l.last_frame(), None);
}

#[test]
fn only_transport_errors_are_fatal() {
    assert!(DisplayError::TransportError.is_fatal());
    assert!(!DisplayError::RegistrationError.is_fatal());
    assert!(!DisplayError::FormatError.is_fatal());
    assert!(!DisplayError::MapError.is_fatal());
    assert!(!DisplayError::UnsupportedOperation.is_fatal());
    assert!(!DisplayError::ChannelClosed.is_fatal());
}

#[test]
fn refused_foreign_buffer_hands_its_descriptor_out() {
    // unsupported: the descriptor comes back for closing
    let mut l = Listener::new(false);
    match l.scanout_dmabuf(0, 4, 4, 16, 0, 0, true) {
        Err(r) => assert_eq!(r, Rejected { error: DisplayError::UnsupportedOperation, closing: Some(0) }),
        other => panic!("unexpected answer: {:?}", other),
    }
    // torn down: likewise
    let mut l = Listener::new(true);
    assert!(matches!(l.disconnected(), Ok(DisplayEvent::Disconnected)));
    match l.scanout_dmabuf(12, 4, 4, 16, 0, 0, true) {
        Err(r) => assert_eq!(r, Rejected { error: DisplayError::ChannelClosed, closing: Some(12) }),
        other => panic!("unexpected answer: {:?}", other),
    }
    // no descriptor, nothing to close
    match l.scanout_dmabuf(-3, 4, 4, 16, 0, 0, true) {
        Err(r) => assert_eq!(r, Rejected { error: DisplayError::ChannelClosed, closing: None }),
        other => panic!("unexpected answer: {:?}", other),
    }
    let mut l = Listener::new(false);
    match l.scanout_dmabuf(-1, 4, 4, 16, 0, 0, true) {
        Err(r) => assert_eq!(r, Rejected { error: DisplayError::UnsupportedOperation, closing: None }),
        other => panic!("unexpected answer: {:?}", other),
    }
}

#[test]
fn refusals_of_other_calls_leave_nothing_to_close() {
    let mut l = Listener::new(false);
    for out in [
        l.scanout(1, 1, 4, 0, vec![0; 4]),
        l.update(0, 0, 1, 1, 4, PIXMAN_A8R8G8B8, vec![0; 3]),
        l.scanout_map(1, 0, 1, 1, 4, 0),
        l.update_map(0, 0, 1, 1),
        l.update_dmabuf(0, 0, 1, 1),
    ] {
        match out {
            Err(r) => assert_eq!(r.closing, None),
            other => panic!("unexpected answer: {:?}", other),
        }
    }
}

#[test]
fn accepted_foreign_buffer_keeps_its_descriptor() {
    let mut l = Listener::new(true);
    match l.handle(Invocation::ScanoutDmabuf(ScanoutDMABUF {
        fd: 0, width: 1, height: 1, stride: 4, fourcc: 0, modifier: 0, y0_top: false,
    })) {
        Ok(DisplayEvent::ForeignFrameReady(mut h)) => {
            assert_eq!(h.fd, 0);
            assert_eq!(h.release(), Some(0));
        }
        other => panic!("unexpected answer: {:?}", other),
    }
}
