use early_mm::mmap::{MmapStage, MMAP_HINT_BIAS};
use early_mm::{MappingFlags, MmapAction, MmapCall, MmapEvent, MmapRequest};

const BASE: usize = 0x1000;
const SIZE: usize = 0x7fff_f000;

fn request(addr: usize, length: usize, prot: i32, fd: i32) -> MmapRequest {
    MmapRequest { addr, length, prot, flags: 0x2, fd, offset: 0 }
}

fn user(read: bool, write: bool, execute: bool) -> MappingFlags {
    MappingFlags { read, write, execute, user: true }
}

/// Feeds `events` to a call for `req` and collects every action.
fn drive(req: MmapRequest, events: Vec<MmapEvent>) -> (MmapCall, Vec<MmapAction>) {
    assert!(req.is_in_range());
    let (mut call, first) = MmapCall::start(req);
    let mut actions = vec![first];
    for event in events {
        assert!(call.expects(&event));
        let (next, action) = call.step(event);
        call = next;
        actions.push(action);
    }
    (call, actions)
}

#[test]
fn call_begins_by_locking() {
    let req = request(0, 10, 3, 5);
    let (call, action) = MmapCall::start(req);
    assert_eq!(action, MmapAction::Lock);
    assert_eq!(call.stage(), MmapStage::Locking);
    assert_eq!(call.request(), req);
    assert!(!call.is_done());
}

#[test]
fn search_starts_at_biased_page_of_hint() {
    let (_, actions) = drive(request(0x1234, 100, 3, 5), vec![MmapEvent::Locked { base: BASE, size: SIZE }]);
    assert_eq!(
        actions[1],
        MmapAction::FindFreeArea { hint: 0x10_1000, size: 0x1000, limit_start: BASE, limit_end: BASE + SIZE }
    );
}

#[test]
fn null_hint_searches_from_the_bias() {
    let (call, actions) = drive(request(0, 0x1000, 1, 5), vec![MmapEvent::Locked { base: BASE, size: SIZE }]);
    assert_eq!(MMAP_HINT_BIAS, 0x10_0000);
    assert_eq!(
        actions[1],
        MmapAction::FindFreeArea { hint: 0x10_0000, size: 0x1000, limit_start: BASE, limit_end: BASE + SIZE }
    );
    assert_eq!(call.stage(), MmapStage::Searching);
}

#[test]
fn length_is_rounded_up_to_pages() {
    for (length, size) in [(0usize, 0usize), (1, 0x1000), (0xfff, 0x1000), (0x1000, 0x1000), (0x1001, 0x2000), (0x2fff, 0x3000)] {
        let (_, actions) = drive(request(0, length, 1, 5), vec![MmapEvent::Locked { base: BASE, size: SIZE }]);
        assert_eq!(
            actions[1],
            MmapAction::FindFreeArea { hint: 0x10_0000, size, limit_start: BASE, limit_end: BASE + SIZE }
        );
    }
}

#[test]
fn hint_at_the_top_of_the_range_is_accepted() {
    let req = request(usize::MAX - MMAP_HINT_BIAS, usize::MAX - 4096, 0, 0);
    assert!(req.is_in_range());
    let (_, actions) = drive(req, vec![MmapEvent::Locked { base: 0, size: 0 }]);
    assert_eq!(
        actions[1],
        MmapAction::FindFreeArea {
            hint: usize::MAX - 4095,
            size: usize::MAX - 4095,
            limit_start: 0,
            limit_end: 0
        }
    );
}

#[test]
fn requests_beyond_the_machine_are_out_of_range() {
    assert!(!request(usize::MAX - MMAP_HINT_BIAS + 1, 0, 0, 0).is_in_range());
    assert!(!request(usize::MAX, 0, 0, 0).is_in_range());
    assert!(request(0, usize::MAX - 4096, 0, 0).is_in_range());
    assert!(!request(0, usize::MAX - 4095, 0, 0).is_in_range());
    assert!(!request(0, usize::MAX, 0, 0).is_in_range());
    assert!(request(0, 0, 0, 0).is_in_range());
}

#[test]
fn request_decodes_its_bitmasks() {
    let req = MmapRequest { addr: 0, length: 1, prot: 0x5, flags: 0x22, fd: 0, offset: 0 };
    assert_eq!(req.permissions(), user(true, false, true));
    let mapping = req.mapping();
    assert!(mapping.private && mapping.anonymous);
    assert!(!mapping.shared && !mapping.fixed && !mapping.noreserve && !mapping.stack);
}

#[test]
fn no_free_area_returns_enomem_without_mapping() {
    let (call, actions) = drive(
        request(0, 100, 3, 5),
        vec![MmapEvent::Locked { base: BASE, size: SIZE }, MmapEvent::AreaFound { start: None }],
    );
    assert_eq!(actions.len(), 3);
    assert_eq!(actions[2], MmapAction::Return { value: -12 });
    assert!(call.is_done());
    assert!(!actions.iter().any(|a| matches!(a, MmapAction::MapAlloc { .. })));
}

#[test]
fn found_area_is_committed_with_the_requested_permissions() {
    let cases = [
        (0, user(false, false, false)),
        (1, user(true, false, false)),
        (2, user(false, true, false)),
        (3, user(true, true, false)),
        (4, user(false, false, true)),
        (5, user(true, false, true)),
        (6, user(false, true, true)),
        (7, user(true, true, true)),
        (0x10 | 1, user(true, false, false)),
        (-1, user(true, true, true)),
    ];
    for (prot, flags) in cases {
        let (call, actions) = drive(
            request(0, 0x1800, prot, 5),
            vec![
                MmapEvent::Locked { base: BASE, size: SIZE },
                MmapEvent::AreaFound { start: Some(0x20_0000) },
            ],
        );
        assert_eq!(
            actions[2],
            MmapAction::MapAlloc { start: 0x20_0000, size: 0x2000, flags, populate: true }
        );
        assert_eq!(call.stage(), MmapStage::Committing { start: 0x20_0000 });
    }
}

#[test]
fn commit_failure_returns_enomem() {
    let (call, actions) = drive(
        request(0, 100, 3, 5),
        vec![
            MmapEvent::Locked { base: BASE, size: SIZE },
            MmapEvent::AreaFound { start: Some(0x20_0000) },
            MmapEvent::Mapped { ok: false },
        ],
    );
    assert_eq!(actions.len(), 4);
    assert_eq!(actions[3], MmapAction::Return { value: -12 });
    assert!(call.is_done());
}

#[test]
fn bad_descriptor_returns_ebadf_and_keeps_mapping() {
    let (call, actions) = drive(
        request(0, 100, 3, -1),
        vec![
            MmapEvent::Locked { base: BASE, size: SIZE },
            MmapEvent::AreaFound { start: Some(0x20_0000) },
            MmapEvent::Mapped { ok: true },
            MmapEvent::Resolved { ok: false },
        ],
    );
    assert_eq!(
        actions,
        vec![
            MmapAction::Lock,
            MmapAction::FindFreeArea { hint: 0x10_0000, size: 0x1000, limit_start: BASE, limit_end: BASE + SIZE },
            MmapAction::MapAlloc { start: 0x20_0000, size: 0x1000, flags: user(true, true, false), populate: true },
            MmapAction::ResolveFd { fd: -1 },
            MmapAction::Return { value: -9 },
        ]
    );
    assert!(call.is_done());
}

#[test]
fn read_buffer_is_zeroed_and_of_exact_length() {
    for length in [0usize, 1, 100, 0x1000, 0x1234] {
        let (call, actions) = drive(
            request(0, length, 3, 5),
            vec![
                MmapEvent::Locked { base: BASE, size: SIZE },
                MmapEvent::AreaFound { start: Some(0x20_0000) },
                MmapEvent::Mapped { ok: true },
                MmapEvent::Resolved { ok: true },
            ],
        );
        assert_eq!(actions[4], MmapAction::Read { buf: vec![0u8; length] });
        assert_eq!(call.stage(), MmapStage::Reading { start: 0x20_0000 });
    }
}

#[test]
fn read_failure_returns_eio() {
    let (call, actions) = drive(
        request(0, 100, 3, 5),
        vec![
            MmapEvent::Locked { base: BASE, size: SIZE },
            MmapEvent::AreaFound { start: Some(0x20_0000) },
            MmapEvent::Mapped { ok: true },
            MmapEvent::Resolved { ok: true },
            MmapEvent::ReadDone { buf: None },
        ],
    );
    assert_eq!(actions.len(), 6);
    assert_eq!(actions[5], MmapAction::Return { value: -5 });
    assert!(call.is_done());
}

#[test]
fn write_failure_returns_eio() {
    let (call, actions) = drive(
        request(0, 4, 3, 5),
        vec![
            MmapEvent::Locked { base: BASE, size: SIZE },
            MmapEvent::AreaFound { start: Some(0x20_0000) },
            MmapEvent::Mapped { ok: true },
            MmapEvent::Resolved { ok: true },
            MmapEvent::ReadDone { buf: Some(vec![1, 2, 3, 4]) },
            MmapEvent::Written { ok: false },
        ],
    );
    assert_eq!(actions.len(), 7);
    assert_eq!(actions[5], MmapAction::Write { start: 0x20_0000, data: vec![1, 2, 3, 4] });
    assert_eq!(actions[6], MmapAction::Return { value: -5 });
    assert!(call.is_done());
}

#[test]
fn round_trip_writes_what_was_read_and_returns_the_address() {
    let req = request(0x4000_0000, 8, 3, 5);
    let (mut call, _) = MmapCall::start(req);
    let mut action = MmapAction::Lock;
    let file = [0xdeu8, 0xad, 0xbe, 0xef, 0x01];
    let mut memory: Vec<u8> = Vec::new();
    let mut returned = None;
    for _ in 0..7 {
        let event = match action {
            MmapAction::Lock => MmapEvent::Locked { base: BASE, size: SIZE },
            MmapAction::FindFreeArea { hint, size, .. } => {
                assert_eq!(hint, 0x4010_0000);
                assert_eq!(size, 0x1000);
                MmapEvent::AreaFound { start: Some(hint) }
            }
            MmapAction::MapAlloc { start, size, .. } => {
                assert_eq!(start, 0x4010_0000);
                memory = vec![0xffu8; size];
                MmapEvent::Mapped { ok: true }
            }
            MmapAction::ResolveFd { fd } => {
                assert_eq!(fd, 5);
                MmapEvent::Resolved { ok: true }
            }
            MmapAction::Read { mut buf } => {
                assert_eq!(buf.len(), 8);
                buf[..file.len()].copy_from_slice(&file);
                MmapEvent::ReadDone { buf: Some(buf) }
            }
            MmapAction::Write { start, data } => {
                assert_eq!(start, 0x4010_0000);
                memory[..data.len()].copy_from_slice(&data);
                MmapEvent::Written { ok: true }
            }
            MmapAction::Return { value } => {
                returned = Some(value);
                break;
            }
        };
        let (next, following) = call.step(event);
        call = next;
        action = following;
    }
    assert_eq!(returned, Some(0x4010_0000));
    assert!(call.is_done());
    assert_eq!(&memory[..8], &[0xde, 0xad, 0xbe, 0xef, 0x01, 0, 0, 0]);
    assert_eq!(returned.unwrap() % 0x1000, 0);
}

#[test]
fn short_read_leaves_the_rest_zero() {
    let (_, actions) = drive(
        request(0, 6, 3, 5),
        vec![
            MmapEvent::Locked { base: BASE, size: SIZE },
            MmapEvent::AreaFound { start: Some(0x20_0000) },
            MmapEvent::Mapped { ok: true },
            MmapEvent::Resolved { ok: true },
        ],
    );
    let mut buf = match &actions[4] {
        MmapAction::Read { buf } => buf.clone(),
        other => panic!("expected a read, got {:?}", other),
    };
    buf[0] = 7;
    buf[1] = 8;
    assert_eq!(buf, vec![7, 8, 0, 0, 0, 0]);
}

#[test]
fn flags_and_offset_change_nothing() {
    let events = || {
        vec![
            MmapEvent::Locked { base: BASE, size: SIZE },
            MmapEvent::AreaFound { start: Some(0x30_0000) },
            MmapEvent::Mapped { ok: true },
            MmapEvent::Resolved { ok: true },
            MmapEvent::ReadDone { buf: Some(vec![9; 3]) },
            MmapEvent::Written { ok: true },
        ]
    };
    let plain = MmapRequest { addr: 0x5000, length: 3, prot: 1, flags: 0, fd: 4, offset: 0 };
    let fixed_anonymous = MmapRequest { flags: 0x10 | 0x20, offset: 0x7000, ..plain };
    let (_, a) = drive(plain, events());
    let (_, b) = drive(fixed_anonymous, events());
    assert_eq!(a, b);
    assert_eq!(a[6], MmapAction::Return { value: 0x30_0000 });
    assert_eq!(a[1], MmapAction::FindFreeArea { hint: 0x10_5000, size: 0x1000, limit_start: BASE, limit_end: BASE + SIZE });
}

#[test]
fn finished_call_expects_nothing() {
    let (call, _) = drive(
        request(0, 100, 3, 5),
        vec![MmapEvent::Locked { base: BASE, size: SIZE }, MmapEvent::AreaFound { start: None }],
    );
    assert!(call.is_done());
    assert!(!call.expects(&MmapEvent::Locked { base: 0, size: 0 }));
    assert!(!call.expects(&MmapEvent::AreaFound { start: None }));
    assert!(!call.expects(&MmapEvent::Mapped { ok: true }));
    assert!(!call.expects(&MmapEvent::Resolved { ok: true }));
    assert!(!call.expects(&MmapEvent::ReadDone { buf: None }));
    assert!(!call.expects(&MmapEvent::Written { ok: true }));
}

#[test]
fn each_stage_expects_its_own_event_only() {
    let (call, _) = MmapCall::start(request(0, 1, 1, 1));
    assert!(call.expects(&MmapEvent::Locked { base: 0, size: 0 }));
    assert!(!call.expects(&MmapEvent::AreaFound { start: Some(0) }));
    assert!(!call.expects(&MmapEvent::Written { ok: true }));
    let (call, _) = call.step(MmapEvent::Locked { base: 0, size: 0x1000 });
    assert!(call.expects(&MmapEvent::AreaFound { start: None }));
    assert!(!call.expects(&MmapEvent::Locked { base: 0, size: 0 }));
    assert!(!call.expects(&MmapEvent::Mapped { ok: true }));
}

#[test]
fn address_space_must_end_within_the_machine() {
    let (call, _) = MmapCall::start(request(0, 1, 1, 1));
    assert!(call.expects(&MmapEvent::Locked { base: usize::MAX - 0xfff, size: 0xfff }));
    assert!(call.expects(&MmapEvent::Locked { base: usize::MAX, size: 0 }));
    assert!(!call.expects(&MmapEvent::Locked { base: usize::MAX, size: 1 }));
    assert!(!call.expects(&MmapEvent::Locked { base: 1, size: usize::MAX }));
    let (_, action) = call.step(MmapEvent::Locked { base: usize::MAX - 0xfff, size: 0xfff });
    assert_eq!(
        action,
        MmapAction::FindFreeArea {
            hint: 0x10_0000,
            size: 0x1000,
            limit_start: usize::MAX - 0xfff,
            limit_end: usize::MAX
        }
    );
}

#[test]
fn address_above_the_signed_range_comes_back_negative() {
    let high = (isize::MAX as usize) + 0x1000;
    let (_, actions) = drive(
        request(0, 1, 1, 5),
        vec![
            MmapEvent::Locked { base: BASE, size: SIZE },
            MmapEvent::AreaFound { start: Some(high) },
            MmapEvent::Mapped { ok: true },
            MmapEvent::Resolved { ok: true },
            MmapEvent::ReadDone { buf: Some(vec![0]) },
            MmapEvent::Written { ok: true },
        ],
    );
    assert_eq!(actions[6], MmapAction::Return { value: high as isize });
    assert_eq!(actions[6], MmapAction::Return { value: isize::MIN + 0xfff });
}
