use rusty_libc::heap::{
    calloc, free, malloc, realloc, reallocarray, AfterMap, AllocAction, AllocEvent, AllocPhase,
    HEADER_SIZE, MALLOC_ALIGN, MAP_FAILED,
};

fn header() -> usize {
    HEADER_SIZE
}

/// Runs an operation to its end, answering each action from `answers`.
fn run(
    start: (AllocPhase, AllocAction),
    answers: &[AllocEvent],
) -> Vec<AllocAction> {
    let (mut phase, mut action) = start;
    let mut actions = vec![action];
    for ev in answers {
        let (p, a) = phase.advance(*ev);
        phase = p;
        action = a;
        actions.push(action);
    }
    assert_eq!(phase, AllocPhase::Finished);
    actions
}

#[test]
fn malloc_maps_size_plus_header() {
    let h = header();
    let (phase, action) = malloc(100);
    assert_eq!(action, AllocAction::Mmap { len: 100 + h });
    assert_eq!(phase, AllocPhase::Mapping { total: 100 + h, then: AfterMap::Hand });
}

#[test]
fn malloc_of_zero_maps_one_byte() {
    let h = header();
    assert_eq!(malloc(0).1, AllocAction::Mmap { len: 1 + h });
}

#[test]
fn malloc_overflow_gives_null() {
    assert_eq!(malloc(usize::MAX), (AllocPhase::Finished, AllocAction::Finish { ptr: 0 }));
}

#[test]
fn malloc_writes_header_and_returns_payload() {
    let h = header();
    let actions = run(malloc(40), &[AllocEvent::Mapped { addr: 0x1000 }, AllocEvent::Done]);
    assert_eq!(
        actions,
        vec![
            AllocAction::Mmap { len: 40 + h },
            AllocAction::WriteHeader { at: 0x1000, total: 40 + h },
            AllocAction::Finish { ptr: 0x1000 + h },
        ]
    );
}

#[test]
fn malloc_failed_mapping_gives_null() {
    let actions = run(malloc(40), &[AllocEvent::Mapped { addr: MAP_FAILED }]);
    assert_eq!(actions.last(), Some(&AllocAction::Finish { ptr: 0 }));
}

#[test]
fn free_of_null_does_nothing() {
    assert_eq!(free(0), (AllocPhase::Finished, AllocAction::Finish { ptr: 0 }));
}

#[test]
fn free_unmaps_what_malloc_mapped() {
    let h = header();
    let made = run(malloc(64), &[AllocEvent::Mapped { addr: 0x7000 }, AllocEvent::Done]);
    let ptr = match made[2] {
        AllocAction::Finish { ptr } => ptr,
        _ => panic!("malloc did not finish"),
    };
    let released = run(free(ptr), &[AllocEvent::HeaderRead { total: 64 + h }, AllocEvent::Done]);
    assert_eq!(
        released,
        vec![
            AllocAction::ReadHeader { at: 0x7000 },
            AllocAction::Munmap { at: 0x7000, len: 64 + h },
            AllocAction::Finish { ptr: 0 },
        ]
    );
}

#[test]
fn calloc_zeroes_the_product() {
    let h = header();
    let actions = run(
        calloc(3, 4),
        &[AllocEvent::Mapped { addr: 0x2000 }, AllocEvent::Done, AllocEvent::Done],
    );
    assert_eq!(
        actions,
        vec![
            AllocAction::Mmap { len: 12 + h },
            AllocAction::WriteHeader { at: 0x2000, total: 12 + h },
            AllocAction::Zero { at: 0x2000 + h, len: 12 },
            AllocAction::Finish { ptr: 0x2000 + h },
        ]
    );
}

#[test]
fn calloc_overflow_gives_null() {
    assert_eq!(calloc(usize::MAX, 2), (AllocPhase::Finished, AllocAction::Finish { ptr: 0 }));
}

#[test]
fn calloc_of_zero_elements_maps_one_byte_and_zeroes_none() {
    let h = header();
    let actions = run(
        calloc(0, 8),
        &[AllocEvent::Mapped { addr: 0x3000 }, AllocEvent::Done, AllocEvent::Done],
    );
    assert_eq!(actions[0], AllocAction::Mmap { len: 1 + h });
    assert_eq!(actions[2], AllocAction::Zero { at: 0x3000 + h, len: 0 });
}

#[test]
fn calloc_failed_mapping_gives_null_without_zeroing() {
    let actions = run(calloc(2, 2), &[AllocEvent::Mapped { addr: MAP_FAILED }]);
    assert_eq!(actions.len(), 2);
    assert_eq!(actions[1], AllocAction::Finish { ptr: 0 });
}

#[test]
fn realloc_of_null_is_malloc() {
    assert_eq!(realloc(0, 33), malloc(33));
}

#[test]
fn realloc_to_zero_frees_and_gives_null() {
    let h = header();
    assert_eq!(realloc(0x5000 + h, 0), free(0x5000 + h));
    let actions = run(
        realloc(0x5000 + h, 0),
        &[AllocEvent::HeaderRead { total: 20 + h }, AllocEvent::Done],
    );
    assert_eq!(actions[1], AllocAction::Munmap { at: 0x5000, len: 20 + h });
    assert_eq!(actions[2], AllocAction::Finish { ptr: 0 });
}

#[test]
fn realloc_grow_copies_old_payload() {
    let h = header();
    let old = 0x5000 + h;
    let actions = run(
        realloc(old, 100),
        &[
            AllocEvent::HeaderRead { total: 20 + h },
            AllocEvent::Mapped { addr: 0x9000 },
            AllocEvent::Done,
            AllocEvent::Done,
            AllocEvent::HeaderRead { total: 20 + h },
            AllocEvent::Done,
        ],
    );
    assert_eq!(
        actions,
        vec![
            AllocAction::ReadHeader { at: 0x5000 },
            AllocAction::Mmap { len: 100 + h },
            AllocAction::WriteHeader { at: 0x9000, total: 100 + h },
            AllocAction::CopyBytes { from: old, to: 0x9000 + h, len: 20 },
            AllocAction::ReadHeader { at: 0x5000 },
            AllocAction::Munmap { at: 0x5000, len: 20 + h },
            AllocAction::Finish { ptr: 0x9000 + h },
        ]
    );
}

#[test]
fn realloc_shrink_copies_new_size() {
    let h = header();
    let old = 0x5000 + h;
    let actions = run(
        realloc(old, 5),
        &[
            AllocEvent::HeaderRead { total: 50 + h },
            AllocEvent::Mapped { addr: 0x9000 },
            AllocEvent::Done,
            AllocEvent::Done,
            AllocEvent::HeaderRead { total: 50 + h },
            AllocEvent::Done,
        ],
    );
    assert_eq!(actions[3], AllocAction::CopyBytes { from: old, to: 0x9000 + h, len: 5 });
}

#[test]
fn realloc_failure_keeps_old_block() {
    let h = header();
    let old = 0x5000 + h;
    let actions = run(
        realloc(old, 64),
        &[AllocEvent::HeaderRead { total: 20 + h }, AllocEvent::Mapped { addr: MAP_FAILED }],
    );
    assert_eq!(actions.len(), 3);
    assert_eq!(actions[2], AllocAction::Finish { ptr: 0 });
}

#[test]
fn realloc_size_overflow_gives_null() {
    let h = header();
    let actions = run(realloc(0x5000 + h, usize::MAX), &[AllocEvent::HeaderRead { total: 20 + h }]);
    assert_eq!(actions[1], AllocAction::Finish { ptr: 0 });
}

#[test]
fn reallocarray_is_realloc_of_product() {
    let h = header();
    assert_eq!(reallocarray(0x5000 + h, 6, 7), realloc(0x5000 + h, 42));
    assert_eq!(reallocarray(0, 6, 7), malloc(42));
}

#[test]
fn reallocarray_overflow_gives_null() {
    assert_eq!(
        reallocarray(0, usize::MAX, 3),
        (AllocPhase::Finished, AllocAction::Finish { ptr: 0 })
    );
}

#[test]
fn distinct_mappings_give_distinct_pointers() {
    let a = run(malloc(8), &[AllocEvent::Mapped { addr: 0x10000 }, AllocEvent::Done]);
    let b = run(malloc(8), &[AllocEvent::Mapped { addr: 0x20000 }, AllocEvent::Done]);
    assert_ne!(a[2], b[2]);
}

#[test]
fn realloc_finishes_within_six_answers() {
    let h = header();
    let (mut phase, mut action) = realloc(0x5000 + h, 16);
    let answers = [
        AllocEvent::HeaderRead { total: 8 + h },
        AllocEvent::Mapped { addr: 0x9000 },
        AllocEvent::Done,
        AllocEvent::Done,
        AllocEvent::HeaderRead { total: 8 + h },
        AllocEvent::Done,
    ];
    let mut steps = 0;
    while !matches!(action, AllocAction::Finish { .. }) {
        let next = phase.advance(answers[steps]);
        phase = next.0;
        action = next.1;
        steps += 1;
    }
    assert!(steps <= 6);
    assert_eq!(action, AllocAction::Finish { ptr: 0x9000 + h });
}

#[test]
fn payloads_of_page_aligned_mappings_are_16_aligned() {
    assert_eq!(HEADER_SIZE, 16);
    let actions = run(malloc(24), &[AllocEvent::Mapped { addr: 0x7f00_0000_0000 }, AllocEvent::Done]);
    match actions[2] {
        AllocAction::Finish { ptr } => assert_eq!(ptr % MALLOC_ALIGN, 0),
        _ => panic!("malloc did not finish"),
    }
}

#[test]
fn mapping_error_numbers_give_null() {
    for errno in [1usize, 12, 4095] {
        let addr = 0usize.wrapping_sub(errno);
        let actions = run(malloc(40), &[AllocEvent::Mapped { addr }]);
        assert_eq!(actions, vec![AllocAction::Mmap { len: 40 + header() }, AllocAction::Finish { ptr: 0 }]);
    }
}

#[test]
fn highest_valid_address_is_a_mapping() {
    let addr = usize::MAX - 4095 - 15;
    let actions = run(malloc(1), &[AllocEvent::Mapped { addr }, AllocEvent::Done]);
    assert_eq!(actions[1], AllocAction::WriteHeader { at: addr, total: 1 + header() });
}
