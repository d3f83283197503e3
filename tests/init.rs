use futures_tag_locks::{InitAction, InitEvent, InitPhase, ReadOrInit, WriteOrInit};

#[test]
fn read_or_init_on_present_cell_hands_out_at_once() {
    let (mut m, first) = ReadOrInit::start();
    assert_eq!(first, InitAction::RequestShared);
    assert_eq!(m.phase(), InitPhase::AcquireShared);
    let a = m.step(InitEvent::SharedAcquired { present: true });
    assert_eq!(a, InitAction::HandOutShared);
    assert_eq!(m.phase(), InitPhase::Done);
}

#[test]
fn read_or_init_transitions() {
    let (mut m, _) = ReadOrInit::start();
    assert_eq!(m.step(InitEvent::SharedAcquired { present: false }), InitAction::RequestExclusive);
    assert_eq!(m.phase(), InitPhase::AcquireExclusive);
    assert_eq!(m.step(InitEvent::ExclusiveAcquired { present: true }), InitAction::RetryShared);
    assert_eq!(m.phase(), InitPhase::AcquireShared);
    assert_eq!(m.step(InitEvent::SharedAcquired { present: false }), InitAction::RequestExclusive);
    assert_eq!(m.step(InitEvent::ExclusiveAcquired { present: false }), InitAction::StartInitializer);
    assert_eq!(m.phase(), InitPhase::RunInitializer);
    assert_eq!(m.step(InitEvent::InitializerFinished { succeeded: true }), InitAction::StoreThenShared);
    assert_eq!(m.phase(), InitPhase::AcquireShared);
}

#[test]
fn read_or_init_failure_is_reported() {
    let (mut m, _) = ReadOrInit::start();
    m.step(InitEvent::SharedAcquired { present: false });
    m.step(InitEvent::ExclusiveAcquired { present: false });
    assert_eq!(m.step(InitEvent::InitializerFinished { succeeded: false }), InitAction::Fail);
    assert_eq!(m.phase(), InitPhase::Failed);
}

#[test]
fn phases_accept_only_their_events() {
    assert!(InitPhase::AcquireShared.accepts(InitEvent::SharedAcquired { present: true }));
    assert!(!InitPhase::AcquireShared.accepts(InitEvent::ExclusiveAcquired { present: true }));
    assert!(InitPhase::AcquireExclusive.accepts(InitEvent::ExclusiveAcquired { present: false }));
    assert!(InitPhase::RunInitializer.accepts(InitEvent::InitializerFinished { succeeded: false }));
    assert!(!InitPhase::Done.accepts(InitEvent::SharedAcquired { present: true }));
    assert!(!InitPhase::Failed.accepts(InitEvent::InitializerFinished { succeeded: true }));
}

#[test]
fn write_or_init_on_present_cell_hands_out_at_once() {
    let (mut m, first) = WriteOrInit::start();
    assert_eq!(first, InitAction::RequestExclusive);
    assert_eq!(m.step(InitEvent::ExclusiveAcquired { present: true }), InitAction::HandOutExclusive);
    assert_eq!(m.phase(), InitPhase::Done);
}

/// A shared-or-initialize caller driven against a cell held in the test.
struct Reader {
    machine: ReadOrInit,
    seen: Option<i32>,
}

fn grant(reader: &mut Reader, cell: &mut Option<i32>, calls: &mut u32, init: &dyn Fn() -> i32) {
    let event = match reader.machine.phase() {
        InitPhase::AcquireShared => InitEvent::SharedAcquired { present: cell.is_some() },
        InitPhase::AcquireExclusive => InitEvent::ExclusiveAcquired { present: cell.is_some() },
        _ => panic!("nothing to grant"),
    };
    match reader.machine.step(event) {
        InitAction::HandOutShared => reader.seen = *cell,
        InitAction::StartInitializer => {
            *calls += 1;
            let v = init();
            assert_eq!(reader.machine.step(InitEvent::InitializerFinished { succeeded: true }), InitAction::StoreThenShared);
            *cell = Some(v);
        }
        InitAction::RequestExclusive | InitAction::RetryShared => {}
        other => panic!("unexpected {:?}", other),
    }
}

#[test]
fn two_readers_initialize_once() {
    let mut cell: Option<i32> = None;
    let mut calls = 0u32;
    let init = || 10;
    let mut a = Reader { machine: ReadOrInit::start().0, seen: None };
    let mut b = Reader { machine: ReadOrInit::start().0, seen: None };
    // both see the cell absent under shared access
    grant(&mut a, &mut cell, &mut calls, &init);
    grant(&mut b, &mut cell, &mut calls, &init);
    // a wins the exclusive slot and initializes
    grant(&mut a, &mut cell, &mut calls, &init);
    // b gets exclusive access afterwards and finds the value there
    grant(&mut b, &mut cell, &mut calls, &init);
    assert_eq!(b.machine.phase(), InitPhase::AcquireShared);
    grant(&mut a, &mut cell, &mut calls, &init);
    grant(&mut b, &mut cell, &mut calls, &init);
    assert_eq!(a.seen, Some(10));
    assert_eq!(b.seen, Some(10));
    assert_eq!(calls, 1);
}

fn write_or_init(cell: &mut Option<i32>, init: &dyn Fn() -> Result<i32, &'static str>) -> Result<i32, &'static str> {
    let (mut m, first) = WriteOrInit::start();
    assert_eq!(first, InitAction::RequestExclusive);
    match m.step(InitEvent::ExclusiveAcquired { present: cell.is_some() }) {
        InitAction::HandOutExclusive => return Ok(cell.expect("present")),
        InitAction::StartInitializer => {}
        other => panic!("unexpected {:?}", other),
    }
    let produced = init();
    match m.step(InitEvent::InitializerFinished { succeeded: produced.is_ok() }) {
        InitAction::StoreThenHandOutExclusive => {
            *cell = produced.ok();
            Ok(cell.expect("stored"))
        }
        InitAction::Fail => Err(produced.err().expect("failure")),
        other => panic!("unexpected {:?}", other),
    }
}

#[test]
fn failed_write_initializer_leaves_cell_absent() {
    let mut cell: Option<i32> = None;
    assert_eq!(write_or_init(&mut cell, &|| Err("E")), Err("E"));
    assert_eq!(cell, None);
    assert_eq!(write_or_init(&mut cell, &|| Ok(3)), Ok(3));
    assert_eq!(cell, Some(3));
    assert_eq!(write_or_init(&mut cell, &|| Ok(4)), Ok(3));
}
