use gur::event::{EventBus, EventReader, EventWriter};

#[derive(Debug, PartialEq)]
struct DamageEvent {
    amount: u32,
}

#[derive(Debug, PartialEq)]
struct ZoneChangeEvent {
    zone: &'static str,
}

#[test]
fn immediate_emit_readable_same_frame() {
    let mut bus = EventBus::new();
    bus.emit(DamageEvent { amount: 42 });
    let events: Vec<_> = bus.read().iter().collect();
    assert_eq!(events.len(), 1);
    assert_eq!(events[0].amount, 42);
}

#[test]
fn deferred_emit_only_readable_next_frame() {
    let mut bus = EventBus::new();
    bus.emit_deferred(ZoneChangeEvent { zone: "ashlands" });
    // Not readable yet
    assert!(!bus.has());
    // Advance frame
    bus.advance_frame();
    // Now readable
    let events: Vec<_> = bus.read().iter().collect();
    assert_eq!(events[0].zone, "ashlands");
}

#[test]
fn advance_frame_clears_immediate_events() {
    let mut bus = EventBus::new();
    bus.emit(DamageEvent { amount: 10 });
    assert_eq!(bus.count(), 1);
    bus.advance_frame();
    assert_eq!(bus.count(), 0);
}

#[test]
fn multiple_events_same_type() {
    let mut bus = EventBus::new();
    bus.emit(DamageEvent { amount: 1 });
    bus.emit(DamageEvent { amount: 2 });
    bus.emit(DamageEvent { amount: 3 });
    let total: u32 = bus.read().iter().map(|e| e.amount).sum();
    assert_eq!(total, 6);
}

#[test]
fn event_writer_and_reader() {
    let mut bus = EventBus::new();
    {
        let mut writer = EventWriter::<DamageEvent>::new(&mut bus);
        writer.emit(DamageEvent { amount: 99 });
    }
    let reader = EventReader::<DamageEvent>::new(&bus);
    assert!(reader.has_events());
    let v: Vec<_> = reader.iter().iter().collect();
    assert_eq!(v[0].amount, 99);
}

#[test]
fn deferred_writer_events_wait_one_frame() {
    let mut bus = EventBus::new();
    {
        let mut writer = EventWriter::new(&mut bus);
        writer.emit_deferred(DamageEvent { amount: 5 });
        writer.emit(DamageEvent { amount: 6 });
    }
    assert_eq!(bus.read(), &[DamageEvent { amount: 6 }]);
    bus.advance_frame();
    assert_eq!(bus.read(), &[DamageEvent { amount: 5 }]);
    bus.advance_frame();
    assert!(!bus.has());
}

#[test]
fn clear_all_drops_immediate_and_deferred() {
    let mut bus = EventBus::new();
    bus.emit(DamageEvent { amount: 1 });
    bus.emit_deferred(DamageEvent { amount: 2 });
    bus.clear_all();
    assert_eq!(bus.count(), 0);
    bus.advance_frame();
    assert_eq!(bus.count(), 0);
}

#[test]
fn reading_does_not_consume() {
    let mut bus = EventBus::new();
    bus.emit(DamageEvent { amount: 7 });
    assert_eq!(bus.read().len(), 1);
    assert_eq!(bus.read().len(), 1);
    assert_eq!(bus.count(), 1);
}
