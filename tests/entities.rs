use rawhal_gen::access::{Accessor, FieldValue, ValueKind};
use rawhal_gen::bus::Bus;
use rawhal_gen::entity::{Entity, EntityField, Layout};

fn field(slot: usize, mask: u32, kind: ValueKind) -> EntityField {
    EntityField { slot, accessor: Accessor { mask, kind }, readable: true, writable: true }
}

/// Register A is bus register 2, register B is bus register 0.
fn layout() -> Layout {
    Layout {
        registers: vec![2, 0],
        fields: vec![
            field(0, 0x1, ValueKind::Boolean),
            field(0, 0x6, ValueKind::Enumerated { variants: 3 }),
            field(1, 0xFF00, ValueKind::Unsigned),
        ],
    }
}

#[test]
fn only_staged_register_is_committed() {
    let mut bus = Bus::new(vec![0x1234, 0, 0x4]);
    let mut e = Entity::new(layout());
    e.set(0, FieldValue::Boolean(true));
    e.commit(&mut bus);
    assert_eq!(bus.stores(), &vec![2]);
    assert_eq!(bus.loads(), &vec![2]);
    assert_eq!(bus.peek(2), 0x5);
    assert_eq!(bus.peek(0), 0x1234);
}

#[test]
fn two_fields_of_one_register_load_it_once() {
    let mut bus = Bus::new(vec![0x3400, 0, 0x5]);
    let mut e = Entity::read(layout());
    assert!(matches!(e.get(&mut bus, 0), Ok(FieldValue::Boolean(true))));
    assert!(matches!(e.get(&mut bus, 1), Ok(FieldValue::Enumerated(2))));
    assert_eq!(bus.loads(), &vec![2]);
    assert!(matches!(e.get(&mut bus, 2), Ok(FieldValue::Unsigned(0x34))));
    assert_eq!(bus.loads(), &vec![2, 0]);
}

#[test]
fn cached_read_ignores_later_hardware_change() {
    let mut bus = Bus::new(vec![0, 0, 0x1]);
    let mut e = Entity::read(layout());
    assert!(matches!(e.get(&mut bus, 0), Ok(FieldValue::Boolean(true))));
    let mut w = rawhal_gen::access::Writer::new();
    w.set_raw(0x1, 0);
    w.write(&mut bus, 2);
    assert!(matches!(e.get(&mut bus, 0), Ok(FieldValue::Boolean(true))));
}

#[test]
fn field_never_set_keeps_its_bits() {
    let mut bus = Bus::new(vec![0xAB00, 0, 0x6]);
    let mut e = Entity::new(layout());
    e.set(0, FieldValue::Boolean(true));
    e.set(2, FieldValue::Unsigned(0x12));
    e.commit(&mut bus);
    assert_eq!(bus.peek(2), 0x7);
    assert_eq!(bus.peek(0), 0x1200);
    assert_eq!(bus.stores(), &vec![2, 0]);
}

#[test]
fn read_session_does_not_commit_on_close() {
    let mut bus = Bus::new(vec![0, 0, 0]);
    let mut e = Entity::read(layout());
    e.set(0, FieldValue::Boolean(true));
    e.close(&mut bus);
    assert_eq!(bus.peek(2), 0);
    assert!(bus.stores().is_empty());
}

#[test]
fn configure_session_commits_on_close() {
    let mut bus = Bus::new(vec![0, 0, 0]);
    let mut e = Entity::new(layout());
    e.set(1, FieldValue::Enumerated(2));
    e.close(&mut bus);
    assert_eq!(bus.peek(2), 0x4);
    assert_eq!(bus.stores(), &vec![2]);
}

#[test]
fn nothing_staged_commits_nothing() {
    let mut bus = Bus::new(vec![1, 2, 3]);
    let e = Entity::new(layout());
    e.commit(&mut bus);
    assert!(bus.stores().is_empty());
    assert!(bus.loads().is_empty());
}

#[test]
fn unknown_ordinal_through_entity_fails() {
    let mut bus = Bus::new(vec![0, 0, 0x6]);
    let mut e = Entity::read(layout());
    assert!(e.get(&mut bus, 1).is_err());
}

#[test]
fn layout_checks_match_their_conditions() {
    assert!(layout().is_well_formed());
    let mut repeated = layout();
    repeated.registers = vec![1, 1];
    assert!(!repeated.is_well_formed());
    let mut stray = layout();
    stray.fields[2].slot = 2;
    assert!(!stray.is_well_formed());
    let mut empty = layout();
    empty.fields[0].accessor.mask = 0;
    assert!(!empty.is_well_formed());
    assert!(layout().fits_bus(&Bus::new(vec![0, 0, 0])));
    assert!(!layout().fits_bus(&Bus::new(vec![0, 0])));
}
