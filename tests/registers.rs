use rawhal_gen::access::{Accessor, FieldValue, Reader, ValueKind, Writer};
use rawhal_gen::bus::Bus;
use rawhal_gen::enums::EnumType;

fn mode_type() -> EnumType {
    EnumType {
        name: "Mode".to_string(),
        values: vec!["OFF".to_string(), "LOW".to_string(), "HIGH".to_string()],
    }
}

fn enable() -> Accessor {
    Accessor { mask: 0x1, kind: ValueKind::Boolean }
}

fn mode() -> Accessor {
    Accessor { mask: 0x6, kind: mode_type().kind() }
}

#[test]
fn ctrl_enable_keeps_mode() {
    let mut bus = Bus::new(vec![0x4]);
    let mut w = Writer::new();
    w.set(&enable(), FieldValue::Boolean(true));
    w.write(&mut bus, 0);
    assert_eq!(bus.peek(0), 0x5);
    let r = Reader::load(&mut bus, 0);
    assert!(matches!(r.field(&mode()), Ok(FieldValue::Enumerated(2))));
    assert!(matches!(r.field(&enable()), Ok(FieldValue::Boolean(true))));
}

#[test]
fn decoding_unknown_ordinal_fails() {
    let t = mode_type();
    let e = t.decode(3).err().unwrap();
    assert_eq!(e.raw, 3);
    assert_eq!(e.variants, 3);
    let r = Reader { snapshot: 0x6 };
    let err = r.field(&mode()).err().unwrap();
    assert_eq!(err.raw, 3);
    assert!(t.discriminant(3).is_err());
}

#[test]
fn every_declared_ordinal_decodes() {
    let t = mode_type();
    for raw in 0..3u32 {
        assert_eq!(t.decode(raw).ok(), Some(raw as usize));
    }
    assert_eq!(t.discriminant(2).ok(), Some("HIGH".to_string()));
    assert!(t.decode(4).is_err());
    assert!(t.decode(u32::MAX).is_err());
}

#[test]
fn field_round_trip_for_each_kind() {
    let mut bus = Bus::new(vec![0xFFFF_FFFF]);
    let count = Accessor { mask: 0xF0, kind: ValueKind::Unsigned };
    let mut w = Writer::new();
    w.set(&enable(), FieldValue::Boolean(false));
    w.set(&mode(), FieldValue::Enumerated(1));
    w.set(&count, FieldValue::Unsigned(9));
    w.write(&mut bus, 0);
    let r = Reader::load(&mut bus, 0);
    assert!(matches!(r.field(&enable()), Ok(FieldValue::Boolean(false))));
    assert!(matches!(r.field(&mode()), Ok(FieldValue::Enumerated(1))));
    assert!(matches!(r.field(&count), Ok(FieldValue::Unsigned(9))));
    assert_eq!(bus.peek(0), 0xFFFF_FF9A);
}

#[test]
fn unsigned_value_is_cut_to_field_width() {
    let count = Accessor { mask: 0xF0, kind: ValueKind::Unsigned };
    let mut w = Writer::new();
    w.set(&count, FieldValue::Unsigned(0x1A));
    assert_eq!(w.value, 0xA0);
    assert_eq!(w.touched, 0xF0);
    let r = Reader { snapshot: w.merge_into(0) };
    assert_eq!(r.raw(0xF0), 0xA);
}

#[test]
fn writing_one_field_leaves_the_other() {
    let mut bus = Bus::new(vec![0b0110]);
    let mut w = Writer::new();
    w.set(&enable(), FieldValue::Boolean(true));
    w.write(&mut bus, 0);
    let r = Reader::load(&mut bus, 0);
    assert_eq!(r.raw(0x6), 3);
    assert_eq!(bus.loads(), &vec![0, 0]);
    assert_eq!(bus.stores(), &vec![0]);
}

#[test]
fn untouched_writer_commits_current_word() {
    let mut bus = Bus::new(vec![0xDEAD_BEEF, 7]);
    let w = Writer::new();
    w.write(&mut bus, 1);
    assert_eq!(bus.peek(0), 0xDEAD_BEEF);
    assert_eq!(bus.peek(1), 7);
}

#[test]
fn later_set_of_same_field_wins() {
    let mut w = Writer::new();
    w.set(&mode(), FieldValue::Enumerated(2));
    w.set(&mode(), FieldValue::Enumerated(1));
    assert_eq!(w.merge_into(0xFF), 0xFB);
}
