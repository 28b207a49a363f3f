use rawhal_gen::access::ValueKind;
use rawhal_gen::checks::{check_device, check_masks, MaskFault, ModelError};
use rawhal_gen::enums::EnumType;
use rawhal_gen::model::{Capability, Device, Field, FieldType, Peripheral, Primitive, Register};
use rawhal_gen::bits::mask_from_bits;
use rawhal_gen::enums::add_enum_type;
use rawhal_gen::synth::{
    address_map, entity_context, hex, layout_of, ordinals, register_accessors, EntityError,
};
use rawhal_gen::access::FieldValue;
use rawhal_gen::bus::Bus;
use rawhal_gen::entity::Entity;

fn field(name: &str, mask: u32, field_type: FieldType, access: Capability) -> Field {
    Field {
        name: name.to_lowercase(),
        hw_name: name.to_string(),
        mask,
        field_type,
        access,
        visible: true,
    }
}

fn ctrl() -> Register {
    Register {
        name: "CTRL".to_string(),
        fields: vec![
            field("ENABLE", 0x1, FieldType::Raw(Primitive::Boolean), Capability::ReadWrite),
            field("MODE", 0x6, FieldType::Enumerated("Mode".to_string()), Capability::ReadWrite),
            field("READY", 0x100, FieldType::Raw(Primitive::Boolean), Capability::Read),
            field("DATA", 0xFF0000, FieldType::Raw(Primitive::Unsigned), Capability::Write),
        ],
    }
}

fn device() -> Device {
    Device {
        name: "DEV".to_string(),
        peripherals: vec![
            Peripheral::Content {
                name: "TIM1".to_string(),
                base_address: 0x4001_2C00,
                registers: vec![ctrl()],
            },
            Peripheral::Derived {
                name: "TIM2".to_string(),
                base_address: 0x4000_0000,
                derived_from: "TIM1".to_string(),
            },
        ],
        enum_types: vec![EnumType {
            name: "Mode".to_string(),
            values: vec!["OFF".to_string(), "LOW".to_string(), "HIGH".to_string()],
        }],
    }
}

#[test]
fn hex_is_prefixed_upper_case() {
    assert_eq!(hex(0), "0x0");
    assert_eq!(hex(0x6), "0x6");
    assert_eq!(hex(0x1F), "0x1F");
    assert_eq!(hex(0x4001_2C00), "0x40012C00");
    assert_eq!(hex(u32::MAX), "0xFFFFFFFF");
}

#[test]
fn consistent_device_passes() {
    assert!(check_device(&device()).is_ok());
}

#[test]
fn overlapping_masks_are_reported() {
    let mut r = ctrl();
    r.fields.push(field("EXTRA", 0x4, FieldType::Raw(Primitive::Boolean), Capability::Read));
    assert!(matches!(check_masks(&r), Err(MaskFault::Overlap { first: 1, second: 4 })));
    let mut d = device();
    d.peripherals[0] = Peripheral::Content { name: "TIM1".to_string(), base_address: 0, registers: vec![r] };
    assert!(matches!(
        check_device(&d),
        Err(ModelError::OverlappingFields { peripheral: 0, register: 0, first: 1, second: 4 })
    ));
}

#[test]
fn empty_mask_is_reported() {
    let mut r = ctrl();
    r.fields[2].mask = 0;
    assert!(matches!(check_masks(&r), Err(MaskFault::Empty { field: 2 })));
    let mut d = device();
    d.peripherals[0] = Peripheral::Content { name: "TIM1".to_string(), base_address: 0, registers: vec![ctrl(), r] };
    assert!(matches!(
        check_device(&d),
        Err(ModelError::EmptyMask { peripheral: 0, register: 1, field: 2 })
    ));
}

#[test]
fn undefined_value_set_is_reported() {
    let mut d = device();
    d.enum_types.clear();
    assert!(matches!(
        check_device(&d),
        Err(ModelError::UndefinedEnum { peripheral: 0, register: 0, field: 1 })
    ));
    assert_eq!(register_accessors(&d, &ctrl().fields).err(), Some(1));
}

#[test]
fn unresolved_source_is_reported() {
    let mut d = device();
    d.peripherals[1] = Peripheral::Derived {
        name: "TIM2".to_string(),
        base_address: 0,
        derived_from: "TIM9".to_string(),
    };
    assert!(matches!(check_device(&d), Err(ModelError::UnresolvedSource { peripheral: 1 })));
}

#[test]
fn derived_from_derived_is_reported() {
    let mut d = device();
    d.peripherals.push(Peripheral::Derived {
        name: "TIM3".to_string(),
        base_address: 0x4000_0400,
        derived_from: "TIM2".to_string(),
    });
    assert!(matches!(
        check_device(&d),
        Err(ModelError::DerivedSource { peripheral: 2, source: 1 })
    ));
}

#[test]
fn duplicate_peripheral_is_reported() {
    let mut d = device();
    d.peripherals.push(Peripheral::Derived {
        name: "TIM1".to_string(),
        base_address: 0,
        derived_from: "TIM1".to_string(),
    });
    assert!(matches!(
        check_device(&d),
        Err(ModelError::DuplicatePeripheral { first: 0, second: 2 })
    ));
}

#[test]
fn accessors_carry_mask_kind_and_capability() {
    let d = device();
    let acc = register_accessors(&d, &ctrl().fields).ok().unwrap();
    assert_eq!(acc.len(), 4);
    assert_eq!(acc[1].name, "MODE");
    assert_eq!(acc[1].mask_text, "0x6");
    assert_eq!(acc[1].accessor.mask, 0x6);
    assert!(matches!(acc[1].accessor.kind, ValueKind::Enumerated { variants: 3 }));
    assert!(matches!(acc[0].accessor.kind, ValueKind::Boolean));
    assert!(matches!(acc[3].accessor.kind, ValueKind::Unsigned));
    assert_eq!(acc[3].mask_text, "0xFF0000");
    assert!(acc[2].readable && !acc[2].writable);
    assert!(!acc[3].readable && acc[3].writable);
    assert!(acc[0].readable && acc[0].writable);
}

#[test]
fn ordinals_follow_declaration_order() {
    let t = EnumType {
        name: "Speed".to_string(),
        values: vec!["FAST".to_string(), "SLOW".to_string(), "MEDIUM".to_string()],
    };
    assert_eq!(
        ordinals(&t),
        vec![("FAST".to_string(), 0), ("SLOW".to_string(), 1), ("MEDIUM".to_string(), 2)]
    );
}

#[test]
fn derived_peripheral_keeps_its_own_address() {
    assert_eq!(
        address_map(&device()),
        vec![("TIM1".to_string(), 0x4001_2C00), ("TIM2".to_string(), 0x4000_0000)]
    );
}

#[test]
fn svd_location_joins_directory_and_path() {
    let def = rawhal_gen::config::HalDefinition {
        version: "1".to_string(),
        svd_patch_path: "stm32l4x2.yaml".to_string(),
    };
    assert_eq!(def.svd_location(&"cfg/boards".to_string()), "cfg/boards/stm32l4x2.yaml");
}

fn entity(pairs: &[(&str, &str)]) -> rawhal_gen::model::EntityDef {
    rawhal_gen::model::EntityDef {
        name: "Timer".to_string(),
        registers: pairs.iter().map(|(p, r)| (p.to_string(), r.to_string())).collect(),
        teardown: None,
    }
}

#[test]
fn entity_resolves_its_registers() {
    let ctx = entity_context(&device(), &entity(&[("TIM1", "CTRL")])).ok().unwrap();
    assert_eq!(ctx.name, "Timer");
    assert_eq!(ctx.registers.len(), 1);
    assert_eq!(ctx.registers[0].peripheral_index, 0);
    assert_eq!(ctx.registers[0].register_index, 0);
    assert_eq!(ctx.registers[0].register, "CTRL");
    assert_eq!(ctx.registers[0].fields.len(), 4);
    assert_eq!(ctx.registers[0].fields[3].mask_text, "0xFF0000");
}

#[test]
fn entity_errors_name_the_pair() {
    let d = device();
    assert!(matches!(
        entity_context(&d, &entity(&[("TIM1", "CTRL"), ("TIM1", "CTRL")])),
        Err(EntityError::RepeatedRegister { first: 0, second: 1 })
    ));
    assert!(matches!(
        entity_context(&d, &entity(&[("TIM1", "CTRL"), ("GPIO", "MODER")])),
        Err(EntityError::UnknownPeripheral { pair: 1 })
    ));
    assert!(matches!(
        entity_context(&d, &entity(&[("TIM2", "CTRL")])),
        Err(EntityError::DerivedPeripheral { pair: 0 })
    ));
    assert!(matches!(
        entity_context(&d, &entity(&[("TIM1", "STATUS")])),
        Err(EntityError::UnknownRegister { pair: 0, peripheral: 0 })
    ));
    let mut d2 = device();
    d2.enum_types.clear();
    assert!(matches!(
        entity_context(&d2, &entity(&[("TIM1", "CTRL")])),
        Err(EntityError::UndefinedEnum { pair: 0, peripheral: 0, register: 0, field: 1 })
    ));
}

#[test]
fn masks_from_bit_ranges() {
    assert_eq!(mask_from_bits(0, 1), Some(0x1));
    assert_eq!(mask_from_bits(1, 2), Some(0x6));
    assert_eq!(mask_from_bits(0, 32), Some(u32::MAX));
    assert_eq!(mask_from_bits(28, 4), Some(0xF000_0000));
    assert_eq!(mask_from_bits(4, 0), None);
    assert_eq!(mask_from_bits(30, 3), None);
}

#[test]
fn value_sets_are_listed_once() {
    let mut types = Vec::new();
    let t = |n: &str, v: &[&str]| EnumType {
        name: n.to_string(),
        values: v.iter().map(|s| s.to_string()).collect(),
    };
    add_enum_type(&mut types, t("Mode", &["OFF", "ON"]));
    add_enum_type(&mut types, t("Speed", &["LOW"]));
    add_enum_type(&mut types, t("Mode", &["X"]));
    assert_eq!(types.len(), 2);
    assert_eq!(types[0].values, vec!["OFF".to_string(), "ON".to_string()]);
    assert_eq!(types[1].name, "Speed");
}

#[test]
fn generated_entity_drives_the_register() {
    let mut d = device();
    if let Peripheral::Content { registers, .. } = &mut d.peripherals[0] {
        registers[0].fields[2].visible = false;
    }
    let ctx = entity_context(&d, &entity(&[("TIM1", "CTRL")])).ok().unwrap();
    let layout = layout_of(&ctx, vec![0]);
    assert!(layout.is_well_formed());
    assert_eq!(layout.fields.len(), 4);
    assert!(!layout.fields[2].readable && !layout.fields[2].writable);
    assert!(!layout.fields[3].readable && layout.fields[3].writable);
    let mut bus = Bus::new(vec![0x4]);
    let mut e = Entity::new(layout);
    e.set(0, FieldValue::Boolean(true));
    e.close(&mut bus);
    assert_eq!(bus.peek(0), 0x5);
}
