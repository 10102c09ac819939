use svd2pac::error::ParseError;
use svd2pac::fields::{build_field, get_values_types, mask_for};
use svd2pac::ir::{BitSize, EnumeratedValueUsage, RegisterBitfieldAccess};
use svd2pac::svd::{
    DimElement, SvdAccess, SvdEnumeratedValue, SvdEnumeratedValues, SvdField, SvdUsage,
};

fn value(name: &str, value: u64) -> SvdEnumeratedValue {
    SvdEnumeratedValue { name: name.to_string(), description: None, value: Some(value) }
}

fn block(usage: Option<SvdUsage>, values: Vec<SvdEnumeratedValue>) -> SvdEnumeratedValues {
    SvdEnumeratedValues { name: None, usage, derived_from: None, values }
}

fn field(name: &str, offset: u32, width: u32) -> SvdField {
    SvdField {
        name: name.to_string(),
        description: None,
        bit_offset: offset,
        bit_width: width,
        access: Some(SvdAccess::ReadWrite),
        enumerated_values: Vec::new(),
        derived_from: None,
        array: None,
    }
}

fn field_error(name: &str, msg: &str) -> ParseError {
    ParseError::InvalidField { field_name: name.to_string(), msg: msg.to_string() }
}

#[test]
fn width_class_is_the_smallest_that_contains_the_value() {
    assert_eq!(BitSize::val_2_bit_size(0), BitSize::BIT8);
    assert_eq!(BitSize::val_2_bit_size(0xFF), BitSize::BIT8);
    assert_eq!(BitSize::val_2_bit_size(0x100), BitSize::BIT16);
    assert_eq!(BitSize::val_2_bit_size(0xFFFF), BitSize::BIT16);
    assert_eq!(BitSize::val_2_bit_size(0x1_0000), BitSize::BIT32);
    assert_eq!(BitSize::val_2_bit_size(0xFFFF_FFFF), BitSize::BIT32);
    assert_eq!(BitSize::val_2_bit_size(0x1_0000_0000), BitSize::BIT64);
    assert_eq!(BitSize::val_2_bit_size(u64::MAX), BitSize::BIT64);
}

#[test]
fn default_width_class_is_32_bits() {
    assert_eq!(BitSize::default(), BitSize::BIT32);
}

#[test]
fn mask_is_as_many_ones_as_the_field_is_wide() {
    assert_eq!(mask_for(1), 0x1);
    assert_eq!(mask_for(3), 0x7);
    assert_eq!(mask_for(8), 0xFF);
    assert_eq!(mask_for(16), 0xFFFF);
    assert_eq!(mask_for(31), 0x7FFF_FFFF);
    assert_eq!(mask_for(32), 0xFFFF_FFFF);
}

#[test]
fn field_takes_mask_and_width_class_from_its_bit_range() {
    let built = build_field(&field("MODE", 4, 9)).unwrap().unwrap();
    assert_eq!(built.name, "MODE");
    assert_eq!(built.offset, 4);
    assert_eq!(built.mask, 0x1FF);
    assert_eq!(built.size, BitSize::BIT16);
    assert_eq!(built.access, RegisterBitfieldAccess::RW);
    assert_eq!(built.dim, 1);
    assert_eq!(built.dim_increment, 0);
    assert_eq!(built.description, "");
    assert!(built.enum_types.is_empty());
    assert_eq!(built.enum_type_read, None);
    assert_eq!(built.enum_type_write, None);
}

#[test]
fn field_array_keeps_dimension_and_increment() {
    let mut declared = field("BIT%s", 0, 1);
    declared.array = Some(DimElement { dim: 4, dim_increment: 2, dim_index: None, dim_array_index: None });
    let built = build_field(&declared).unwrap().unwrap();
    assert_eq!(built.name, "BIT");
    assert_eq!(built.dim, 4);
    assert_eq!(built.dim_increment, 2);
}

#[test]
fn access_once_counts_as_access() {
    let mut declared = field("F", 0, 1);
    declared.access = Some(SvdAccess::WriteOnce);
    assert_eq!(build_field(&declared).unwrap().unwrap().access, RegisterBitfieldAccess::W);
    declared.access = Some(SvdAccess::ReadWriteOnce);
    assert_eq!(build_field(&declared).unwrap().unwrap().access, RegisterBitfieldAccess::RW);
    declared.access = Some(SvdAccess::ReadOnly);
    assert_eq!(build_field(&declared).unwrap().unwrap().access, RegisterBitfieldAccess::R);
    declared.access = Some(SvdAccess::WriteOnly);
    assert_eq!(build_field(&declared).unwrap().unwrap().access, RegisterBitfieldAccess::W);
}

#[test]
fn field_without_access_is_skipped() {
    let mut declared = field("F", 0, 1);
    declared.access = None;
    assert_eq!(build_field(&declared), Ok(None));
}

#[test]
fn derived_field_is_rejected() {
    let mut declared = field("F", 0, 1);
    declared.derived_from = Some("G".to_string());
    assert_eq!(
        build_field(&declared),
        Err(field_error("F", "derivedFrom is not supported in a field"))
    );
}

#[test]
fn field_width_out_of_range_is_rejected() {
    let msg = "The bit width of a field shall be between 1 and 32";
    assert_eq!(build_field(&field("F", 0, 0)), Err(field_error("F", msg)));
    assert_eq!(build_field(&field("F", 0, 33)), Err(field_error("F", msg)));
}

#[test]
fn field_without_enumeration_has_no_types() {
    assert_eq!(get_values_types(&field("F", 0, 1)), Ok(Vec::new()));
}

#[test]
fn one_enumeration_serves_reading_and_writing() {
    let mut declared = field("MODE%s", 0, 2);
    let mut values = block(None, vec![value("OFF", 0), value("ON", 1), value("AUTO", 300)]);
    values.values[1].description = Some("switched on".to_string());
    declared.enumerated_values = vec![values];
    let built = build_field(&declared).unwrap().unwrap();
    assert_eq!(built.enum_types.len(), 1);
    let ty = &built.enum_types[0];
    assert_eq!(ty.name, "MODE");
    assert_eq!(ty.usage, EnumeratedValueUsage::ReadWrite);
    assert_eq!(ty.size, BitSize::BIT16);
    assert_eq!(ty.values.len(), 3);
    assert_eq!(ty.values[0].name, "OFF");
    assert_eq!(ty.values[0].value, 0);
    assert_eq!(ty.values[0].description, "");
    assert_eq!(ty.values[1].name, "ON");
    assert_eq!(ty.values[1].description, "switched on");
    assert_eq!(ty.values[2].value, 300);
    assert_eq!(built.enum_type_read, Some("MODE".to_string()));
    assert_eq!(built.enum_type_write, Some("MODE".to_string()));
}

#[test]
fn enumeration_without_values_has_the_smallest_width_class() {
    let mut declared = field("F", 0, 2);
    declared.enumerated_values = vec![block(Some(SvdUsage::ReadWrite), Vec::new())];
    let types = get_values_types(&declared).unwrap();
    assert_eq!(types[0].size, BitSize::BIT8);
    assert_eq!(types[0].usage, EnumeratedValueUsage::ReadWrite);
}

#[test]
fn named_enumeration_prefixes_its_values() {
    let mut declared = field("F", 0, 2);
    let mut values = block(Some(SvdUsage::Read), vec![value("A", 0)]);
    values.name = Some("Kind".to_string());
    declared.enumerated_values = vec![values];
    let types = get_values_types(&declared).unwrap();
    assert_eq!(types[0].name, "F_Read");
    assert_eq!(types[0].values[0].name, "Kind_A");
}

#[test]
fn read_and_write_enumerations_are_independent() {
    let mut declared = field("STATE", 0, 2);
    declared.enumerated_values = vec![
        block(Some(SvdUsage::Read), vec![value("IDLE", 0), value("BUSY", 1)]),
        block(Some(SvdUsage::Write), vec![value("START", 1)]),
    ];
    let built = build_field(&declared).unwrap().unwrap();
    assert_eq!(built.enum_types.len(), 2);
    assert_eq!(built.enum_types[0].name, "STATE_Read");
    assert_eq!(built.enum_types[0].usage, EnumeratedValueUsage::Read);
    assert_eq!(built.enum_types[1].name, "STATE_Write");
    assert_eq!(built.enum_types[1].usage, EnumeratedValueUsage::Write);
    assert_eq!(built.enum_type_read, Some("STATE_Read".to_string()));
    assert_eq!(built.enum_type_write, Some("STATE_Write".to_string()));
}

#[test]
fn write_then_read_enumerations_are_accepted() {
    let mut declared = field("STATE", 0, 2);
    declared.enumerated_values = vec![
        block(Some(SvdUsage::Write), vec![value("START", 1)]),
        block(Some(SvdUsage::Read), vec![value("IDLE", 0)]),
    ];
    let built = build_field(&declared).unwrap().unwrap();
    assert_eq!(built.enum_type_read, Some("STATE_Read".to_string()));
    assert_eq!(built.enum_type_write, Some("STATE_Write".to_string()));
}

#[test]
fn write_only_enumeration_leaves_reading_without_one() {
    let mut declared = field("CMD", 0, 2);
    declared.enumerated_values = vec![block(Some(SvdUsage::Write), vec![value("GO", 1)])];
    let built = build_field(&declared).unwrap().unwrap();
    assert_eq!(built.enum_type_read, None);
    assert_eq!(built.enum_type_write, Some("CMD_Write".to_string()));
}

#[test]
fn two_read_write_enumerations_are_rejected() {
    let mut declared = field("STATE", 0, 2);
    declared.enumerated_values = vec![
        block(Some(SvdUsage::ReadWrite), vec![value("A", 0)]),
        block(None, vec![value("B", 1)]),
    ];
    assert_eq!(
        get_values_types(&declared),
        Err(field_error(
            "STATE",
            "If two enumerations are defined, one shall be read and the other write"
        ))
    );
    assert!(build_field(&declared).is_err());
}

#[test]
fn two_enumerations_of_the_same_usage_are_rejected() {
    let mut declared = field("STATE", 0, 2);
    declared.enumerated_values = vec![
        block(Some(SvdUsage::Read), vec![value("A", 0)]),
        block(Some(SvdUsage::Read), vec![value("B", 1)]),
    ];
    assert_eq!(
        get_values_types(&declared),
        Err(field_error(
            "STATE",
            "If two enumerations are defined, one shall be read and the other write"
        ))
    );
}

#[test]
fn read_beside_read_write_is_rejected() {
    let mut declared = field("STATE", 0, 2);
    declared.enumerated_values = vec![
        block(Some(SvdUsage::Read), vec![value("A", 0)]),
        block(Some(SvdUsage::ReadWrite), vec![value("B", 1)]),
    ];
    assert!(get_values_types(&declared).is_err());
}

#[test]
fn three_enumerations_are_rejected() {
    let mut declared = field("STATE", 0, 2);
    declared.enumerated_values = vec![
        block(Some(SvdUsage::Read), vec![value("A", 0)]),
        block(Some(SvdUsage::Write), vec![value("B", 1)]),
        block(Some(SvdUsage::Read), vec![value("C", 2)]),
    ];
    assert_eq!(
        get_values_types(&declared),
        Err(field_error("STATE", "Only up to two enumerations are supported"))
    );
}

#[test]
fn derived_enumeration_is_rejected() {
    let mut declared = field("STATE", 0, 2);
    let mut values = block(None, vec![value("A", 0)]);
    values.derived_from = Some("OTHER".to_string());
    declared.enumerated_values = vec![values];
    assert_eq!(
        get_values_types(&declared),
        Err(field_error("STATE", "derivedFrom is not supported in enumerated values"))
    );
}

#[test]
fn enumeration_value_without_name_is_rejected() {
    let mut declared = field("STATE", 0, 2);
    declared.enumerated_values = vec![block(None, vec![value("A", 0), value("", 1)])];
    assert_eq!(
        get_values_types(&declared),
        Err(field_error("STATE", "A value of an enumeration shall have a name"))
    );
}

#[test]
fn enumeration_value_without_number_is_rejected() {
    let mut declared = field("STATE", 0, 2);
    let mut missing = value("B", 0);
    missing.value = None;
    declared.enumerated_values = vec![block(None, vec![value("A", 0), missing])];
    assert_eq!(
        get_values_types(&declared),
        Err(field_error(
            "STATE",
            "Default values are not supported: every value of an enumeration shall be defined"
        ))
    );
}

#[test]
fn first_error_of_the_enumerations_is_reported() {
    let mut declared = field("STATE", 0, 2);
    let mut derived = block(None, vec![value("A", 0)]);
    derived.derived_from = Some("OTHER".to_string());
    declared.enumerated_values = vec![
        block(None, vec![value("", 0)]),
        derived,
        block(None, Vec::new()),
    ];
    assert_eq!(
        get_values_types(&declared),
        Err(field_error("STATE", "A value of an enumeration shall have a name"))
    );
}
