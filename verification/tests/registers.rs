use svd2pac::error::{Diagnostic, ParseError};
use svd2pac::ir::{BitSize, HasSameType, Register, RegisterAccess};
use svd2pac::register::{get_name_id_internal, overlay_register, parent_of};
use svd2pac::svd::{get_dim_dim_increment, DimElement, SvdAccess, SvdField, SvdRegister};

fn field(name: &str, offset: u32, width: u32, access: Option<SvdAccess>) -> SvdField {
    SvdField {
        name: name.to_string(),
        description: None,
        bit_offset: offset,
        bit_width: width,
        access,
        enumerated_values: Vec::new(),
        derived_from: None,
        array: None,
    }
}

fn register(name: &str, fields: Vec<SvdField>) -> SvdRegister {
    SvdRegister {
        name: name.to_string(),
        alternate_group: None,
        description: Some("a register".to_string()),
        address_offset: 0x10,
        size: Some(32),
        reset_value: Some(0x55),
        access: Some(SvdAccess::ReadWrite),
        fields,
        derived_from: None,
        array: None,
    }
}

fn modules() -> Vec<String> {
    vec!["timer".to_string(), "ctrl".to_string()]
}

fn build(declared: &SvdRegister) -> (Result<(), ParseError>, Register, Vec<Diagnostic>) {
    let mut built = Register::default();
    let mut diagnostics = Vec::new();
    let result = overlay_register(&modules(), declared, &mut built, &mut diagnostics);
    (result, built, diagnostics)
}

fn register_error(name: &str, msg: &str) -> ParseError {
    ParseError::InvalidRegister { register_name: name.to_string(), msg: msg.to_string() }
}

#[test]
fn single_node_is_an_array_of_one_without_increment() {
    assert_eq!(get_dim_dim_increment(&None), (1, 0));
    let dim = DimElement { dim: 5, dim_increment: 8, dim_index: None, dim_array_index: None };
    assert_eq!(get_dim_dim_increment(&Some(dim)), (5, 8));
}

#[test]
fn alternate_group_is_appended_to_the_register_name() {
    let mut declared = register("STATUS%s", Vec::new());
    assert_eq!(get_name_id_internal(&declared), "STATUS");
    declared.alternate_group = Some("ALT".to_string());
    assert_eq!(get_name_id_internal(&declared), "STATUS_ALT");
}

#[test]
fn parent_of_a_module_path_drops_the_last_module() {
    assert_eq!(parent_of(&modules()), vec!["timer".to_string()]);
    assert_eq!(parent_of(&Vec::new()), Vec::<String>::new());
}

#[test]
fn register_is_built_from_its_declaration() {
    let declared = register(
        "CTRL",
        vec![
            field("EN", 0, 1, Some(SvdAccess::ReadWrite)),
            field("MODE", 1, 3, Some(SvdAccess::ReadOnly)),
        ],
    );
    let (result, built, diagnostics) = build(&declared);
    assert_eq!(result, Ok(()));
    assert!(diagnostics.is_empty());
    assert_eq!(built.name, "CTRL");
    assert_eq!(built.description, "a register");
    assert_eq!(built.offset, 0x10);
    assert_eq!(built.dim, 1);
    assert_eq!(built.dim_increment, 0);
    assert_eq!(built.access, RegisterAccess::RW);
    assert_eq!(built.size, BitSize::BIT32);
    assert_eq!(built.reset_value, 0x55);
    assert!(!built.has_enumerated_fields);
    assert!(!built.is_derived_from);
    assert_eq!(built.struct_id, "Ctrl");
    assert_eq!(built.struct_module_path, vec!["timer".to_string()]);
    assert_eq!(built.fields.len(), 2);
    assert_eq!(built.fields[0].name, "EN");
    assert_eq!(built.fields[0].mask, 1);
    assert_eq!(built.fields[1].name, "MODE");
    assert_eq!(built.fields[1].mask, 7);
    assert_eq!(built.fields[1].offset, 1);
}

#[test]
fn every_supported_register_width_is_accepted() {
    let mut declared = register("R", Vec::new());
    declared.size = Some(8);
    assert_eq!(build(&declared).1.size, BitSize::BIT8);
    declared.size = Some(16);
    assert_eq!(build(&declared).1.size, BitSize::BIT16);
    declared.size = Some(32);
    assert_eq!(build(&declared).1.size, BitSize::BIT32);
    declared.size = Some(64);
    assert_eq!(build(&declared).1.size, BitSize::BIT64);
}

#[test]
fn unsupported_register_width_is_rejected() {
    let mut declared = register("R", Vec::new());
    declared.size = Some(24);
    assert_eq!(build(&declared).0, Err(register_error("R", "Unsupported register size")));
}

#[test]
fn register_without_width_must_be_derived() {
    let mut declared = register("R", Vec::new());
    declared.size = None;
    assert_eq!(
        build(&declared).0,
        Err(register_error("R", "The register is not derived and has no specified size"))
    );
}

#[test]
fn register_without_reset_value_must_be_derived() {
    let mut declared = register("R", Vec::new());
    declared.reset_value = None;
    assert_eq!(
        build(&declared).0,
        Err(register_error("R", "The register is not derived and has no specified reset value"))
    );
}

#[test]
fn field_error_ends_the_register() {
    let declared = register(
        "R",
        vec![field("OK", 0, 1, Some(SvdAccess::ReadOnly)), field("BAD", 1, 0, None)],
    );
    assert_eq!(
        build(&declared).0,
        Err(ParseError::InvalidField {
            field_name: "BAD".to_string(),
            msg: "The bit width of a field shall be between 1 and 32".to_string(),
        })
    );
}

#[test]
fn field_without_access_is_skipped_and_reported() {
    let declared = register(
        "R",
        vec![
            field("A", 0, 1, Some(SvdAccess::ReadOnly)),
            field("B", 1, 1, None),
            field("C", 2, 1, Some(SvdAccess::WriteOnly)),
        ],
    );
    let (result, built, diagnostics) = build(&declared);
    assert_eq!(result, Ok(()));
    assert_eq!(built.fields.len(), 2);
    assert_eq!(built.fields[0].name, "A");
    assert_eq!(built.fields[1].name, "C");
    assert_eq!(diagnostics, vec![Diagnostic::FieldWithoutAccess { field_name: "B".to_string() }]);
}

#[test]
fn later_field_of_the_same_name_replaces_the_earlier() {
    let declared = register(
        "R",
        vec![
            field("A", 0, 1, Some(SvdAccess::ReadOnly)),
            field("B", 1, 1, Some(SvdAccess::ReadOnly)),
            field("A", 4, 2, Some(SvdAccess::ReadOnly)),
        ],
    );
    let built = build(&declared).1;
    assert_eq!(built.fields.len(), 2);
    assert_eq!(built.fields[0].name, "B");
    assert_eq!(built.fields[1].name, "A");
    assert_eq!(built.fields[1].offset, 4);
}

#[test]
fn access_is_inferred_from_the_fields() {
    let mut declared = register(
        "R",
        vec![
            field("A", 0, 1, Some(SvdAccess::ReadOnly)),
            field("B", 1, 1, Some(SvdAccess::WriteOnly)),
        ],
    );
    declared.access = None;
    let (_, built, diagnostics) = build(&declared);
    assert_eq!(built.access, RegisterAccess::RW);
    assert_eq!(
        diagnostics,
        vec![Diagnostic::RegisterAccessInferred { register_name: "R".to_string() }]
    );

    declared.fields = vec![field("A", 0, 1, Some(SvdAccess::ReadOnly))];
    assert_eq!(build(&declared).1.access, RegisterAccess::R);
    declared.fields = vec![field("B", 0, 1, Some(SvdAccess::WriteOnce))];
    assert_eq!(build(&declared).1.access, RegisterAccess::W);
    declared.fields = vec![field("C", 0, 1, Some(SvdAccess::ReadWrite))];
    assert_eq!(build(&declared).1.access, RegisterAccess::RW);
}

#[test]
fn access_that_cannot_be_inferred_is_read_only_and_reported() {
    let mut declared = register("R", vec![field("A", 0, 1, None)]);
    declared.access = None;
    let (result, built, diagnostics) = build(&declared);
    assert_eq!(result, Ok(()));
    assert_eq!(built.access, RegisterAccess::R);
    assert_eq!(
        diagnostics,
        vec![
            Diagnostic::FieldWithoutAccess { field_name: "A".to_string() },
            Diagnostic::RegisterAccessInferred { register_name: "R".to_string() },
            Diagnostic::RegisterAccessUnknown { register_name: "R".to_string() },
        ]
    );
}

#[test]
fn derived_register_without_overrides_has_the_type_of_its_reference() {
    let reference = build(&register("A", vec![field("F0", 0, 8, Some(SvdAccess::ReadWrite))])).1;
    let mut declared = register("B", Vec::new());
    declared.derived_from = Some("A".to_string());
    declared.size = None;
    declared.reset_value = None;
    declared.access = None;
    declared.description = None;
    declared.address_offset = 0x20;
    let mut built = reference.clone();
    let mut diagnostics = Vec::new();
    let result = overlay_register(&modules(), &declared, &mut built, &mut diagnostics);
    assert_eq!(result, Ok(()));
    assert!(diagnostics.is_empty());
    assert_eq!(built.name, "B");
    assert_eq!(built.offset, 0x20);
    assert_eq!(built.struct_id, "A");
    assert_eq!(built.fields, reference.fields);
    assert_eq!(built.size, BitSize::BIT32);
    assert_eq!(built.reset_value, 0x55);
    assert_eq!(built.access, RegisterAccess::RW);
    assert!(built.has_same_type(&reference));
}

#[test]
fn each_override_of_a_derived_register_changes_its_type() {
    let reference = build(&register("A", vec![field("F0", 0, 8, Some(SvdAccess::ReadWrite))])).1;
    let mut plain = register("B", Vec::new());
    plain.derived_from = Some("A".to_string());
    plain.size = None;
    plain.reset_value = None;
    plain.access = None;

    let overlay = |declared: &SvdRegister| {
        let mut built = reference.clone();
        let mut diagnostics = Vec::new();
        overlay_register(&modules(), declared, &mut built, &mut diagnostics).unwrap();
        built
    };
    assert!(overlay(&plain).has_same_type(&reference));

    let mut more_fields = register("B", vec![field("F1", 8, 8, Some(SvdAccess::ReadWrite))]);
    more_fields.derived_from = plain.derived_from.clone();
    more_fields.size = None;
    more_fields.reset_value = None;
    more_fields.access = None;
    let built = overlay(&more_fields);
    assert_eq!(built.fields.len(), 2);
    assert!(!built.has_same_type(&reference));

    let mut other_access = register("B", Vec::new());
    other_access.derived_from = plain.derived_from.clone();
    other_access.size = None;
    other_access.reset_value = None;
    other_access.access = Some(SvdAccess::ReadOnly);
    assert!(!overlay(&other_access).has_same_type(&reference));

    let mut other_size = register("B", Vec::new());
    other_size.derived_from = plain.derived_from.clone();
    other_size.size = Some(16);
    other_size.reset_value = None;
    other_size.access = None;
    assert!(!overlay(&other_size).has_same_type(&reference));

    let mut other_reset = register("B", Vec::new());
    other_reset.derived_from = plain.derived_from.clone();
    other_reset.size = None;
    other_reset.reset_value = Some(1);
    other_reset.access = None;
    assert!(!overlay(&other_reset).has_same_type(&reference));

    let mut other_type = overlay(&plain);
    other_type.struct_id = "Other".to_string();
    assert!(!other_type.has_same_type(&reference));
}

#[test]
fn description_and_offset_do_not_change_the_type() {
    let reference = build(&register("A", vec![field("F0", 0, 8, Some(SvdAccess::ReadWrite))])).1;
    let mut other = reference.clone();
    other.name = "B".to_string();
    other.description = "another".to_string();
    other.offset = 0x40;
    other.dim = 4;
    other.dim_increment = 4;
    assert!(other.has_same_type(&reference));
}
