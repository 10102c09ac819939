use svd2pac::addresses::get_entity_db;
use svd2pac::builder::svd_device2ir;
use svd2pac::error::{Diagnostic, ParseError};
use svd2pac::interrupts::get_interrupt_table;
use svd2pac::ir::{HasSameType, Interrupt, PathChunk, PeripheralMod};
use svd2pac::svd::{
    DimArrayValue, DimElement, ExpandedName, HeaderStructName, SvdAccess, SvdCluster, SvdCpu, SvdDevice,
    SvdField, SvdInterrupt, SvdPeripheral, SvdRegister, SvdRegisterCluster,
};

fn field(name: &str, offset: u32, width: u32) -> SvdField {
    SvdField {
        name: name.to_string(),
        description: None,
        bit_offset: offset,
        bit_width: width,
        access: Some(SvdAccess::ReadWrite),
        enumerated_values: Vec::new(),
        derived_from: None,
        array: None,
    }
}

fn register(name: &str, offset: u32) -> SvdRegister {
    SvdRegister {
        name: name.to_string(),
        alternate_group: None,
        description: None,
        address_offset: offset,
        size: Some(32),
        reset_value: Some(0),
        access: Some(SvdAccess::ReadWrite),
        fields: Vec::new(),
        derived_from: None,
        array: None,
    }
}

fn derived_register(name: &str, offset: u32, from: &str) -> SvdRegister {
    let mut declared = register(name, offset);
    declared.size = None;
    declared.reset_value = None;
    declared.access = None;
    declared.derived_from = Some(from.to_string());
    declared
}

fn cluster(name: &str, offset: u32, children: Vec<SvdRegisterCluster>) -> SvdCluster {
    SvdCluster {
        name: name.to_string(),
        description: None,
        header_struct_name: None,
        address_offset: offset,
        children,
        derived_from: None,
        array: None,
    }
}

fn peripheral(name: &str, base: u64, children: Vec<SvdRegisterCluster>) -> SvdPeripheral {
    SvdPeripheral {
        name: name.to_string(),
        description: None,
        header_struct_name: None,
        base_address: base,
        interrupt: Vec::new(),
        registers: Some(children),
        derived_from: None,
        array: None,
    }
}

fn device(peripherals: Vec<SvdPeripheral>) -> SvdDevice {
    SvdDevice {
        name: "Chip".to_string(),
        description: "a device".to_string(),
        version: "1.2".to_string(),
        license_text: Some("line one\\nline two".to_string()),
        cpu: None,
        peripherals,
    }
}

fn array(dim: u32, increment: u32) -> Option<DimElement> {
    Some(DimElement { dim, dim_increment: increment, dim_index: None, dim_array_index: None })
}

fn interrupt(name: &str, value: u32) -> SvdInterrupt {
    SvdInterrupt { name: name.to_string(), description: None, value }
}

fn chunk(path: &str, index: Option<u32>) -> PathChunk {
    PathChunk { path: path.to_string(), index }
}

fn reg(declared: SvdRegister) -> SvdRegisterCluster {
    SvdRegisterCluster::Register(declared)
}

#[test]
fn expanded_name_of_a_single_node_is_its_name() {
    assert_eq!(register("CTRL", 0).get_expanded_name(), Ok("CTRL".to_string()));
}

#[test]
fn expanded_name_of_an_array_is_the_name_of_its_first_element() {
    let mut declared = register("CH[%s]", 0);
    declared.array = array(4, 4);
    assert_eq!(declared.get_expanded_name(), Ok("CH0".to_string()));

    let mut named = cluster("BANK%s", 0, Vec::new());
    named.array = Some(DimElement {
        dim: 2,
        dim_increment: 0x10,
        dim_index: Some(vec!["A".to_string(), "B".to_string()]),
        dim_array_index: None,
    });
    assert_eq!(named.get_expanded_name(), Ok("BANKA".to_string()));

    let mut wide = peripheral("UART%s", 0, Vec::new());
    wide.array = array(3, 0x100);
    assert_eq!(wide.get_expanded_name(), Ok("UART0".to_string()));
}

#[test]
fn named_index_gives_the_first_element_its_name() {
    let mut declared = register("TIMER%s", 0);
    declared.array = Some(DimElement {
        dim: 2,
        dim_increment: 4,
        dim_index: None,
        dim_array_index: Some(vec![
            DimArrayValue { name: "SECOND".to_string(), value: Some(1) },
            DimArrayValue { name: "FIRST".to_string(), value: Some(0) },
        ]),
    });
    assert_eq!(declared.get_expanded_name(), Ok("FIRST".to_string()));
}

#[test]
fn array_of_size_zero_has_no_expanded_name() {
    let msg = "Array of size 0 is not allowed".to_string();
    let mut declared = register("CH%s", 0);
    declared.array = array(0, 4);
    assert_eq!(
        declared.get_expanded_name(),
        Err(ParseError::InvalidRegister { register_name: "CH%s".to_string(), msg: msg.clone() })
    );
    let mut group = cluster("G%s", 0, Vec::new());
    group.array = array(0, 4);
    assert_eq!(
        group.get_expanded_name(),
        Err(ParseError::InvalidCluster { cluster_name: "G%s".to_string(), msg: msg.clone() })
    );
    let mut block = peripheral("P%s", 0, Vec::new());
    block.array = array(0, 4);
    assert_eq!(
        block.get_expanded_name(),
        Err(ParseError::InvalidPeripheral { peripheral_name: "P%s".to_string(), msg })
    );
}

#[test]
fn only_peripherals_and_clusters_name_their_struct() {
    let mut block = peripheral("P", 0, Vec::new());
    block.header_struct_name = Some("Shared".to_string());
    assert_eq!(block.header_struct_name(), Some("Shared".to_string()));
    let mut group = cluster("G", 0, Vec::new());
    assert_eq!(group.header_struct_name(), None);
    group.header_struct_name = Some("Bank".to_string());
    assert_eq!(group.header_struct_name(), Some("Bank".to_string()));
    assert_eq!(register("R", 0).header_struct_name(), None);
}

#[test]
fn device_is_built_in_order_of_declaration() {
    let mut ctrl = register("CTRL", 0);
    ctrl.fields = vec![field("EN", 0, 1)];
    let svd = device(vec![
        peripheral("TIMER", 0x4000, vec![reg(ctrl), reg(register("COUNT", 4))]),
        peripheral("UART", 0x5000, vec![reg(register("DATA", 0))]),
    ]);
    let mut diagnostics = Vec::new();
    let ir = svd_device2ir(&svd, &None, &mut diagnostics).unwrap();
    assert!(diagnostics.is_empty());
    assert_eq!(ir.device.name, "Chip");
    assert_eq!(ir.device.description, "a device");
    assert_eq!(ir.version, "1.2");
    assert_eq!(ir.license_text, "line one\nline two");
    assert_eq!(ir.nvic_prio_bits, None);
    assert_eq!(ir.device.peripheral_mod.len(), 2);
    let timer = &ir.device.peripheral_mod[0];
    assert_eq!(timer.name, "TIMER");
    assert_eq!(timer.struct_id, "Timer");
    assert_eq!(timer.module_id, "timer");
    assert_eq!(timer.base_addr, vec![0x4000]);
    assert_eq!(timer.derived_from, None);
    assert_eq!(timer.registers.len(), 2);
    assert_eq!(timer.registers[0].name, "CTRL");
    assert_eq!(timer.registers[0].struct_id, "Ctrl");
    assert_eq!(timer.registers[0].struct_module_path, vec!["timer".to_string()]);
    assert_eq!(timer.registers[0].fields[0].name, "EN");
    assert_eq!(timer.registers[1].name, "COUNT");
    assert_eq!(ir.device.peripheral_mod[1].name, "UART");
    assert!(ir.interrupt_table.is_empty());
}

#[test]
fn processor_facts_are_carried_through() {
    let mut svd = device(Vec::new());
    svd.cpu = Some(SvdCpu {
        nvic_priority_bits: 4,
        has_vendor_systick: true,
        fpu_present: false,
        mpu_present: true,
    });
    let ir = svd_device2ir(&svd, &None, &mut Vec::new()).unwrap();
    assert_eq!(ir.nvic_prio_bits, Some(4));
    assert_eq!(ir.vendor_systick_config, Some(true));
    assert_eq!(ir.fpu_present, Some(false));
    assert_eq!(ir.mpu_present, Some(true));
}

#[test]
fn custom_license_text_overrides_that_of_the_description() {
    let svd = device(Vec::new());
    let custom = Some("my\\nlicense".to_string());
    let ir = svd_device2ir(&svd, &custom, &mut Vec::new()).unwrap();
    assert_eq!(ir.license_text, "my\\nlicense");
}

#[test]
fn missing_license_text_is_empty_and_reported() {
    let mut svd = device(Vec::new());
    svd.license_text = None;
    let mut diagnostics = Vec::new();
    let ir = svd_device2ir(&svd, &None, &mut diagnostics).unwrap();
    assert_eq!(ir.license_text, "");
    assert_eq!(diagnostics, vec![Diagnostic::MissingLicense]);
}

#[test]
fn address_database_of_a_peripheral_array() {
    let mut uart = peripheral("UART[%s]", 0x100, vec![reg(register("DATA", 0x4))]);
    uart.array = array(3, 0x20);
    let ir = svd_device2ir(&device(vec![uart]), &None, &mut Vec::new()).unwrap();
    let keys: Vec<u64> = ir.register_addresses.keys().copied().collect();
    assert_eq!(keys, vec![0x104, 0x124, 0x144]);
    for (index, address) in [0x104u64, 0x124, 0x144].iter().enumerate() {
        assert_eq!(
            ir.register_addresses[address],
            vec![vec![chunk("UART", Some(index as u32)), chunk("data", None)]]
        );
    }
    assert_eq!(ir.device.peripheral_mod[0].base_addr, vec![0x100, 0x120, 0x140]);
}

#[test]
fn address_database_adds_cluster_offsets_and_expands_arrays() {
    let mut channel = cluster("CH%s", 0x100, vec![reg(register("CFG", 0x8))]);
    channel.array = array(2, 0x40);
    let mut status = register("STATUS[%s]", 0x10);
    status.array = array(2, 4);
    let inner = cluster("INNER", 0x20, vec![reg(register("R", 0x4))]);
    let outer = cluster("OUTER", 0x200, vec![SvdRegisterCluster::Cluster(inner)]);
    let svd = device(vec![peripheral(
        "DMA",
        0x1000,
        vec![
            SvdRegisterCluster::Cluster(channel),
            reg(status),
            SvdRegisterCluster::Cluster(outer),
        ],
    )]);
    let db = get_entity_db(&svd).unwrap();
    let entries: Vec<(u64, Vec<Vec<PathChunk>>)> =
        db.register_addresses.iter().map(|(k, v)| (*k, v.clone())).collect();
    assert_eq!(
        entries,
        vec![
            (0x1108, vec![vec![chunk("DMA", None), chunk("ch", Some(0)), chunk("cfg", None)]]),
            (0x1148, vec![vec![chunk("DMA", None), chunk("ch", Some(1)), chunk("cfg", None)]]),
            (0x1010, vec![vec![chunk("DMA", None), chunk("status", Some(0))]]),
            (0x1014, vec![vec![chunk("DMA", None), chunk("status", Some(1))]]),
            (
                0x1224,
                vec![vec![
                    chunk("DMA", None),
                    chunk("outer", None),
                    chunk("inner", None),
                    chunk("r", None)
                ]]
            ),
        ]
    );
}

#[test]
fn aliased_addresses_list_their_paths_in_order_of_the_walk() {
    let mut alternate = register("DATA", 0x0);
    alternate.alternate_group = Some("ALT".to_string());
    let svd = device(vec![
        peripheral("A", 0x100, vec![reg(register("X", 0x0)), reg(register("Y", 0x4))]),
        peripheral("B", 0x100, vec![reg(alternate), reg(register("Z", 0x0))]),
    ]);
    let db = get_entity_db(&svd).unwrap();
    let keys: Vec<u64> = db.register_addresses.keys().copied().collect();
    assert_eq!(keys, vec![0x100, 0x104]);
    assert_eq!(
        db.register_addresses[&0x100],
        vec![
            vec![chunk("A", None), chunk("x", None)],
            vec![chunk("B", None), chunk("data_alt", None)],
            vec![chunk("B", None), chunk("z", None)],
        ]
    );
    assert_eq!(db.register_addresses[&0x104], vec![vec![chunk("A", None), chunk("y", None)]]);
}

#[test]
fn peripheral_without_registers_records_nothing() {
    let mut empty = peripheral("E", 0x100, Vec::new());
    empty.registers = None;
    let db = get_entity_db(&device(vec![empty])).unwrap();
    assert!(db.register_addresses.is_empty());
}

#[test]
fn address_beyond_64_bits_is_rejected() {
    let svd = device(vec![
        peripheral("OK", 0x100, vec![reg(register("R", 0))]),
        peripheral("HIGH", u64::MAX - 3, vec![reg(register("R", 8))]),
    ]);
    let expected = ParseError::InvalidPeripheral {
        peripheral_name: "HIGH".to_string(),
        msg: "An address does not fit in 64 bits".to_string(),
    };
    assert_eq!(get_entity_db(&svd), Err(expected.clone()));
    assert_eq!(svd_device2ir(&svd, &None, &mut Vec::new()), Err(expected));
}

#[test]
fn base_address_of_an_instance_beyond_64_bits_is_rejected() {
    let mut high = peripheral("HIGH%s", u64::MAX - 3, Vec::new());
    high.array = array(2, 8);
    assert_eq!(
        svd_device2ir(&device(vec![high]), &None, &mut Vec::new()),
        Err(ParseError::InvalidPeripheral {
            peripheral_name: "HIGH%s".to_string(),
            msg: "An address does not fit in 64 bits".to_string(),
        })
    );
}

#[test]
fn interrupt_table_fills_holes_and_keeps_the_later_of_two() {
    let mut first = peripheral("A", 0, Vec::new());
    first.interrupt = vec![interrupt("A2", 2), interrupt("A5", 5)];
    let mut second = peripheral("B", 0x100, Vec::new());
    second.interrupt = vec![interrupt("B5", 5), interrupt("B7", 7)];
    second.interrupt[0].description = Some("the later one".to_string());
    let mut diagnostics = Vec::new();
    let ir = svd_device2ir(&device(vec![first, second]), &None, &mut diagnostics).unwrap();
    assert_eq!(ir.interrupt_table.len(), 8);
    for hole in [0usize, 1, 3, 4, 6] {
        assert_eq!(ir.interrupt_table[hole], None);
    }
    assert_eq!(
        ir.interrupt_table[2],
        Some(Interrupt { name: "A2".to_string(), value: 2, description: String::new() })
    );
    assert_eq!(
        ir.interrupt_table[5],
        Some(Interrupt {
            name: "B5".to_string(),
            value: 5,
            description: "the later one".to_string()
        })
    );
    assert_eq!(ir.interrupt_table[7].as_ref().unwrap().name, "B7");
    assert_eq!(diagnostics, vec![Diagnostic::DuplicateInterrupt { value: 5 }]);
}

#[test]
fn interrupt_table_of_no_interrupt_is_empty() {
    let peripherals = vec![PeripheralMod::default(), PeripheralMod::default()];
    let mut diagnostics = Vec::new();
    assert!(get_interrupt_table(&peripherals, &mut diagnostics).is_empty());
    assert!(diagnostics.is_empty());
}

#[test]
fn interrupt_at_slot_zero_gives_a_table_of_one() {
    let mut only = PeripheralMod::default();
    only.interrupts = vec![Interrupt {
        name: "RESET".to_string(),
        value: 0,
        description: String::new(),
    }];
    let table = get_interrupt_table(&vec![only], &mut Vec::new());
    assert_eq!(table.len(), 1);
    assert_eq!(table[0].as_ref().unwrap().name, "RESET");
}

#[test]
fn build_is_repeatable() {
    let mut ctrl = register("CTRL", 0);
    ctrl.fields = vec![field("EN", 0, 1), field("MODE", 1, 2)];
    ctrl.access = None;
    let mut uart = peripheral(
        "UART%s",
        0x4000,
        vec![
            reg(ctrl),
            reg(derived_register("CTRL2", 4, "CTRL")),
            SvdRegisterCluster::Cluster(cluster("FIFO", 0x10, vec![reg(register("DATA", 0))])),
        ],
    );
    uart.array = array(2, 0x100);
    uart.interrupt = vec![interrupt("UART", 3)];
    let svd = device(vec![uart, peripheral("TIMER", 0x8000, vec![reg(register("CNT", 0))])]);
    let mut first_diagnostics = Vec::new();
    let mut second_diagnostics = Vec::new();
    let first = svd_device2ir(&svd, &None, &mut first_diagnostics);
    let second = svd_device2ir(&svd, &None, &mut second_diagnostics);
    assert!(first.is_ok());
    assert_eq!(first, second);
    assert_eq!(first_diagnostics, second_diagnostics);
    assert_eq!(format!("{:?}", first), format!("{:?}", second));
}

#[test]
fn derived_register_without_overrides_is_an_alias() {
    let mut a = register("A", 0);
    a.fields = vec![field("F0", 0, 8)];
    let b = derived_register("B", 4, "A");
    let ir = svd_device2ir(
        &device(vec![peripheral("P", 0, vec![reg(a), reg(b)])]),
        &None,
        &mut Vec::new(),
    )
    .unwrap();
    let registers = &ir.device.peripheral_mod[0].registers;
    assert!(!registers[0].is_derived_from);
    assert!(registers[1].is_derived_from);
    assert_eq!(registers[1].name, "B");
    assert_eq!(registers[1].struct_id, "A");
    assert_eq!(registers[1].fields, registers[0].fields);
    assert!(registers[1].has_same_type(&registers[0]));
}

#[test]
fn derived_register_with_an_added_field_is_no_alias() {
    let mut a = register("A", 0);
    a.fields = vec![field("F0", 0, 8)];
    let mut b = derived_register("B", 4, "A");
    b.fields = vec![field("F1", 8, 8)];
    let ir = svd_device2ir(
        &device(vec![peripheral("P", 0, vec![reg(a), reg(b)])]),
        &None,
        &mut Vec::new(),
    )
    .unwrap();
    let registers = &ir.device.peripheral_mod[0].registers;
    assert!(!registers[1].is_derived_from);
    assert_eq!(registers[1].fields.len(), 2);
    assert_eq!(registers[1].fields[0].name, "F0");
    assert_eq!(registers[1].fields[1].name, "F1");
}

#[test]
fn derived_register_with_another_width_or_access_is_no_alias() {
    let mut a = register("A", 0);
    a.fields = vec![field("F0", 0, 8)];
    let mut narrow = derived_register("B", 4, "A");
    narrow.size = Some(16);
    let mut read_only = derived_register("C", 8, "A");
    read_only.access = Some(SvdAccess::ReadOnly);
    let mut reset = derived_register("D", 12, "A");
    reset.reset_value = Some(7);
    let ir = svd_device2ir(
        &device(vec![peripheral("P", 0, vec![reg(a), reg(narrow), reg(read_only), reg(reset)])]),
        &None,
        &mut Vec::new(),
    )
    .unwrap();
    let registers = &ir.device.peripheral_mod[0].registers;
    assert!(!registers[1].is_derived_from);
    assert!(!registers[2].is_derived_from);
    assert!(!registers[3].is_derived_from);
}

#[test]
fn register_derives_from_the_first_element_of_an_array() {
    let mut channels = register("CH[%s]", 0);
    channels.array = array(4, 4);
    let copy = derived_register("COPY", 0x20, "CH0");
    let ir = svd_device2ir(
        &device(vec![peripheral("P", 0, vec![reg(channels), reg(copy)])]),
        &None,
        &mut Vec::new(),
    )
    .unwrap();
    let registers = &ir.device.peripheral_mod[0].registers;
    assert_eq!(registers[0].name, "CH");
    assert_eq!(registers[0].dim, 4);
    assert_eq!(registers[0].dim_increment, 4);
    assert!(registers[1].is_derived_from);
    assert_eq!(registers[1].dim, 1);
}

#[test]
fn register_derives_by_absolute_path_from_another_peripheral() {
    let group = cluster("GROUP", 0x10, vec![reg(register("SRC", 0))]);
    let first = peripheral("FIRST", 0, vec![SvdRegisterCluster::Cluster(group)]);
    let second = peripheral(
        "SECOND",
        0x100,
        vec![reg(derived_register("COPY", 0, "FIRST.GROUP.SRC"))],
    );
    let ir = svd_device2ir(&device(vec![first, second]), &None, &mut Vec::new()).unwrap();
    let copy = &ir.device.peripheral_mod[1].registers[0];
    assert!(copy.is_derived_from);
    assert_eq!(copy.struct_id, "Src");
    assert_eq!(copy.struct_module_path, vec!["first".to_string(), "group".to_string()]);
}

#[test]
fn missing_derivation_target_of_a_register_aborts_the_build() {
    let svd = device(vec![peripheral(
        "P",
        0,
        vec![reg(register("A", 0)), reg(derived_register("B", 4, "NOWHERE"))],
    )]);
    assert_eq!(
        svd_device2ir(&svd, &None, &mut Vec::new()),
        Err(ParseError::InvalidRegister {
            register_name: "B".to_string(),
            msg: "Missing reference NOWHERE".to_string(),
        })
    );
}

#[test]
fn forward_reference_is_rejected() {
    let svd = device(vec![peripheral(
        "P",
        0,
        vec![reg(derived_register("B", 4, "A")), reg(register("A", 0))],
    )]);
    assert_eq!(
        svd_device2ir(&svd, &None, &mut Vec::new()),
        Err(ParseError::InvalidRegister {
            register_name: "B".to_string(),
            msg: "Missing reference A".to_string(),
        })
    );
}

#[test]
fn missing_derivation_target_of_a_cluster_or_peripheral_aborts_the_build() {
    let mut group = cluster("G", 0, Vec::new());
    group.derived_from = Some("H".to_string());
    let svd = device(vec![peripheral("P", 0, vec![SvdRegisterCluster::Cluster(group)])]);
    assert_eq!(
        svd_device2ir(&svd, &None, &mut Vec::new()),
        Err(ParseError::InvalidCluster {
            cluster_name: "G".to_string(),
            msg: "Missing reference H".to_string(),
        })
    );
    let mut block = peripheral("Q", 0, Vec::new());
    block.derived_from = Some("R".to_string());
    assert_eq!(
        svd_device2ir(&device(vec![block]), &None, &mut Vec::new()),
        Err(ParseError::InvalidPeripheral {
            peripheral_name: "Q".to_string(),
            msg: "Missing reference R".to_string(),
        })
    );
}

#[test]
fn reference_to_a_node_of_another_kind_is_rejected() {
    let group = cluster("G", 0, Vec::new());
    let svd = device(vec![peripheral(
        "P",
        0,
        vec![SvdRegisterCluster::Cluster(group), reg(derived_register("B", 4, "G"))],
    )]);
    assert_eq!(
        svd_device2ir(&svd, &None, &mut Vec::new()),
        Err(ParseError::InvalidRegister {
            register_name: "B".to_string(),
            msg: "Reference to a node of another kind: G".to_string(),
        })
    );
}

#[test]
fn empty_array_aborts_the_build() {
    let mut none = register("R%s", 0);
    none.array = array(0, 4);
    let svd = device(vec![peripheral("P", 0, vec![reg(none)])]);
    assert_eq!(
        svd_device2ir(&svd, &None, &mut Vec::new()),
        Err(ParseError::InvalidRegister {
            register_name: "R%s".to_string(),
            msg: "Array of size 0 is not allowed".to_string(),
        })
    );
}

#[test]
fn derived_cluster_shares_the_type_until_it_adds_a_child() {
    let source = cluster("SRC", 0, vec![reg(register("R", 0))]);
    let mut alias = cluster("ALIAS", 0x10, Vec::new());
    alias.derived_from = Some("SRC".to_string());
    let mut grown = cluster("GROWN", 0x20, vec![reg(register("EXTRA", 4))]);
    grown.derived_from = Some("SRC".to_string());
    let mut renamed = cluster("RENAMED", 0x30, Vec::new());
    renamed.derived_from = Some("SRC".to_string());
    renamed.header_struct_name = Some("Other".to_string());
    let svd = device(vec![peripheral(
        "P",
        0,
        vec![
            SvdRegisterCluster::Cluster(source),
            SvdRegisterCluster::Cluster(alias),
            SvdRegisterCluster::Cluster(grown),
            SvdRegisterCluster::Cluster(renamed),
        ],
    )]);
    let ir = svd_device2ir(&svd, &None, &mut Vec::new()).unwrap();
    let clusters = &ir.device.peripheral_mod[0].clusters;
    assert_eq!(clusters.len(), 4);
    assert!(!clusters[0].is_derived_from);
    assert_eq!(clusters[0].struct_id, "Src");
    assert_eq!(clusters[0].module_id, "src");
    assert_eq!(clusters[0].struct_module_path, vec!["p".to_string()]);
    assert_eq!(clusters[0].registers[0].struct_module_path, vec!["p".to_string(), "src".to_string()]);
    assert!(clusters[1].is_derived_from);
    assert_eq!(clusters[1].name, "ALIAS");
    assert_eq!(clusters[1].offset, 0x10);
    assert_eq!(clusters[1].struct_id, "Src");
    assert_eq!(clusters[1].module_id, "alias");
    assert!(clusters[1].has_same_type(&clusters[0]));
    assert!(!clusters[2].is_derived_from);
    assert_eq!(clusters[2].registers.len(), 2);
    assert!(!clusters[3].is_derived_from);
    assert_eq!(clusters[3].struct_id, "Other");
    assert_eq!(clusters[3].module_id, "other");
}

#[test]
fn derived_peripheral_shares_the_type_of_its_reference() {
    let source = peripheral("UART0", 0x1000, vec![reg(register("DATA", 0))]);
    let mut copy = peripheral("UART1", 0x2000, Vec::new());
    copy.registers = None;
    copy.derived_from = Some("UART0".to_string());
    let mut grown = peripheral("UART2", 0x3000, vec![reg(register("EXTRA", 4))]);
    grown.derived_from = Some("UART0".to_string());
    let ir = svd_device2ir(&device(vec![source, copy, grown]), &None, &mut Vec::new()).unwrap();
    let peripherals = &ir.device.peripheral_mod;
    assert_eq!(peripherals[0].derived_from, None);
    assert_eq!(peripherals[1].derived_from, Some("UART0".to_string()));
    assert_eq!(peripherals[1].name, "UART1");
    assert_eq!(peripherals[1].struct_id, "Uart0");
    assert_eq!(peripherals[1].module_id, "uart0");
    assert_eq!(peripherals[1].base_addr, vec![0x2000]);
    assert_eq!(peripherals[1].registers, peripherals[0].registers);
    assert!(peripherals[1].has_same_type(&peripherals[0]));
    assert_eq!(peripherals[2].derived_from, None);
    assert_eq!(peripherals[2].registers.len(), 2);
}

#[test]
fn struct_name_of_a_peripheral_names_its_struct_and_module() {
    let mut named = peripheral("UART0", 0x1000, vec![reg(register("DATA", 0))]);
    named.header_struct_name = Some("SerialLine".to_string());
    let ir = svd_device2ir(&device(vec![named]), &None, &mut Vec::new()).unwrap();
    let built = &ir.device.peripheral_mod[0];
    assert_eq!(built.name, "UART0");
    assert_eq!(built.struct_id, "SerialLine");
    assert_eq!(built.module_id, "serialline");
    assert_eq!(built.registers[0].struct_module_path, vec!["serialline".to_string()]);
}

#[test]
fn later_peripheral_of_the_same_name_replaces_the_earlier() {
    let svd = device(vec![
        peripheral("A", 0x100, Vec::new()),
        peripheral("B", 0x200, Vec::new()),
        peripheral("A", 0x300, Vec::new()),
    ]);
    let ir = svd_device2ir(&svd, &None, &mut Vec::new()).unwrap();
    let peripherals = &ir.device.peripheral_mod;
    assert_eq!(peripherals.len(), 2);
    assert_eq!(peripherals[0].name, "B");
    assert_eq!(peripherals[1].name, "A");
    assert_eq!(peripherals[1].base_addr, vec![0x300]);
}

#[test]
fn diagnostics_of_the_walk_follow_that_of_the_license() {
    let mut quiet = register("R", 0);
    quiet.access = None;
    let mut skipped = field("F", 0, 1);
    skipped.access = None;
    quiet.fields = vec![skipped];
    let mut block = peripheral("P", 0, vec![reg(quiet)]);
    block.interrupt = vec![interrupt("I", 1), interrupt("J", 1)];
    let mut svd = device(vec![block]);
    svd.license_text = None;
    let mut diagnostics = vec![Diagnostic::DuplicateInterrupt { value: 99 }];
    svd_device2ir(&svd, &None, &mut diagnostics).unwrap();
    assert_eq!(
        diagnostics,
        vec![
            Diagnostic::DuplicateInterrupt { value: 99 },
            Diagnostic::MissingLicense,
            Diagnostic::FieldWithoutAccess { field_name: "F".to_string() },
            Diagnostic::RegisterAccessInferred { register_name: "R".to_string() },
            Diagnostic::RegisterAccessUnknown { register_name: "R".to_string() },
            Diagnostic::DuplicateInterrupt { value: 1 },
        ]
    );
}
