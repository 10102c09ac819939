//! The invariants of the model: in every mapping the names are distinct,
//! the mask of every field is not 0 and fits its width class, and every
//! register, cluster and peripheral has at least one instance. A build
//! yields a model in which they hold.
use crate::error::ParseErrorView;
use crate::fields::built_field;
use crate::ir::{ClusterView, DeviceView, FieldView, PeripheralView, RegisterView};
use crate::laws::lemma_mask_of_width;
use crate::ordered::{lemma_index_of, lemma_upserted, unique_names, upserted, Keyed, index_of};
use crate::register::{fields_overlaid, overlaid_register};
use crate::svd::{
    SvdCluster, SvdDevice, SvdField, SvdPeripheral, SvdRegister, SvdRegisterCluster,
};
use crate::visitor::{
    children_of, fresh_walk, overlaid_cluster, overlaid_peripheral, visited_child,
    visited_children, visited_cluster, visited_device, visited_peripheral, visited_peripherals,
    visited_register, Contents, ItemView, Walk,
};
use vstd::prelude::*;

verus! {

/// The mask of the field is not 0 and fits the width class of the field.
pub open spec fn well_formed_field(f: FieldView) -> bool {
    f.mask != 0 && f.size.contains(f.mask as u64)
}

/// The register has at least one instance, its fields have distinct names,
/// and each of them is well formed.
pub open spec fn well_formed_register(r: RegisterView) -> bool {
    &&& r.dim >= 1
    &&& unique_names(r.fields)
    &&& forall|i: int| 0 <= i < r.fields.len() ==> well_formed_field(#[trigger] r.fields[i])
}

/// The registers have distinct names and each of them is well formed.
pub open spec fn well_formed_registers(s: Seq<RegisterView>) -> bool {
    &&& unique_names(s)
    &&& forall|i: int| 0 <= i < s.len() ==> well_formed_register(#[trigger] s[i])
}

/// The cluster has at least one instance, its registers and its clusters
/// have distinct names, and each of them is well formed.
pub open spec fn well_formed_cluster(c: ClusterView) -> bool
    decreases c,
{
    &&& c.dim >= 1
    &&& well_formed_registers(c.registers)
    &&& unique_names(c.clusters)
    &&& forall|i: int|
        0 <= i < c.clusters.len() ==> well_formed_cluster(#[trigger] c.clusters[i])
}

/// The clusters have distinct names and each of them is well formed.
pub open spec fn well_formed_clusters(s: Seq<ClusterView>) -> bool {
    &&& unique_names(s)
    &&& forall|i: int| 0 <= i < s.len() ==> well_formed_cluster(#[trigger] s[i])
}

/// The peripheral has at least one instance, with a base address for each,
/// and its registers and clusters are well formed.
pub open spec fn well_formed_peripheral(p: PeripheralView) -> bool {
    &&& p.base_addr.len() >= 1
    &&& well_formed_registers(p.registers)
    &&& well_formed_clusters(p.clusters)
}

/// The peripherals of the device have distinct names and each of them is
/// well formed.
pub open spec fn well_formed_device(d: DeviceView) -> bool {
    &&& unique_names(d.peripheral_mod)
    &&& forall|i: int|
        0 <= i < d.peripheral_mod.len() ==> well_formed_peripheral(#[trigger] d.peripheral_mod[i])
}

/// The node is well formed.
pub open spec fn well_formed_item(item: ItemView) -> bool {
    match item {
        ItemView::Register(r) => well_formed_register(r),
        ItemView::Cluster(c) => well_formed_cluster(c),
        ItemView::Peripheral(p) => well_formed_peripheral(p),
    }
}

/// Every node built so far is well formed.
pub open spec fn well_formed_walk(walk: Walk) -> bool {
    forall|key: Seq<char>| #[trigger]
        walk.refs.contains_key(key) ==> well_formed_item(walk.refs[key])
}

/// The registers and the clusters of the contents are well formed.
pub open spec fn well_formed_contents(contents: Contents) -> bool {
    well_formed_registers(contents.registers) && well_formed_clusters(contents.clusters)
}

/// What holds of every value of a mapping and of a value inserted into it
/// holds of every value of the mapping after the insertion.
pub proof fn lemma_upserted_keeps<V: Keyed>(s: Seq<V>, x: V, holds: spec_fn(V) -> bool)
    requires
        forall|i: int| 0 <= i < s.len() ==> holds(#[trigger] s[i]),
        holds(x),
    ensures
        forall|i: int| 0 <= i < upserted(s, x).len() ==> holds(#[trigger] upserted(s, x)[i]),
{
    lemma_index_of(s, x.key());
    let r = upserted(s, x);
    assert forall|i: int| 0 <= i < r.len() implies holds(#[trigger] r[i]) by {
        match index_of(s, x.key()) {
            Some(k) => {
                if i < r.len() - 1 {
                    if i < k {
                        assert(r[i] == s[i]);
                    } else {
                        assert(r[i] == s[i + 1]);
                    }
                } else {
                    assert(r[i] == x);
                }
            },
            None => {
                if i < s.len() {
                    assert(r[i] == s[i]);
                } else {
                    assert(r[i] == x);
                }
            },
        }
    }
}

/// A field that has been built is well formed.
pub proof fn lemma_built_field_is_well_formed(f: SvdField, field: FieldView)
    requires
        built_field(f) == Ok::<Option<FieldView>, ParseErrorView>(Some(field)),
    ensures
        well_formed_field(field),
{
    lemma_mask_of_width(f.bit_width);
}

/// The overlay of fields on well-formed fields with distinct names gives
/// well-formed fields with distinct names.
pub proof fn lemma_fields_overlaid_are_well_formed(fields: Seq<SvdField>, start: Seq<FieldView>)
    requires
        unique_names(start),
        forall|i: int| 0 <= i < start.len() ==> well_formed_field(#[trigger] start[i]),
    ensures
        fields_overlaid(fields, start) matches Ok((built, _)) ==> unique_names(built) && forall|
            i: int,
        | 0 <= i < built.len() ==> well_formed_field(#[trigger] built[i]),
    decreases fields.len(),
{
    if fields.len() > 0 {
        lemma_fields_overlaid_are_well_formed(fields.drop_last(), start);
        match fields_overlaid(fields.drop_last(), start) {
            Ok((acc, _)) => match built_field(fields.last()) {
                Ok(Some(field)) => {
                    lemma_built_field_is_well_formed(fields.last(), field);
                    lemma_upserted(acc, field);
                    lemma_upserted_keeps(acc, field, |f: FieldView| well_formed_field(f));
                },
                _ => {},
            },
            Err(_) => {},
        }
    }
}

/// The overlay of a register on a register whose fields are well formed and
/// have distinct names does as much for the fields of the result.
pub proof fn lemma_overlaid_register_fields(
    mod_path: Seq<Seq<char>>,
    reg: SvdRegister,
    base: RegisterView,
)
    requires
        unique_names(base.fields),
        forall|i: int| 0 <= i < base.fields.len() ==> well_formed_field(#[trigger] base.fields[i]),
    ensures
        overlaid_register(mod_path, reg, base) matches Ok((built, _)) ==> unique_names(built.fields)
            && (forall|i: int|
            0 <= i < built.fields.len() ==> well_formed_field(#[trigger] built.fields[i]))
            && built.dim == crate::svd::dim_of(reg.array),
{
    lemma_fields_overlaid_are_well_formed(reg.fields@, base.fields);
}

/// A register built in a walk over well-formed nodes is well formed, and so
/// are the nodes of the walk after it.
pub proof fn lemma_visited_register_is_well_formed(
    svd_path: Seq<Seq<char>>,
    mod_path: Seq<Seq<char>>,
    walk: Walk,
    reg: SvdRegister,
)
    requires
        well_formed_walk(walk),
    ensures
        visited_register(svd_path, mod_path, walk, reg) matches Ok((register, after))
            ==> well_formed_register(register) && well_formed_walk(after),
{
    match visited_register(svd_path, mod_path, walk, reg) {
        Ok((register, after)) => {
            let found = crate::visitor::found_base(
                crate::error::NodeKind::Register,
                reg.name@,
                svd_path,
                walk.refs,
                reg.derived_from,
            )->Ok_0;
            let base = match found {
                Some(ItemView::Register(b)) => b,
                _ => RegisterView::empty(),
            };
            if found is Some {
                let key = absolute_key(svd_path, reg.derived_from->0@);
                assert(walk.refs.contains_key(key));
                assert(well_formed_item(walk.refs[key]));
            }
            lemma_overlaid_register_fields(
                mod_path.push(crate::ident::mod_ident(reg.name@)),
                reg,
                base,
            );
            assert(well_formed_register(register));
            assert forall|key: Seq<char>| #[trigger] after.refs.contains_key(key) implies well_formed_item(
                after.refs[key],
            ) by {
                if walk.refs.contains_key(key) {
                    assert(well_formed_item(walk.refs[key]));
                }
            }
        },
        Err(_) => {},
    }
}

/// The key that a reference stands for.
pub open spec fn absolute_key(svd_path: Seq<Seq<char>>, reference: Seq<char>) -> Seq<char> {
    crate::visitor::absolute_path(svd_path, reference)
}

/// The overlay of a cluster on a well-formed cluster, in a walk over
/// well-formed nodes, gives registers and clusters that are well formed,
/// and so are the nodes of the walk after it.
pub proof fn lemma_overlaid_cluster_is_well_formed(
    svd_path: Seq<Seq<char>>,
    mod_path: Seq<Seq<char>>,
    walk: Walk,
    c: SvdCluster,
    base: ClusterView,
)
    requires
        well_formed_walk(walk),
        well_formed_registers(base.registers),
        well_formed_clusters(base.clusters),
    ensures
        overlaid_cluster(svd_path, mod_path, walk, c, base) matches Ok((built, after))
            ==> well_formed_registers(built.registers) && well_formed_clusters(built.clusters)
            && built.dim == crate::svd::dim_of(c.array) && well_formed_walk(after),
    decreases c, 0nat,
{
    lemma_visited_children_are_well_formed(
        svd_path,
        mod_path,
        walk,
        c.children@,
        Contents { registers: base.registers, clusters: base.clusters },
    );
}

/// A cluster built in a walk over well-formed nodes is well formed, and so
/// are the nodes of the walk after it.
pub proof fn lemma_visited_cluster_is_well_formed(
    svd_path: Seq<Seq<char>>,
    mod_path: Seq<Seq<char>>,
    walk: Walk,
    c: SvdCluster,
)
    requires
        well_formed_walk(walk),
    ensures
        visited_cluster(svd_path, mod_path, walk, c) matches Ok((cluster, after))
            ==> well_formed_cluster(cluster) && well_formed_walk(after),
    decreases c, 1nat,
{
    match visited_cluster(svd_path, mod_path, walk, c) {
        Ok((cluster, after)) => {
            let found = crate::visitor::found_base(
                crate::error::NodeKind::Cluster,
                c.name@,
                svd_path,
                walk.refs,
                c.derived_from,
            )->Ok_0;
            let base = match found {
                Some(ItemView::Cluster(b)) => b,
                _ => ClusterView::empty(),
            };
            if found is Some {
                let key = absolute_key(svd_path, c.derived_from->0@);
                assert(walk.refs.contains_key(key));
                assert(well_formed_item(walk.refs[key]));
            }
            let expanded = crate::svd::expanded_name(
                crate::error::NodeKind::Cluster,
                c.name@,
                c.array,
            )->Ok_0;
            let node_svd = svd_path.push(expanded);
            let node_mod = mod_path.push(
                crate::ident::mod_ident(
                    crate::visitor::module_name(crate::ir::opt_text(c.header_struct_name), c.name@),
                ),
            );
            lemma_overlaid_cluster_is_well_formed(node_svd, node_mod, walk, c, base);
            let inner = overlaid_cluster(node_svd, node_mod, walk, c, base)->Ok_0.1;
            assert(well_formed_cluster(cluster));
            assert forall|key: Seq<char>| #[trigger] after.refs.contains_key(key) implies well_formed_item(
                after.refs[key],
            ) by {
                if inner.refs.contains_key(key) {
                    assert(well_formed_item(inner.refs[key]));
                }
            }
        },
        Err(_) => {},
    }
}

/// A child visited in a walk over well-formed nodes leaves well-formed
/// contents well formed, and so are the nodes of the walk after it.
pub proof fn lemma_visited_child_is_well_formed(
    svd_path: Seq<Seq<char>>,
    mod_path: Seq<Seq<char>>,
    walk: Walk,
    item: SvdRegisterCluster,
    contents: Contents,
)
    requires
        well_formed_walk(walk),
        well_formed_contents(contents),
    ensures
        visited_child(svd_path, mod_path, walk, item, contents) matches Ok((built, after))
            ==> well_formed_contents(built) && well_formed_walk(after),
    decreases item, 0nat,
{
    match item {
        SvdRegisterCluster::Register(reg) => {
            lemma_visited_register_is_well_formed(svd_path, mod_path, walk, reg);
            match visited_register(svd_path, mod_path, walk, reg) {
                Ok((register, _)) => {
                    lemma_upserted(contents.registers, register);
                    lemma_upserted_keeps(
                        contents.registers,
                        register,
                        |r: RegisterView| well_formed_register(r),
                    );
                },
                Err(_) => {},
            }
        },
        SvdRegisterCluster::Cluster(c) => {
            lemma_visited_cluster_is_well_formed(svd_path, mod_path, walk, c);
            match visited_cluster(svd_path, mod_path, walk, c) {
                Ok((cluster, _)) => {
                    lemma_upserted(contents.clusters, cluster);
                    lemma_upserted_keeps(
                        contents.clusters,
                        cluster,
                        |x: ClusterView| well_formed_cluster(x),
                    );
                },
                Err(_) => {},
            }
        },
    }
}

/// Children visited in a walk over well-formed nodes leave well-formed
/// contents well formed, and so are the nodes of the walk after them.
pub proof fn lemma_visited_children_are_well_formed(
    svd_path: Seq<Seq<char>>,
    mod_path: Seq<Seq<char>>,
    walk: Walk,
    items: Seq<SvdRegisterCluster>,
    start: Contents,
)
    requires
        well_formed_walk(walk),
        well_formed_contents(start),
    ensures
        visited_children(svd_path, mod_path, walk, items, start) matches Ok((built, after))
            ==> well_formed_contents(built) && well_formed_walk(after),
    decreases items, 0nat,
{
    if items.len() > 0 {
        lemma_visited_children_are_well_formed(svd_path, mod_path, walk, items.drop_last(), start);
        match visited_children(svd_path, mod_path, walk, items.drop_last(), start) {
            Ok((contents, after)) => {
                lemma_visited_child_is_well_formed(
                    svd_path,
                    mod_path,
                    after,
                    items.last(),
                    contents,
                );
            },
            Err(_) => {},
        }
    }
}

/// A peripheral built in a walk over well-formed nodes is well formed, and
/// so are the nodes of the walk after it.
pub proof fn lemma_visited_peripheral_is_well_formed(walk: Walk, p: SvdPeripheral)
    requires
        well_formed_walk(walk),
    ensures
        visited_peripheral(walk, p) matches Ok((peripheral, after)) ==> well_formed_peripheral(
            peripheral,
        ) && well_formed_walk(after),
{
    match visited_peripheral(walk, p) {
        Ok((peripheral, after)) => {
            let found = crate::visitor::found_base(
                crate::error::NodeKind::Peripheral,
                p.name@,
                Seq::empty(),
                walk.refs,
                p.derived_from,
            )->Ok_0;
            let base = match found {
                Some(ItemView::Peripheral(b)) => b,
                _ => PeripheralView::empty(),
            };
            if found is Some {
                let key = absolute_key(Seq::empty(), p.derived_from->0@);
                assert(walk.refs.contains_key(key));
                assert(well_formed_item(walk.refs[key]));
            }
            let expanded = crate::svd::expanded_name(
                crate::error::NodeKind::Peripheral,
                p.name@,
                p.array,
            )->Ok_0;
            let node_svd = seq![expanded];
            let node_mod = seq![
                crate::ident::mod_ident(
                    crate::visitor::module_name(crate::ir::opt_text(p.header_struct_name), p.name@),
                ),
            ];
            lemma_visited_children_are_well_formed(
                node_svd,
                node_mod,
                walk,
                children_of(p),
                Contents { registers: base.registers, clusters: base.clusters },
            );
            let inner = overlaid_peripheral(node_svd, node_mod, walk, p, base)->Ok_0.1;
            assert(well_formed_peripheral(peripheral));
            assert forall|key: Seq<char>| #[trigger] after.refs.contains_key(key) implies well_formed_item(
                after.refs[key],
            ) by {
                if inner.refs.contains_key(key) {
                    assert(well_formed_item(inner.refs[key]));
                }
            }
        },
        Err(_) => {},
    }
}

/// Peripherals visited in a walk over well-formed nodes leave well-formed
/// peripherals with distinct names so, and the nodes of the walk after them
/// are well formed.
pub proof fn lemma_visited_peripherals_are_well_formed(
    walk: Walk,
    ps: Seq<SvdPeripheral>,
    start: Seq<PeripheralView>,
)
    requires
        well_formed_walk(walk),
        unique_names(start),
        forall|i: int| 0 <= i < start.len() ==> well_formed_peripheral(#[trigger] start[i]),
    ensures
        visited_peripherals(walk, ps, start) matches Ok((built, after)) ==> unique_names(built) && (
        forall|i: int| 0 <= i < built.len() ==> well_formed_peripheral(#[trigger] built[i]))
            && well_formed_walk(after),
    decreases ps.len(),
{
    if ps.len() > 0 {
        lemma_visited_peripherals_are_well_formed(walk, ps.drop_last(), start);
        match visited_peripherals(walk, ps.drop_last(), start) {
            Ok((peripherals, after)) => {
                lemma_visited_peripheral_is_well_formed(after, ps.last());
                match visited_peripheral(after, ps.last()) {
                    Ok((peripheral, _)) => {
                        lemma_upserted(peripherals, peripheral);
                        lemma_upserted_keeps(
                            peripherals,
                            peripheral,
                            |p: PeripheralView| well_formed_peripheral(p),
                        );
                    },
                    Err(_) => {},
                }
            },
            Err(_) => {},
        }
    }
}

/// The model of a device is well formed: in every mapping the names are
/// distinct, the mask of every field is not 0 and fits its width class, and
/// every register, cluster and peripheral has at least one instance.
pub proof fn lemma_built_device_is_well_formed(d: SvdDevice)
    ensures
        visited_device(d) matches Ok((device, _)) ==> well_formed_device(device),
{
    lemma_visited_peripherals_are_well_formed(fresh_walk(), d.peripherals@, Seq::empty());
}

} // verus!
