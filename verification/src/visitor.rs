//! The walk over the description tree that builds the model: for each
//! peripheral, cluster and register the node it derives from is looked up
//! among the nodes built before, the declaration is overlaid on it, and the
//! result is published for the nodes that follow.
use crate::error::{
    located, located_error, msg_address_range, msg_missing_reference, msg_wrong_reference,
    Diagnostic, DiagnosticView, NodeKind, ParseError, ParseErrorView,
};
use crate::fields::{clone_or_empty, or_empty};
use crate::ident::{internal_ident, mod_ident, struct_ident, ToSanitizedSymbol};
use crate::ir::{
    lemma_cluster_view, opt_text, Cluster, ClusterView, Device, DeviceView, HasSameType, Interrupt,
    InterruptView, PeripheralMod, PeripheralView, Register, RegisterView,
};
use crate::ordered::{upsert, upserted, views};
use crate::register::{overlaid_register, overlay_register, parent_of, parent_path};
use crate::svd::{
    dim_increment_of, dim_of, expanded_name, get_dim_dim_increment, DimElement, ExpandedName,
    HeaderStructName, SvdCluster, SvdDevice, SvdInterrupt, SvdPeripheral, SvdRegister,
    SvdRegisterCluster,
};
use crate::text::{contains_char, join, joined, texts};
use vstd::hash_map::StringHashMap;
use vstd::prelude::*;
use vstd::string::StringExecFns;

verus! {

/// A node that has been built, as the nodes that derive from it find it.
#[derive(Debug)]
pub enum DeviceItem {
    Register(Register),
    Cluster(Cluster),
    Peripheral(PeripheralMod),
}

/// The view of a [`DeviceItem`].
pub enum ItemView {
    Register(RegisterView),
    Cluster(ClusterView),
    Peripheral(PeripheralView),
}

impl View for DeviceItem {
    type V = ItemView;

    open spec fn view(&self) -> ItemView {
        match self {
            DeviceItem::Register(r) => ItemView::Register(r@),
            DeviceItem::Cluster(c) => ItemView::Cluster(c@),
            DeviceItem::Peripheral(p) => ItemView::Peripheral(p@),
        }
    }
}

impl ItemView {
    /// The kind of the node.
    pub open spec fn kind(self) -> NodeKind {
        match self {
            ItemView::Register(_) => NodeKind::Register,
            ItemView::Cluster(_) => NodeKind::Cluster,
            ItemView::Peripheral(_) => NodeKind::Peripheral,
        }
    }
}

/// What a walk carries from node to node: the nodes built so far, by the
/// dotted path of their expanded names, and the diagnostics reported so far.
pub struct Walk {
    pub refs: Map<Seq<char>, ItemView>,
    pub diagnostics: Seq<DiagnosticView>,
}

/// The registers and clusters of a container, each by name in order of
/// declaration.
pub struct Contents {
    pub registers: Seq<RegisterView>,
    pub clusters: Seq<ClusterView>,
}

/// The separator of the segments of a path: `.`.
pub open spec fn dot() -> Seq<char> {
    seq!['.']
}

/// The key under which the node at `svd_path` is published.
pub open spec fn path_key(svd_path: Seq<Seq<char>>) -> Seq<char> {
    joined(svd_path, dot())
}

/// The key that a `derivedFrom` reference stands for when it is read inside
/// the container at `svd_path`: a reference with a separator is a path from
/// the device; any other names a child of the container.
pub open spec fn absolute_path(svd_path: Seq<Seq<char>>, reference: Seq<char>) -> Seq<char> {
    if reference.contains('.') {
        reference
    } else {
        path_key(svd_path.push(reference))
    }
}

/// The node that a node of kind `kind` called `name` derives from, if it
/// derives from one. A reference to a node that has not been built, or to a
/// node of another kind, is an error.
pub open spec fn found_base(
    kind: NodeKind,
    name: Seq<char>,
    svd_path: Seq<Seq<char>>,
    refs: Map<Seq<char>, ItemView>,
    derived_from: Option<String>,
) -> Result<Option<ItemView>, ParseErrorView> {
    match derived_from {
        None => Ok(None),
        Some(reference) => {
            let key = absolute_path(svd_path, reference@);
            if !refs.contains_key(key) {
                Err(located(kind, name, msg_missing_reference(reference@)))
            } else if refs[key].kind() != kind {
                Err(located(kind, name, msg_wrong_reference(reference@)))
            } else {
                Ok(Some(refs[key]))
            }
        },
    }
}

/// The name that the module of a node is made from: the name of its struct
/// where it gives one, else its own.
pub open spec fn module_name(header: Option<Seq<char>>, name: Seq<char>) -> Seq<char> {
    match header {
        Some(h) => h,
        None => name,
    }
}

/// `walk` after the node `item` at `svd_path` has been published.
pub open spec fn published(walk: Walk, svd_path: Seq<Seq<char>>, item: ItemView) -> Walk {
    Walk { refs: walk.refs.insert(path_key(svd_path), item), diagnostics: walk.diagnostics }
}

/// The register made of the declaration `reg`, a child of the container at
/// `svd_path` whose module is at `mod_path`, and the walk after it.
pub open spec fn visited_register(
    svd_path: Seq<Seq<char>>,
    mod_path: Seq<Seq<char>>,
    walk: Walk,
    reg: SvdRegister,
) -> Result<(RegisterView, Walk), ParseErrorView> {
    match found_base(NodeKind::Register, reg.name@, svd_path, walk.refs, reg.derived_from) {
        Err(e) => Err(e),
        Ok(found) => match expanded_name(NodeKind::Register, reg.name@, reg.array) {
            Err(e) => Err(e),
            Ok(expanded) => {
                let base = match found {
                    Some(ItemView::Register(b)) => b,
                    _ => RegisterView::empty(),
                };
                match overlaid_register(mod_path.push(mod_ident(reg.name@)), reg, base) {
                    Err(e) => Err(e),
                    Ok((built, reported)) => {
                        let register = RegisterView {
                            is_derived_from: found is Some && Register::same_type(built, base),
                            ..built
                        };
                        Ok(
                            (
                                register,
                                published(
                                    Walk {
                                        refs: walk.refs,
                                        diagnostics: walk.diagnostics + reported,
                                    },
                                    svd_path.push(expanded),
                                    ItemView::Register(register),
                                ),
                            ),
                        )
                    },
                }
            },
        },
    }
}

/// The last segment of a path of modules; empty where the path is.
pub open spec fn last_module(mod_path: Seq<Seq<char>>) -> Seq<char> {
    if mod_path.len() == 0 {
        Seq::empty()
    } else {
        mod_path.last()
    }
}

/// The cluster that the declaration `c` makes of the cluster `base`, which
/// is the cluster it derives from or an empty one, and the walk after it.
/// `svd_path` and `mod_path` are the paths of the cluster itself.
///
/// The declaration overrides the name, the description, the offset and the
/// repetition. A struct name given by the declaration names the struct;
/// else the identifier of the struct is kept where `base` has one. The
/// children are visited in order and inserted into those of `base`.
pub open spec fn overlaid_cluster(
    svd_path: Seq<Seq<char>>,
    mod_path: Seq<Seq<char>>,
    walk: Walk,
    c: SvdCluster,
    base: ClusterView,
) -> Result<(ClusterView, Walk), ParseErrorView>
    decreases c, 0nat,
{
    match visited_children(
        svd_path,
        mod_path,
        walk,
        c.children@,
        Contents { registers: base.registers, clusters: base.clusters },
    ) {
        Err(e) => Err(e),
        Ok((contents, after)) => Ok(
            (
                ClusterView {
                    name: internal_ident(c.name@),
                    description: or_empty(c.description),
                    offset: c.address_offset,
                    dim: dim_of(c.array),
                    dim_increment: dim_increment_of(c.array),
                    registers: contents.registers,
                    clusters: contents.clusters,
                    is_derived_from: base.is_derived_from,
                    struct_module_path: if c.header_struct_name is Some || base.struct_id.len()
                        == 0 {
                        parent_path(mod_path)
                    } else {
                        base.struct_module_path
                    },
                    struct_id: match c.header_struct_name {
                        Some(h) => struct_ident(h@),
                        None => if base.struct_id.len() == 0 {
                            struct_ident(internal_ident(c.name@))
                        } else {
                            base.struct_id
                        },
                    },
                    module_id: last_module(mod_path),
                },
                after,
            ),
        ),
    }
}

/// The cluster made of the declaration `c`, a child of the container at
/// `svd_path` whose module is at `mod_path`, and the walk after it.
pub open spec fn visited_cluster(
    svd_path: Seq<Seq<char>>,
    mod_path: Seq<Seq<char>>,
    walk: Walk,
    c: SvdCluster,
) -> Result<(ClusterView, Walk), ParseErrorView>
    decreases c, 1nat,
{
    match found_base(NodeKind::Cluster, c.name@, svd_path, walk.refs, c.derived_from) {
        Err(e) => Err(e),
        Ok(found) => match expanded_name(NodeKind::Cluster, c.name@, c.array) {
            Err(e) => Err(e),
            Ok(expanded) => {
                let base = match found {
                    Some(ItemView::Cluster(b)) => b,
                    _ => ClusterView::empty(),
                };
                match overlaid_cluster(
                    svd_path.push(expanded),
                    mod_path.push(mod_ident(module_name(opt_text(c.header_struct_name), c.name@))),
                    walk,
                    c,
                    base,
                ) {
                    Err(e) => Err(e),
                    Ok((built, after)) => {
                        let cluster = ClusterView {
                            is_derived_from: found is Some && Cluster::same_type(built, base),
                            ..built
                        };
                        Ok(
                            (
                                cluster,
                                published(after, svd_path.push(expanded), ItemView::Cluster(cluster)),
                            ),
                        )
                    },
                }
            },
        },
    }
}

/// The contents of a container after the child `item` has been visited and
/// inserted, and the walk after it.
pub open spec fn visited_child(
    svd_path: Seq<Seq<char>>,
    mod_path: Seq<Seq<char>>,
    walk: Walk,
    item: SvdRegisterCluster,
    contents: Contents,
) -> Result<(Contents, Walk), ParseErrorView>
    decreases item, 0nat,
{
    match item {
        SvdRegisterCluster::Register(reg) => match visited_register(svd_path, mod_path, walk, reg) {
            Err(e) => Err(e),
            Ok((register, after)) => Ok(
                (
                    Contents {
                        registers: upserted(contents.registers, register),
                        clusters: contents.clusters,
                    },
                    after,
                ),
            ),
        },
        SvdRegisterCluster::Cluster(c) => match visited_cluster(svd_path, mod_path, walk, c) {
            Err(e) => Err(e),
            Ok((cluster, after)) => Ok(
                (
                    Contents {
                        registers: contents.registers,
                        clusters: upserted(contents.clusters, cluster),
                    },
                    after,
                ),
            ),
        },
    }
}

/// The contents of a container after its children `items` have been
/// visited in order, starting from the contents `start`, and the walk after
/// them; the first error where a child is in error.
pub open spec fn visited_children(
    svd_path: Seq<Seq<char>>,
    mod_path: Seq<Seq<char>>,
    walk: Walk,
    items: Seq<SvdRegisterCluster>,
    start: Contents,
) -> Result<(Contents, Walk), ParseErrorView>
    decreases items, 0nat,
{
    if items.len() == 0 {
        Ok((start, walk))
    } else {
        match visited_children(svd_path, mod_path, walk, items.drop_last(), start) {
            Err(e) => Err(e),
            Ok((contents, after)) => visited_child(svd_path, mod_path, after, items.last(), contents),
        }
    }
}

/// An error among the first `n` children is the error of the whole list.
pub proof fn lemma_visited_children_error(
    svd_path: Seq<Seq<char>>,
    mod_path: Seq<Seq<char>>,
    walk: Walk,
    items: Seq<SvdRegisterCluster>,
    start: Contents,
    n: int,
)
    requires
        0 <= n <= items.len(),
        visited_children(svd_path, mod_path, walk, items.take(n), start) is Err,
    ensures
        visited_children(svd_path, mod_path, walk, items, start) == visited_children(
            svd_path,
            mod_path,
            walk,
            items.take(n),
            start,
        ),
    decreases items.len() - n,
{
    if n < items.len() {
        assert(items.take(n + 1).drop_last() =~= items.take(n));
        lemma_visited_children_error(svd_path, mod_path, walk, items, start, n + 1);
    } else {
        assert(items.take(n) =~= items);
    }
}

/// The base address of each instance of a peripheral at `base`: the base
/// plus the index times the increment. Nothing where an address does not
/// fit in 64 bits.
pub open spec fn instance_addresses(base: u64, array: Option<DimElement>) -> Option<Seq<u64>> {
    let dim = dim_of(array) as int;
    let increment = dim_increment_of(array) as int;
    if dim > 0 && base + (dim - 1) * increment > u64::MAX {
        None
    } else {
        Some(Seq::new(dim as nat, |k: int| (base + k * increment) as u64))
    }
}

/// The interrupt made of its declaration.
pub open spec fn interrupt_of(i: SvdInterrupt) -> InterruptView {
    InterruptView { name: i.name@, value: i.value, description: or_empty(i.description) }
}

/// The interrupts made of their declarations, in order.
pub open spec fn interrupts_of(s: Seq<SvdInterrupt>) -> Seq<InterruptView> {
    s.map_values(|i: SvdInterrupt| interrupt_of(i))
}

/// The children of a peripheral: none where it has no group of registers.
pub open spec fn children_of(p: SvdPeripheral) -> Seq<SvdRegisterCluster> {
    match p.registers {
        Some(v) => v@,
        None => Seq::empty(),
    }
}

/// The peripheral that the declaration `p` makes of the peripheral `base`,
/// which is the peripheral it derives from or an empty one, and the walk
/// after it. `svd_path` and `mod_path` are the paths of the peripheral
/// itself.
///
/// The declaration overrides the name, the description, the base addresses
/// and the interrupts. A struct name given by the declaration names the
/// struct and the module; else their identifiers are kept where `base` has
/// them. The children are visited in order and inserted into those of
/// `base`.
pub open spec fn overlaid_peripheral(
    svd_path: Seq<Seq<char>>,
    mod_path: Seq<Seq<char>>,
    walk: Walk,
    p: SvdPeripheral,
    base: PeripheralView,
) -> Result<(PeripheralView, Walk), ParseErrorView> {
    match instance_addresses(p.base_address, p.array) {
        None => Err(located(NodeKind::Peripheral, p.name@, msg_address_range())),
        Some(base_addr) => match visited_children(
            svd_path,
            mod_path,
            walk,
            children_of(p),
            Contents { registers: base.registers, clusters: base.clusters },
        ) {
            Err(e) => Err(e),
            Ok((contents, after)) => Ok(
                (
                    PeripheralView {
                        name: internal_ident(p.name@),
                        description: or_empty(p.description),
                        clusters: contents.clusters,
                        registers: contents.registers,
                        base_addr,
                        interrupts: interrupts_of(p.interrupt@),
                        derived_from: base.derived_from,
                        struct_id: match p.header_struct_name {
                            Some(h) => struct_ident(h@),
                            None => if base.struct_id.len() == 0 {
                                struct_ident(p.name@)
                            } else {
                                base.struct_id
                            },
                        },
                        module_id: match p.header_struct_name {
                            Some(h) => mod_ident(h@),
                            None => if base.module_id.len() == 0 {
                                mod_ident(p.name@)
                            } else {
                                base.module_id
                            },
                        },
                    },
                    after,
                ),
            ),
        },
    }
}

/// The peripheral made of the declaration `p`, and the walk after it.
pub open spec fn visited_peripheral(walk: Walk, p: SvdPeripheral) -> Result<
    (PeripheralView, Walk),
    ParseErrorView,
> {
    match found_base(NodeKind::Peripheral, p.name@, Seq::empty(), walk.refs, p.derived_from) {
        Err(e) => Err(e),
        Ok(found) => match expanded_name(NodeKind::Peripheral, p.name@, p.array) {
            Err(e) => Err(e),
            Ok(expanded) => {
                let base = match found {
                    Some(ItemView::Peripheral(b)) => b,
                    _ => PeripheralView::empty(),
                };
                match overlaid_peripheral(
                    seq![expanded],
                    seq![mod_ident(module_name(opt_text(p.header_struct_name), p.name@))],
                    walk,
                    p,
                    base,
                ) {
                    Err(e) => Err(e),
                    Ok((built, after)) => {
                        let peripheral = PeripheralView {
                            derived_from: if found is Some && PeripheralMod::same_type(
                                built,
                                base,
                            ) {
                                Some(base.name)
                            } else {
                                None
                            },
                            ..built
                        };
                        Ok(
                            (
                                peripheral,
                                published(after, seq![expanded], ItemView::Peripheral(peripheral)),
                            ),
                        )
                    },
                }
            },
        },
    }
}

/// The peripherals of a device after the declarations `ps` have been
/// visited in order, starting from the peripherals `start`, and the walk
/// after them; the first error where a peripheral is in error.
pub open spec fn visited_peripherals(
    walk: Walk,
    ps: Seq<SvdPeripheral>,
    start: Seq<PeripheralView>,
) -> Result<(Seq<PeripheralView>, Walk), ParseErrorView>
    decreases ps.len(),
{
    if ps.len() == 0 {
        Ok((start, walk))
    } else {
        match visited_peripherals(walk, ps.drop_last(), start) {
            Err(e) => Err(e),
            Ok((peripherals, after)) => match visited_peripheral(after, ps.last()) {
                Err(e) => Err(e),
                Ok((peripheral, last)) => Ok((upserted(peripherals, peripheral), last)),
            },
        }
    }
}

/// An error among the first `n` peripherals is the error of the whole list.
pub proof fn lemma_visited_peripherals_error(
    walk: Walk,
    ps: Seq<SvdPeripheral>,
    start: Seq<PeripheralView>,
    n: int,
)
    requires
        0 <= n <= ps.len(),
        visited_peripherals(walk, ps.take(n), start) is Err,
    ensures
        visited_peripherals(walk, ps, start) == visited_peripherals(walk, ps.take(n), start),
    decreases ps.len() - n,
{
    if n < ps.len() {
        assert(ps.take(n + 1).drop_last() =~= ps.take(n));
        lemma_visited_peripherals_error(walk, ps, start, n + 1);
    } else {
        assert(ps.take(n) =~= ps);
    }
}

/// The walk that has visited nothing.
pub open spec fn fresh_walk() -> Walk {
    Walk { refs: Map::empty(), diagnostics: Seq::empty() }
}

/// The model of the device `d`, with the diagnostics of the walk.
pub open spec fn visited_device(d: SvdDevice) -> Result<
    (DeviceView, Seq<DiagnosticView>),
    ParseErrorView,
> {
    match visited_peripherals(fresh_walk(), d.peripherals@, Seq::empty()) {
        Err(e) => Err(e),
        Ok((peripherals, walk)) => Ok(
            (
                DeviceView {
                    name: d.name@,
                    description: d.description@,
                    peripheral_mod: peripherals,
                },
                walk.diagnostics,
            ),
        ),
    }
}

/// The views of the nodes of a map.
pub open spec fn item_views(m: Map<Seq<char>, DeviceItem>) -> Map<Seq<char>, ItemView> {
    m.map_values(|d: DeviceItem| d@)
}

/// The state of a walk over a description tree.
pub struct Visitor {
    /// The device built so far.
    pub device: Device,
    /// The nodes built so far, by the dotted path of their expanded names.
    pub svd_ref_to_ir_item: StringHashMap<DeviceItem>,
    /// The expanded names of the nodes from the device down to the node
    /// being visited.
    pub current_item_svd_path: Vec<String>,
    /// The modules from the device down to the module of the node being
    /// visited.
    pub current_mod_ir_path: Vec<String>,
    /// The diagnostics reported so far.
    pub diagnostics: Vec<Diagnostic>,
}

impl Visitor {
    /// What the walk carries from node to node.
    pub open spec fn walk(&self) -> Walk {
        Walk {
            refs: item_views(self.svd_ref_to_ir_item@),
            diagnostics: views(self.diagnostics@),
        }
    }

    /// The expanded names of the nodes down to the node being visited.
    pub open spec fn svd_path(&self) -> Seq<Seq<char>> {
        texts(self.current_item_svd_path@)
    }

    /// The modules down to the module of the node being visited.
    pub open spec fn mod_path(&self) -> Seq<Seq<char>> {
        texts(self.current_mod_ir_path@)
    }

    /// Whether `self` stands at the same node as `other`, with the same
    /// device.
    pub open spec fn stands_as(&self, other: &Visitor) -> bool {
        &&& self.svd_path() == other.svd_path()
        &&& self.mod_path() == other.mod_path()
        &&& self.device@ == other.device@
    }

    /// A visitor that has visited nothing.
    pub fn new() -> (v: Visitor)
        ensures
            v.walk() == fresh_walk(),
            v.svd_path() == Seq::<Seq<char>>::empty(),
            v.mod_path() == Seq::<Seq<char>>::empty(),
            v.device@ == (DeviceView {
                name: Seq::empty(),
                description: Seq::empty(),
                peripheral_mod: Seq::empty(),
            }),
    {
        let v = Visitor {
            device: Device::default(),
            svd_ref_to_ir_item: StringHashMap::new(),
            current_item_svd_path: Vec::new(),
            current_mod_ir_path: Vec::new(),
            diagnostics: Vec::new(),
        };
        proof {
            assert(v.walk().refs =~= Map::empty());
            assert(v.walk().diagnostics =~= Seq::empty());
            assert(v.svd_path() =~= Seq::empty());
            assert(v.mod_path() =~= Seq::empty());
        }
        v
    }

    /// The key that the reference `local_svd_name` stands for at the node
    /// being visited.
    pub fn get_absolute_svd_path(&self, local_svd_name: &str) -> (r: String)
        ensures
            r@ == absolute_path(self.svd_path(), local_svd_name@),
    {
        if contains_char(local_svd_name, '.') {
            String::from_str(local_svd_name)
        } else {
            let mut parts = crate::text::clone_strings(&self.current_item_svd_path);
            let ghost before = parts@;
            parts.push(String::from_str(local_svd_name));
            proof {
                reveal_strlit(".");
                assert("."@ =~= dot());
                assert(texts(parts@) =~= texts(before).push(local_svd_name@));
            }
            join(&parts, ".")
        }
    }

    /// The node that a node of kind `kind` called `name` derives from, if
    /// it derives from one.
    fn find_base(&self, kind: NodeKind, name: &String, derived_from: &Option<String>) -> (r: Result<
        Option<&DeviceItem>,
        ParseError,
    >)
        ensures
            match r {
                Ok(Some(item)) => found_base(
                    kind,
                    name@,
                    self.svd_path(),
                    self.walk().refs,
                    *derived_from,
                ) == Ok::<Option<ItemView>, ParseErrorView>(Some(item@)) && item@.kind() == kind,
                Ok(None) => found_base(kind, name@, self.svd_path(), self.walk().refs, *derived_from)
                    == Ok::<Option<ItemView>, ParseErrorView>(None),
                Err(e) => found_base(kind, name@, self.svd_path(), self.walk().refs, *derived_from)
                    == Err::<Option<ItemView>, ParseErrorView>(e@),
            },
    {
        match derived_from {
            None => Ok(None),
            Some(reference) => {
                let key = self.get_absolute_svd_path(reference.as_str());
                match self.svd_ref_to_ir_item.get(key.as_str()) {
                    None => Err(
                        located_error(
                            kind,
                            name.as_str(),
                            String::from_str("Missing reference ").concat(reference.as_str()),
                        ),
                    ),
                    Some(item) => {
                        let same_kind = match item {
                            DeviceItem::Register(_) => kind == NodeKind::Register,
                            DeviceItem::Cluster(_) => kind == NodeKind::Cluster,
                            DeviceItem::Peripheral(_) => kind == NodeKind::Peripheral,
                        };
                        if same_kind {
                            Ok(Some(item))
                        } else {
                            Err(
                                located_error(
                                    kind,
                                    name.as_str(),
                                    String::from_str(
                                        "Reference to a node of another kind: ",
                                    ).concat(reference.as_str()),
                                ),
                            )
                        }
                    },
                }
            },
        }
    }

    /// Steps down to the node `svd_item`: its expanded name and its module
    /// are added to the paths.
    fn push_current_item_svd_path<T: ExpandedName + HeaderStructName>(
        &mut self,
        svd_item: &T,
    ) -> (r: Result<(), ParseError>)
        ensures
            match r {
                Ok(()) => expanded_name(
                    svd_item.node_kind(),
                    svd_item.node_name(),
                    svd_item.node_array(),
                ) matches Ok(expanded) && final(self).svd_path() == old(self).svd_path().push(
                    expanded,
                ) && final(self).mod_path() == old(self).mod_path().push(
                    mod_ident(module_name(svd_item.header(), svd_item.node_name())),
                ) && final(self).walk() == old(self).walk() && final(self).device@ == old(
                    self,
                ).device@,
                Err(e) => expanded_name(
                    svd_item.node_kind(),
                    svd_item.node_name(),
                    svd_item.node_array(),
                ) == Err::<Seq<char>, ParseErrorView>(e@),
            },
    {
        let expanded = match svd_item.get_expanded_name() {
            Err(e) => {
                return Err(e);
            },
            Ok(expanded) => expanded,
        };
        let ghost svd_before = self.current_item_svd_path@;
        let ghost mod_before = self.current_mod_ir_path@;
        self.current_item_svd_path.push(expanded);
        let module = match svd_item.header_struct_name() {
            None => svd_item.name().as_str().to_sanitized_mod_ident(),
            Some(header_struct_name) => header_struct_name.as_str().to_sanitized_mod_ident(),
        };
        self.current_mod_ir_path.push(module);
        proof {
            assert(texts(self.current_item_svd_path@) =~= texts(svd_before).push(expanded@));
            assert(texts(self.current_mod_ir_path@) =~= texts(mod_before).push(module@));
        }
        Ok(())
    }

    /// Steps up from the node being visited, which has been built as
    /// `ir_item`: the node is published under the dotted path of its
    /// expanded names.
    fn pop_current_item_svd_path(&mut self, ir_item: DeviceItem)
        requires
            old(self).current_item_svd_path@.len() > 0,
            old(self).current_mod_ir_path@.len() > 0,
        ensures
            final(self).walk() == published(old(self).walk(), old(self).svd_path(), ir_item@),
            final(self).svd_path() == old(self).svd_path().drop_last(),
            final(self).mod_path() == old(self).mod_path().drop_last(),
            final(self).device@ == old(self).device@,
    {
        proof {
            reveal_strlit(".");
            assert("."@ =~= dot());
        }
        let ghost svd_before = self.current_item_svd_path@;
        let ghost mod_before = self.current_mod_ir_path@;
        let ghost refs_before = self.svd_ref_to_ir_item@;
        let key = join(&self.current_item_svd_path, ".");
        self.svd_ref_to_ir_item.insert(key, ir_item);
        let _ = self.current_item_svd_path.pop();
        let _ = self.current_mod_ir_path.pop();
        proof {
            assert(item_views(self.svd_ref_to_ir_item@) =~= item_views(refs_before).insert(
                key@,
                ir_item@,
            ));
            assert(texts(self.current_item_svd_path@) =~= texts(svd_before).drop_last());
            assert(texts(self.current_mod_ir_path@) =~= texts(mod_before).drop_last());
        }
    }

    /// Overlays the declaration `reg` on `register`, which holds the
    /// register it derives from or an empty one. The module of the register
    /// is the last of the modules of the visitor.
    pub fn visit_register(&mut self, reg: &SvdRegister, register: &mut Register) -> (r: Result<
        (),
        ParseError,
    >)
        ensures
            match r {
                Ok(()) => overlaid_register(old(self).mod_path(), *reg, old(register)@) matches Ok(
                    (built, reported),
                ) && final(register)@ == built && final(self).walk() == (Walk {
                    refs: old(self).walk().refs,
                    diagnostics: old(self).walk().diagnostics + reported,
                }) && final(self).stands_as(old(self)),
                Err(e) => overlaid_register(old(self).mod_path(), *reg, old(register)@) == Err::<
                    (RegisterView, Seq<DiagnosticView>),
                    ParseErrorView,
                >(e@),
            },
    {
        overlay_register(&self.current_mod_ir_path, reg, register, &mut self.diagnostics)
    }
}

/// The base address of each instance of a peripheral at `base`, or nothing
/// where an address does not fit in 64 bits.
pub fn instance_base_addresses(base: u64, array: &Option<DimElement>) -> (r: Option<Vec<u64>>)
    ensures
        match r {
            Some(v) => instance_addresses(base, *array) == Some(v@),
            None => instance_addresses(base, *array) is None,
        },
{
    let (dim, increment) = get_dim_dim_increment(array);
    let mut out: Vec<u64> = Vec::new();
    let mut index: u32 = 0;
    while index < dim
        invariant
            index <= dim,
            dim == dim_of(*array),
            increment == dim_increment_of(*array),
            out@.len() == index,
            forall|k: int| 0 <= k < index ==> (#[trigger] out@[k]) == base + k * increment,
        decreases dim - index,
    {
        assert(index * increment <= 0xFFFF_FFFF * 0xFFFF_FFFF) by (nonlinear_arith)
            requires
                index <= 0xFFFF_FFFF,
                increment <= 0xFFFF_FFFF,
        ;
        let offset: u64 = (index as u64) * (increment as u64);
        match base.checked_add(offset) {
            None => {
                proof {
                    assert(index * increment <= (dim - 1) * increment) by (nonlinear_arith)
                        requires
                            index <= dim - 1,
                            increment >= 0,
                    ;
                }
                return None;
            },
            Some(address) => {
                out.push(address);
            },
        }
        index += 1;
    }
    proof {
        if dim > 0 {
            assert(out@[dim - 1] == base + (dim - 1) * increment);
        }
        assert(out@ =~= Seq::new(dim as nat, |k: int| (base + k * increment) as u64));
    }
    Some(out)
}

/// The interrupts made of their declarations, in order.
pub fn build_interrupts(declared: &Vec<SvdInterrupt>) -> (r: Vec<Interrupt>)
    ensures
        views(r@) == interrupts_of(declared@),
{
    let mut out: Vec<Interrupt> = Vec::new();
    let mut i: usize = 0;
    while i < declared.len()
        invariant
            i <= declared.len(),
            out@.len() == i,
            forall|k: int| 0 <= k < i ==> (#[trigger] out@[k])@ == interrupt_of(declared@[k]),
        decreases declared.len() - i,
    {
        out.push(
            Interrupt {
                name: declared[i].name.clone(),
                value: declared[i].value,
                description: clone_or_empty(&declared[i].description),
            },
        );
        i += 1;
    }
    proof {
        assert(views(out@) =~= interrupts_of(declared@));
    }
    out
}

impl Visitor {
    /// Visits the register `reg`, a child of the node being visited, and
    /// inserts what it builds into `registers`.
    pub fn visit_register_node(&mut self, reg: &SvdRegister, registers: &mut Vec<Register>) -> (r:
        Result<(), ParseError>)
        ensures
            match r {
                Ok(()) => visited_register(
                    old(self).svd_path(),
                    old(self).mod_path(),
                    old(self).walk(),
                    *reg,
                ) matches Ok((register, after)) && views(final(registers)@) == upserted(
                    views(old(registers)@),
                    register,
                ) && final(self).walk() == after && final(self).stands_as(old(self)),
                Err(e) => visited_register(
                    old(self).svd_path(),
                    old(self).mod_path(),
                    old(self).walk(),
                    *reg,
                ) == Err::<(RegisterView, Walk), ParseErrorView>(e@),
            },
    {
        let derived_register: Option<Register> = match self.find_base(
            NodeKind::Register,
            &reg.name,
            &reg.derived_from,
        ) {
            Err(e) => {
                return Err(e);
            },
            Ok(Some(DeviceItem::Register(found))) => Some(found.clone()),
            Ok(_) => None,
        };
        match self.push_current_item_svd_path(reg) {
            Err(e) => {
                return Err(e);
            },
            Ok(()) => {},
        }
        let mut register = match &derived_register {
            Some(found) => found.clone(),
            None => Register::default(),
        };
        match self.visit_register(reg, &mut register) {
            Err(e) => {
                return Err(e);
            },
            Ok(()) => {},
        }
        register.is_derived_from = match &derived_register {
            Some(found) => register.has_same_type(found),
            None => false,
        };
        let copy = register.clone();
        upsert(registers, register);
        proof {
            assert(self.mod_path().len() == self.current_mod_ir_path@.len());
            assert(self.svd_path().len() == self.current_item_svd_path@.len());
        }
        self.pop_current_item_svd_path(DeviceItem::Register(copy));
        proof {
            let path = old(self).svd_path();
            assert(self.svd_path() =~= path);
            assert(self.mod_path() =~= old(self).mod_path());
        }
        Ok(())
    }

    /// Overlays the declaration `cluster_svd` on `cluster`, which holds the
    /// cluster it derives from or an empty one, and visits its children. The
    /// visitor stands at the cluster.
    pub fn visit_cluster(&mut self, cluster_svd: &SvdCluster, cluster: &mut Cluster) -> (r: Result<
        (),
        ParseError,
    >)
        ensures
            match r {
                Ok(()) => overlaid_cluster(
                    old(self).svd_path(),
                    old(self).mod_path(),
                    old(self).walk(),
                    *cluster_svd,
                    old(cluster)@,
                ) matches Ok((built, after)) && final(cluster)@ == built && final(self).walk()
                    == after && final(self).stands_as(old(self)),
                Err(e) => overlaid_cluster(
                    old(self).svd_path(),
                    old(self).mod_path(),
                    old(self).walk(),
                    *cluster_svd,
                    old(cluster)@,
                ) == Err::<(ClusterView, Walk), ParseErrorView>(e@),
            },
        decreases cluster_svd, 0nat,
    {
        broadcast use lemma_cluster_view;

        let ghost base = cluster@;
        cluster.name = cluster_svd.name.as_str().to_internal_ident();
        cluster.description = clone_or_empty(&cluster_svd.description);
        cluster.offset = cluster_svd.address_offset;
        let (dim, dim_increment) = get_dim_dim_increment(&cluster_svd.array);
        cluster.dim = dim;
        cluster.dim_increment = dim_increment;
        match &cluster_svd.header_struct_name {
            Some(header_struct_name) => {
                cluster.struct_module_path = parent_of(&self.current_mod_ir_path);
                cluster.struct_id = header_struct_name.as_str().to_sanitized_struct_ident();
            },
            None => {
                if cluster.struct_id.as_str().is_empty() {
                    cluster.struct_module_path = parent_of(&self.current_mod_ir_path);
                    cluster.struct_id = cluster.name.as_str().to_sanitized_struct_ident();
                }
            },
        }
        cluster.module_id = if self.current_mod_ir_path.len() == 0 {
            String::new()
        } else {
            self.current_mod_ir_path[self.current_mod_ir_path.len() - 1].clone()
        };
        proof {
            assert(cluster@.registers == base.registers);
            assert(cluster@.clusters == base.clusters);
        }
        match self.visit_children(
            &cluster_svd.children,
            &mut cluster.registers,
            &mut cluster.clusters,
        ) {
            Err(e) => Err(e),
            Ok(()) => Ok(()),
        }
    }

    /// Visits the cluster `cluster_svd`, a child of the node being visited,
    /// and inserts what it builds into `clusters`.
    pub fn visit_cluster_node(&mut self, cluster_svd: &SvdCluster, clusters: &mut Vec<Cluster>) -> (r:
        Result<(), ParseError>)
        ensures
            match r {
                Ok(()) => visited_cluster(
                    old(self).svd_path(),
                    old(self).mod_path(),
                    old(self).walk(),
                    *cluster_svd,
                ) matches Ok((cluster, after)) && views(final(clusters)@) == upserted(
                    views(old(clusters)@),
                    cluster,
                ) && final(self).walk() == after && final(self).stands_as(old(self)),
                Err(e) => visited_cluster(
                    old(self).svd_path(),
                    old(self).mod_path(),
                    old(self).walk(),
                    *cluster_svd,
                ) == Err::<(ClusterView, Walk), ParseErrorView>(e@),
            },
        decreases cluster_svd, 1nat,
    {
        let derived_cluster: Option<Cluster> = match self.find_base(
            NodeKind::Cluster,
            &cluster_svd.name,
            &cluster_svd.derived_from,
        ) {
            Err(e) => {
                return Err(e);
            },
            Ok(Some(DeviceItem::Cluster(found))) => Some(found.clone()),
            Ok(_) => None,
        };
        match self.push_current_item_svd_path(cluster_svd) {
            Err(e) => {
                return Err(e);
            },
            Ok(()) => {},
        }
        let mut cluster = match &derived_cluster {
            Some(found) => found.clone(),
            None => Cluster::default(),
        };
        match self.visit_cluster(cluster_svd, &mut cluster) {
            Err(e) => {
                return Err(e);
            },
            Ok(()) => {},
        }
        cluster.is_derived_from = match &derived_cluster {
            Some(found) => cluster.has_same_type(found),
            None => false,
        };
        let copy = cluster.clone();
        upsert(clusters, cluster);
        proof {
            assert(self.mod_path().len() == self.current_mod_ir_path@.len());
            assert(self.svd_path().len() == self.current_item_svd_path@.len());
        }
        self.pop_current_item_svd_path(DeviceItem::Cluster(copy));
        proof {
            assert(self.svd_path() =~= old(self).svd_path());
            assert(self.mod_path() =~= old(self).mod_path());
        }
        Ok(())
    }

    /// Visits one child of the node being visited and inserts what it
    /// builds into `registers` or `clusters`.
    pub fn visit_cluster_register(
        &mut self,
        register_cluster: &SvdRegisterCluster,
        registers: &mut Vec<Register>,
        clusters: &mut Vec<Cluster>,
    ) -> (r: Result<(), ParseError>)
        ensures
            match r {
                Ok(()) => visited_child(
                    old(self).svd_path(),
                    old(self).mod_path(),
                    old(self).walk(),
                    *register_cluster,
                    Contents { registers: views(old(registers)@), clusters: views(old(clusters)@) },
                ) matches Ok((contents, after)) && views(final(registers)@) == contents.registers
                    && views(final(clusters)@) == contents.clusters && final(self).walk() == after
                    && final(self).stands_as(old(self)),
                Err(e) => visited_child(
                    old(self).svd_path(),
                    old(self).mod_path(),
                    old(self).walk(),
                    *register_cluster,
                    Contents { registers: views(old(registers)@), clusters: views(old(clusters)@) },
                ) == Err::<(Contents, Walk), ParseErrorView>(e@),
            },
        decreases register_cluster, 0nat,
    {
        match register_cluster {
            SvdRegisterCluster::Register(reg_svd) => self.visit_register_node(reg_svd, registers),
            SvdRegisterCluster::Cluster(cluster_svd) => self.visit_cluster_node(
                cluster_svd,
                clusters,
            ),
        }
    }

    /// Visits the children `items` of the node being visited, in order, and
    /// inserts what they build into `registers` and `clusters`.
    pub fn visit_children(
        &mut self,
        items: &Vec<SvdRegisterCluster>,
        registers: &mut Vec<Register>,
        clusters: &mut Vec<Cluster>,
    ) -> (r: Result<(), ParseError>)
        ensures
            match r {
                Ok(()) => visited_children(
                    old(self).svd_path(),
                    old(self).mod_path(),
                    old(self).walk(),
                    items@,
                    Contents { registers: views(old(registers)@), clusters: views(old(clusters)@) },
                ) matches Ok((contents, after)) && views(final(registers)@) == contents.registers
                    && views(final(clusters)@) == contents.clusters && final(self).walk() == after
                    && final(self).stands_as(old(self)),
                Err(e) => visited_children(
                    old(self).svd_path(),
                    old(self).mod_path(),
                    old(self).walk(),
                    items@,
                    Contents { registers: views(old(registers)@), clusters: views(old(clusters)@) },
                ) == Err::<(Contents, Walk), ParseErrorView>(e@),
            },
        decreases items, 0nat,
    {
        let ghost svd_path = self.svd_path();
        let ghost mod_path = self.mod_path();
        let ghost walk = self.walk();
        let ghost start = Contents { registers: views(registers@), clusters: views(clusters@) };
        let mut i: usize = 0;
        proof {
            assert(items@.take(0).len() == 0);
        }
        while i < items.len()
            invariant
                i <= items.len(),
                svd_path == old(self).svd_path(),
                mod_path == old(self).mod_path(),
                walk == old(self).walk(),
                start == (Contents {
                    registers: views(old(registers)@),
                    clusters: views(old(clusters)@),
                }),
                self.stands_as(old(self)),
                visited_children(svd_path, mod_path, walk, items@.take(i as int), start) == Ok::<
                    (Contents, Walk),
                    ParseErrorView,
                >(
                    (
                        Contents { registers: views(registers@), clusters: views(clusters@) },
                        self.walk(),
                    ),
                ),
            decreases items.len() - i,
        {
            proof {
                let s = items@;
                assert(s.take(i + 1).drop_last() =~= s.take(i as int));
                assert(s.take(i + 1).last() == s[i as int]);
            }
            match self.visit_cluster_register(&items[i], registers, clusters) {
                Err(e) => {
                    proof {
                        assert(visited_children(
                            svd_path,
                            mod_path,
                            walk,
                            items@.take(i + 1),
                            start,
                        ) == Err::<(Contents, Walk), ParseErrorView>(e@));
                        lemma_visited_children_error(svd_path, mod_path, walk, items@, start, i + 1);
                    }
                    return Err(e);
                },
                Ok(()) => {},
            }
            i += 1;
        }
        proof {
            assert(items@.take(items@.len() as int) =~= items@);
        }
        Ok(())
    }
}

impl Visitor {
    /// Overlays the declaration `svd_peripheral` on `peripheral`, which
    /// holds the peripheral it derives from or an empty one, and visits its
    /// children. The visitor stands at the peripheral.
    pub fn visit_peripheral(
        &mut self,
        svd_peripheral: &SvdPeripheral,
        peripheral: &mut PeripheralMod,
    ) -> (r: Result<(), ParseError>)
        ensures
            match r {
                Ok(()) => overlaid_peripheral(
                    old(self).svd_path(),
                    old(self).mod_path(),
                    old(self).walk(),
                    *svd_peripheral,
                    old(peripheral)@,
                ) matches Ok((built, after)) && final(peripheral)@ == built && final(self).walk()
                    == after && final(self).stands_as(old(self)),
                Err(e) => overlaid_peripheral(
                    old(self).svd_path(),
                    old(self).mod_path(),
                    old(self).walk(),
                    *svd_peripheral,
                    old(peripheral)@,
                ) == Err::<(PeripheralView, Walk), ParseErrorView>(e@),
            },
    {
        peripheral.name = svd_peripheral.name.as_str().to_internal_ident();
        peripheral.description = clone_or_empty(&svd_peripheral.description);
        match &svd_peripheral.header_struct_name {
            Some(header_struct) => {
                peripheral.struct_id = header_struct.as_str().to_sanitized_struct_ident();
                peripheral.module_id = header_struct.as_str().to_sanitized_mod_ident();
            },
            None => {
                if peripheral.struct_id.as_str().is_empty() {
                    peripheral.struct_id = svd_peripheral.name.as_str().to_sanitized_struct_ident();
                }
                if peripheral.module_id.as_str().is_empty() {
                    peripheral.module_id = svd_peripheral.name.as_str().to_sanitized_mod_ident();
                }
            },
        }
        match instance_base_addresses(svd_peripheral.base_address, &svd_peripheral.array) {
            None => {
                return Err(
                    located_error(
                        NodeKind::Peripheral,
                        svd_peripheral.name.as_str(),
                        String::from_str("An address does not fit in 64 bits"),
                    ),
                );
            },
            Some(base_addr) => {
                peripheral.base_addr = base_addr;
            },
        }
        peripheral.interrupts = build_interrupts(&svd_peripheral.interrupt);
        match &svd_peripheral.registers {
            Some(children) => self.visit_children(
                children,
                &mut peripheral.registers,
                &mut peripheral.clusters,
            ),
            None => Ok(()),
        }
    }

    /// Visits the peripheral `svd_peripheral` and inserts what it builds
    /// into the device.
    pub fn visit_peripheral_node(&mut self, svd_peripheral: &SvdPeripheral) -> (r: Result<
        (),
        ParseError,
    >)
        requires
            old(self).svd_path().len() == 0,
            old(self).mod_path().len() == 0,
        ensures
            match r {
                Ok(()) => visited_peripheral(old(self).walk(), *svd_peripheral) matches Ok(
                    (peripheral, after),
                ) && final(self).device@ == (DeviceView {
                    peripheral_mod: upserted(old(self).device@.peripheral_mod, peripheral),
                    ..old(self).device@
                }) && final(self).walk() == after && final(self).svd_path() == old(
                    self,
                ).svd_path() && final(self).mod_path() == old(self).mod_path(),
                Err(e) => visited_peripheral(old(self).walk(), *svd_peripheral) == Err::<
                    (PeripheralView, Walk),
                    ParseErrorView,
                >(e@),
            },
    {
        proof {
            assert(self.svd_path() =~= Seq::empty());
            assert(self.mod_path() =~= Seq::empty());
        }
        let derived_peripheral: Option<PeripheralMod> = match self.find_base(
            NodeKind::Peripheral,
            &svd_peripheral.name,
            &svd_peripheral.derived_from,
        ) {
            Err(e) => {
                return Err(e);
            },
            Ok(Some(DeviceItem::Peripheral(found))) => Some(found.clone()),
            Ok(_) => None,
        };
        match self.push_current_item_svd_path(svd_peripheral) {
            Err(e) => {
                return Err(e);
            },
            Ok(()) => {},
        }
        proof {
            let expanded = expanded_name(
                NodeKind::Peripheral,
                svd_peripheral.name@,
                svd_peripheral.array,
            )->Ok_0;
            assert(self.svd_path() =~= seq![expanded]);
            assert(self.mod_path() =~= seq![
                mod_ident(
                    module_name(opt_text(svd_peripheral.header_struct_name), svd_peripheral.name@),
                ),
            ]);
        }
        let mut peripheral = match &derived_peripheral {
            Some(found) => found.clone(),
            None => PeripheralMod::default(),
        };
        match self.visit_peripheral(svd_peripheral, &mut peripheral) {
            Err(e) => {
                return Err(e);
            },
            Ok(()) => {},
        }
        peripheral.derived_from = match &derived_peripheral {
            Some(found) => {
                if peripheral.has_same_type(found) {
                    Some(found.name.clone())
                } else {
                    None
                }
            },
            None => None,
        };
        let copy = peripheral.clone();
        upsert(&mut self.device.peripheral_mod, peripheral);
        proof {
            assert(self.mod_path().len() == self.current_mod_ir_path@.len());
            assert(self.svd_path().len() == self.current_item_svd_path@.len());
        }
        self.pop_current_item_svd_path(DeviceItem::Peripheral(copy));
        proof {
            assert(self.svd_path() =~= old(self).svd_path());
            assert(self.mod_path() =~= old(self).mod_path());
        }
        Ok(())
    }

    /// Builds the model of `device` into the device of the visitor: its
    /// peripherals are visited in order.
    pub fn visit_device(&mut self, device: &SvdDevice) -> (r: Result<(), ParseError>)
        requires
            old(self).svd_path().len() == 0,
            old(self).mod_path().len() == 0,
        ensures
            match r {
                Ok(()) => visited_peripherals(
                    old(self).walk(),
                    device.peripherals@,
                    old(self).device@.peripheral_mod,
                ) matches Ok((peripherals, after)) && final(self).device@ == (DeviceView {
                    name: device.name@,
                    description: device.description@,
                    peripheral_mod: peripherals,
                }) && final(self).walk() == after && final(self).svd_path() == old(
                    self,
                ).svd_path() && final(self).mod_path() == old(self).mod_path(),
                Err(e) => visited_peripherals(
                    old(self).walk(),
                    device.peripherals@,
                    old(self).device@.peripheral_mod,
                ) == Err::<(Seq<PeripheralView>, Walk), ParseErrorView>(e@),
            },
    {
        self.device.name = device.name.clone();
        self.device.description = device.description.clone();
        let ghost walk = self.walk();
        let ghost start = self.device@.peripheral_mod;
        let mut i: usize = 0;
        proof {
            assert(device.peripherals@.take(0).len() == 0);
        }
        while i < device.peripherals.len()
            invariant
                i <= device.peripherals.len(),
                walk == old(self).walk(),
                start == old(self).device@.peripheral_mod,
                self.svd_path() == old(self).svd_path(),
                self.mod_path() == old(self).mod_path(),
                self.svd_path().len() == 0,
                self.mod_path().len() == 0,
                self.device.name@ == device.name@,
                self.device.description@ == device.description@,
                visited_peripherals(walk, device.peripherals@.take(i as int), start) == Ok::<
                    (Seq<PeripheralView>, Walk),
                    ParseErrorView,
                >((self.device@.peripheral_mod, self.walk())),
            decreases device.peripherals.len() - i,
        {
            proof {
                let s = device.peripherals@;
                assert(s.take(i + 1).drop_last() =~= s.take(i as int));
                assert(s.take(i + 1).last() == s[i as int]);
            }
            match self.visit_peripheral_node(&device.peripherals[i]) {
                Err(e) => {
                    proof {
                        assert(visited_peripherals(walk, device.peripherals@.take(i + 1), start)
                            == Err::<(Seq<PeripheralView>, Walk), ParseErrorView>(e@));
                        lemma_visited_peripherals_error(walk, device.peripherals@, start, i + 1);
                    }
                    return Err(e);
                },
                Ok(()) => {},
            }
            i += 1;
        }
        proof {
            assert(device.peripherals@.take(device.peripherals@.len() as int)
                =~= device.peripherals@);
        }
        Ok(())
    }
}

} // verus!
