//! The address flattening database: the map from each absolute address to
//! the symbolic paths of the registers that lie there. The tree is walked
//! depth first, arrays are expanded, and every instance of a register is
//! recorded under its address, in the order of the walk.
use crate::error::{
    located, located_error, msg_address_range, NodeKind, ParseError, ParseErrorView,
};
use crate::ident::{const_ident, func_ident, internal_ident, ToSanitizedSymbol};
use crate::ir::{PathChunk, PathChunkView};
use crate::ordered::views;
use crate::register::{get_name_id_internal, register_name};
use crate::svd::{
    dim_increment_of, dim_of, get_dim_dim_increment, DimElement, SvdCluster, SvdDevice,
    SvdPeripheral, SvdRegister, SvdRegisterCluster,
};
use crate::visitor::children_of;
use linked_hash_map::LinkedHashMap;
use vstd::prelude::*;
use vstd::string::StringExecFns;

verus! {

#[verifier::external_type_specification]
#[verifier::external_body]
#[verifier::reject_recursive_types(K)]
#[verifier::reject_recursive_types(V)]
#[verifier::reject_recursive_types(S)]
pub struct ExLinkedHashMap<K, V, S>(LinkedHashMap<K, V, S>);

/// The entries of a `linked_hash_map::LinkedHashMap` from addresses to
/// lists of paths, in the order in which the map is walked: each address
/// with the paths held under it.
pub uninterp spec fn address_entries(m: LinkedHashMap<u64, Vec<Vec<PathChunk>>>) -> Seq<
    (u64, Seq<Seq<PathChunkView>>),
>;

/// The views of a list of paths.
pub open spec fn path_views(paths: Vec<Vec<PathChunk>>) -> Seq<Seq<PathChunkView>> {
    paths@.map_values(|p: Vec<PathChunk>| views(p@))
}

/// The position in `entries` of the address `address`.
pub open spec fn slot_of(entries: Seq<(u64, Seq<Seq<PathChunkView>>)>, address: u64) -> Option<
    int,
>
    decreases entries.len(),
{
    if entries.len() == 0 {
        None
    } else {
        match slot_of(entries.drop_last(), address) {
            Some(i) => Some(i),
            None => if entries.last().0 == address {
                Some(entries.len() - 1)
            } else {
                None
            },
        }
    }
}

/// What `slot_of` finds is a position of that address.
pub proof fn lemma_slot_of(entries: Seq<(u64, Seq<Seq<PathChunkView>>)>, address: u64)
    ensures
        match slot_of(entries, address) {
            Some(i) => 0 <= i < entries.len() && entries[i].0 == address,
            None => forall|j: int| 0 <= j < entries.len() ==> (#[trigger] entries[j]).0 != address,
        },
    decreases entries.len(),
{
    if entries.len() > 0 {
        lemma_slot_of(entries.drop_last(), address);
        match slot_of(entries.drop_last(), address) {
            Some(i) => {
                assert(entries.drop_last()[i] == entries[i]);
            },
            None => {
                assert forall|j: int| 0 <= j < entries.len() - 1 implies (
                #[trigger] entries[j]).0 != address by {
                    assert(entries.drop_last()[j] == entries[j]);
                }
            },
        }
    }
}

/// `entries` after `path` has been recorded under `address`: it joins the
/// paths of that address, or the address is added at the end with `path` as
/// its only path.
pub open spec fn recorded(
    entries: Seq<(u64, Seq<Seq<PathChunkView>>)>,
    address: u64,
    path: Seq<PathChunkView>,
) -> Seq<(u64, Seq<Seq<PathChunkView>>)> {
    match slot_of(entries, address) {
        Some(i) => entries.update(i, (address, entries[i].1.push(path))),
        None => entries.push((address, seq![path])),
    }
}

/// `LinkedHashMap::new`: a map without entries.
#[verifier::external_body]
fn address_map_new() -> (m: LinkedHashMap<u64, Vec<Vec<PathChunk>>>)
    ensures
        address_entries(m) == Seq::<(u64, Seq<Seq<PathChunkView>>)>::empty(),
{
    LinkedHashMap::new()
}

/// `LinkedHashMap::contains_key`: whether the map has an entry for the
/// address.
#[verifier::external_body]
fn address_map_contains(m: &LinkedHashMap<u64, Vec<Vec<PathChunk>>>, address: u64) -> (r: bool)
    ensures
        r == (slot_of(address_entries(*m), address) is Some),
{
    m.contains_key(&address)
}

/// `LinkedHashMap`'s `IndexMut::index_mut`, for an address that the map
/// has an entry for: a reference to the paths of that entry. What is written
/// through the reference becomes the paths of the entry; no other entry
/// changes, and the order stays.
#[verifier::external_body]
fn address_map_slot(m: &mut LinkedHashMap<u64, Vec<Vec<PathChunk>>>, address: u64) -> (slot: &mut Vec<
    Vec<PathChunk>,
>)
    requires
        slot_of(address_entries(*old(m)), address) is Some,
    ensures
        path_views(*slot) == address_entries(*old(m))[slot_of(
            address_entries(*old(m)),
            address,
        )->0].1,
        address_entries(*final(m)) == address_entries(*old(m)).update(
            slot_of(address_entries(*old(m)), address)->0,
            (address, path_views(*final(slot))),
        ),
{
    &mut m[&address]
}

/// `LinkedHashMap::insert`: the entry stands at the end of the map; an
/// earlier entry for the same address leaves its place.
#[verifier::external_body]
fn address_map_insert(
    m: &mut LinkedHashMap<u64, Vec<Vec<PathChunk>>>,
    address: u64,
    paths: Vec<Vec<PathChunk>>,
)
    ensures
        address_entries(*final(m)) == match slot_of(address_entries(*old(m)), address) {
            Some(i) => address_entries(*old(m)).remove(i).push((address, path_views(paths))),
            None => address_entries(*old(m)).push((address, path_views(paths))),
        },
{
    m.insert(address, paths);
}

/// Records `path` under `address`: it joins the paths of that address, or
/// the address is added at the end with `path` as its only path.
pub fn record(m: &mut LinkedHashMap<u64, Vec<Vec<PathChunk>>>, address: u64, path: Vec<PathChunk>)
    ensures
        address_entries(*final(m)) == recorded(address_entries(*old(m)), address, views(path@)),
{
    if address_map_contains(m, address) {
        let slot = address_map_slot(m, address);
        let ghost before = path_views(*slot);
        slot.push(path);
        proof {
            assert(path_views(*slot) =~= before.push(views(path@)));
        }
    } else {
        let mut paths: Vec<Vec<PathChunk>> = Vec::new();
        paths.push(path);
        proof {
            assert(path_views(paths) =~= seq![views(path@)]);
        }
        address_map_insert(m, address, paths);
    }
}

/// The segment of a path that names instance `k` of a node called `name`:
/// with the index where the node is an array, without where it is not.
pub open spec fn chunk(name: Seq<char>, array: Option<DimElement>, k: int) -> PathChunkView {
    PathChunkView {
        path: name,
        index: if array is Some {
            Some(k as u32)
        } else {
            None
        },
    }
}

/// The address of instance `k` of a node at `offset` from a container at
/// `base`: the base plus the offset plus the index times the increment.
pub open spec fn instance_address(base: u64, offset: int, array: Option<DimElement>, k: int) -> int {
    base + offset + k * dim_increment_of(array)
}

/// `entries` after the first `k` instances of the register `r`, which lies
/// in a container at `base` reached by the path `prefix`, have been
/// recorded. Nothing where an address does not fit in 64 bits.
pub open spec fn register_recorded(
    prefix: Seq<PathChunkView>,
    base: u64,
    r: SvdRegister,
    k: nat,
    entries: Seq<(u64, Seq<Seq<PathChunkView>>)>,
) -> Option<Seq<(u64, Seq<Seq<PathChunkView>>)>>
    decreases k,
{
    if k == 0 {
        Some(entries)
    } else {
        match register_recorded(prefix, base, r, (k - 1) as nat, entries) {
            None => None,
            Some(acc) => {
                let address = instance_address(base, r.address_offset as int, r.array, k - 1);
                if address > u64::MAX {
                    None
                } else {
                    Some(
                        recorded(
                            acc,
                            address as u64,
                            prefix.push(chunk(func_ident(register_name(r)), r.array, k - 1)),
                        ),
                    )
                }
            },
        }
    }
}

/// `entries` after the registers under the first `k` instances of the
/// cluster `c`, which lies in a container at `base` reached by the path
/// `prefix`, have been recorded. Nothing where an address does not fit in
/// 64 bits.
pub open spec fn cluster_recorded(
    prefix: Seq<PathChunkView>,
    base: u64,
    c: SvdCluster,
    k: nat,
    entries: Seq<(u64, Seq<Seq<PathChunkView>>)>,
) -> Option<Seq<(u64, Seq<Seq<PathChunkView>>)>>
    decreases c, k,
{
    if k == 0 {
        Some(entries)
    } else {
        match cluster_recorded(prefix, base, c, (k - 1) as nat, entries) {
            None => None,
            Some(acc) => {
                let address = instance_address(base, c.address_offset as int, c.array, k - 1);
                if address > u64::MAX {
                    None
                } else {
                    children_recorded(
                        prefix.push(chunk(func_ident(internal_ident(c.name@)), c.array, k - 1)),
                        address as u64,
                        c.children@,
                        acc,
                    )
                }
            },
        }
    }
}

/// `entries` after the registers under the child `item` of a container at
/// `base` reached by the path `prefix` have been recorded.
pub open spec fn child_recorded(
    prefix: Seq<PathChunkView>,
    base: u64,
    item: SvdRegisterCluster,
    entries: Seq<(u64, Seq<Seq<PathChunkView>>)>,
) -> Option<Seq<(u64, Seq<Seq<PathChunkView>>)>>
    decreases item, 0nat,
{
    match item {
        SvdRegisterCluster::Register(r) => register_recorded(
            prefix,
            base,
            r,
            dim_of(r.array) as nat,
            entries,
        ),
        SvdRegisterCluster::Cluster(c) => cluster_recorded(
            prefix,
            base,
            c,
            dim_of(c.array) as nat,
            entries,
        ),
    }
}

/// `entries` after the registers under the children `items` of a container
/// at `base` reached by the path `prefix` have been recorded, child by child
/// in order.
pub open spec fn children_recorded(
    prefix: Seq<PathChunkView>,
    base: u64,
    items: Seq<SvdRegisterCluster>,
    entries: Seq<(u64, Seq<Seq<PathChunkView>>)>,
) -> Option<Seq<(u64, Seq<Seq<PathChunkView>>)>>
    decreases items, 0nat,
{
    if items.len() == 0 {
        Some(entries)
    } else {
        match children_recorded(prefix, base, items.drop_last(), entries) {
            None => None,
            Some(acc) => child_recorded(prefix, base, items.last(), acc),
        }
    }
}

/// `entries` after the registers under the first `k` instances of the
/// peripheral `p` have been recorded.
pub open spec fn peripheral_recorded(
    p: SvdPeripheral,
    k: nat,
    entries: Seq<(u64, Seq<Seq<PathChunkView>>)>,
) -> Option<Seq<(u64, Seq<Seq<PathChunkView>>)>>
    decreases k,
{
    if k == 0 {
        Some(entries)
    } else {
        match peripheral_recorded(p, (k - 1) as nat, entries) {
            None => None,
            Some(acc) => {
                let address = instance_address(p.base_address, 0, p.array, k - 1);
                if address > u64::MAX {
                    None
                } else {
                    children_recorded(
                        seq![chunk(const_ident(internal_ident(p.name@)), p.array, k - 1)],
                        address as u64,
                        children_of(p),
                        acc,
                    )
                }
            },
        }
    }
}

/// `entries` after the registers of the peripherals `ps` have been
/// recorded, peripheral by peripheral in order. A peripheral under which an
/// address does not fit in 64 bits is an error.
pub open spec fn peripherals_recorded(
    ps: Seq<SvdPeripheral>,
    entries: Seq<(u64, Seq<Seq<PathChunkView>>)>,
) -> Result<Seq<(u64, Seq<Seq<PathChunkView>>)>, ParseErrorView>
    decreases ps.len(),
{
    if ps.len() == 0 {
        Ok(entries)
    } else {
        match peripherals_recorded(ps.drop_last(), entries) {
            Err(e) => Err(e),
            Ok(acc) => match peripheral_recorded(ps.last(), dim_of(ps.last().array) as nat, acc) {
                Some(all) => Ok(all),
                None => Err(located(NodeKind::Peripheral, ps.last().name@, msg_address_range())),
            },
        }
    }
}

/// The address flattening database of a device: each address at which a
/// register lies, in the order in which the walk first reaches it, with the
/// paths of the registers that lie there, in the order of the walk.
pub open spec fn register_addresses_of(d: SvdDevice) -> Result<
    Seq<(u64, Seq<Seq<PathChunkView>>)>,
    ParseErrorView,
> {
    peripherals_recorded(d.peripherals@, Seq::empty())
}

/// What cannot be recorded for the first `k` instances of a register
/// cannot be recorded for more.
pub proof fn lemma_register_recorded_none(
    prefix: Seq<PathChunkView>,
    base: u64,
    r: SvdRegister,
    k: nat,
    n: nat,
    entries: Seq<(u64, Seq<Seq<PathChunkView>>)>,
)
    requires
        k <= n,
        register_recorded(prefix, base, r, k, entries) is None,
    ensures
        register_recorded(prefix, base, r, n, entries) is None,
    decreases n - k,
{
    if k < n {
        lemma_register_recorded_none(prefix, base, r, k + 1, n, entries);
    }
}

/// What cannot be recorded for the first `k` instances of a cluster cannot
/// be recorded for more.
pub proof fn lemma_cluster_recorded_none(
    prefix: Seq<PathChunkView>,
    base: u64,
    c: SvdCluster,
    k: nat,
    n: nat,
    entries: Seq<(u64, Seq<Seq<PathChunkView>>)>,
)
    requires
        k <= n,
        cluster_recorded(prefix, base, c, k, entries) is None,
    ensures
        cluster_recorded(prefix, base, c, n, entries) is None,
    decreases n - k,
{
    if k < n {
        lemma_cluster_recorded_none(prefix, base, c, k + 1, n, entries);
    }
}

/// What cannot be recorded for the first `k` instances of a peripheral
/// cannot be recorded for more.
pub proof fn lemma_peripheral_recorded_none(
    p: SvdPeripheral,
    k: nat,
    n: nat,
    entries: Seq<(u64, Seq<Seq<PathChunkView>>)>,
)
    requires
        k <= n,
        peripheral_recorded(p, k, entries) is None,
    ensures
        peripheral_recorded(p, n, entries) is None,
    decreases n - k,
{
    if k < n {
        lemma_peripheral_recorded_none(p, k + 1, n, entries);
    }
}

/// What cannot be recorded for the first `n` children cannot be recorded
/// for all of them.
pub proof fn lemma_children_recorded_none(
    prefix: Seq<PathChunkView>,
    base: u64,
    items: Seq<SvdRegisterCluster>,
    n: int,
    entries: Seq<(u64, Seq<Seq<PathChunkView>>)>,
)
    requires
        0 <= n <= items.len(),
        children_recorded(prefix, base, items.take(n), entries) is None,
    ensures
        children_recorded(prefix, base, items, entries) is None,
    decreases items.len() - n,
{
    if n < items.len() {
        assert(items.take(n + 1).drop_last() =~= items.take(n));
        lemma_children_recorded_none(prefix, base, items, n + 1, entries);
    } else {
        assert(items.take(n) =~= items);
    }
}

/// An error among the first `n` peripherals is the error of the whole list.
pub proof fn lemma_peripherals_recorded_error(
    ps: Seq<SvdPeripheral>,
    n: int,
    entries: Seq<(u64, Seq<Seq<PathChunkView>>)>,
)
    requires
        0 <= n <= ps.len(),
        peripherals_recorded(ps.take(n), entries) is Err,
    ensures
        peripherals_recorded(ps, entries) == peripherals_recorded(ps.take(n), entries),
    decreases ps.len() - n,
{
    if n < ps.len() {
        assert(ps.take(n + 1).drop_last() =~= ps.take(n));
        lemma_peripherals_recorded_error(ps, n + 1, entries);
    } else {
        assert(ps.take(n) =~= ps);
    }
}

/// The address of instance `index` of a node at `offset` from a container
/// at `base`, or nothing where it does not fit in 64 bits.
pub fn address_of_instance(base: u64, offset: u32, array: &Option<DimElement>, index: u32) -> (r:
    Option<u64>)
    ensures
        match r {
            Some(address) => address == instance_address(base, offset as int, *array, index as int),
            None => instance_address(base, offset as int, *array, index as int) > u64::MAX,
        },
{
    let (_, increment) = get_dim_dim_increment(array);
    assert(index * increment <= 0xFFFF_FFFF * 0xFFFF_FFFF) by (nonlinear_arith)
        requires
            index <= 0xFFFF_FFFF,
            increment <= 0xFFFF_FFFF,
    ;
    let step: u64 = (index as u64) * (increment as u64);
    match base.checked_add(offset as u64) {
        None => None,
        Some(start) => start.checked_add(step),
    }
}

/// The path `prefix` followed by the segment that names instance `index` of
/// a node called `name`.
fn extended(prefix: &Vec<PathChunk>, name: String, array: &Option<DimElement>, index: u32) -> (r:
    Vec<PathChunk>)
    ensures
        views(r@) == views(prefix@).push(chunk(name@, *array, index as int)),
{
    let mut key = prefix.clone();
    proof {
        assert(views(key@) =~= views(prefix@));
    }
    let ghost before = key@;
    let chunk = PathChunk {
        path: name,
        index: match array {
            Some(_) => Some(index),
            None => None,
        },
    };
    key.push(chunk);
    proof {
        assert(views(key@) =~= views(before).push(chunk@));
    }
    key
}

/// Records every instance of the register `register`, which lies in a
/// container at `base_addr` reached by the path `prefix`. Returns whether
/// every address fits in 64 bits.
pub fn collect_register_array(
    m: &mut LinkedHashMap<u64, Vec<Vec<PathChunk>>>,
    prefix: &Vec<PathChunk>,
    register: &SvdRegister,
    base_addr: u64,
) -> (r: bool)
    ensures
        match register_recorded(
            views(prefix@),
            base_addr,
            *register,
            dim_of(register.array) as nat,
            address_entries(*old(m)),
        ) {
            Some(entries) => r && address_entries(*final(m)) == entries,
            None => !r,
        },
{
    let (dim, _) = get_dim_dim_increment(&register.array);
    let ghost start = address_entries(*m);
    let mut index: u32 = 0;
    while index < dim
        invariant
            index <= dim,
            dim == dim_of(register.array),
            start == address_entries(*old(m)),
            register_recorded(views(prefix@), base_addr, *register, index as nat, start) == Some(
                address_entries(*m),
            ),
        decreases dim - index,
    {
        match address_of_instance(base_addr, register.address_offset, &register.array, index) {
            None => {
                proof {
                    lemma_register_recorded_none(
                        views(prefix@),
                        base_addr,
                        *register,
                        (index + 1) as nat,
                        dim as nat,
                        start,
                    );
                }
                return false;
            },
            Some(address) => {
                let name = get_name_id_internal(register).as_str().to_sanitized_func_ident();
                let key = extended(prefix, name, &register.array, index);
                record(m, address, key);
            },
        }
        index += 1;
    }
    true
}

/// Records the registers under every instance of the cluster `cluster`,
/// which lies in a container at `base_addr` reached by the path `prefix`.
/// Returns whether every address fits in 64 bits.
pub fn collect_cluster_array(
    m: &mut LinkedHashMap<u64, Vec<Vec<PathChunk>>>,
    prefix: &Vec<PathChunk>,
    cluster: &SvdCluster,
    base_addr: u64,
) -> (r: bool)
    ensures
        match cluster_recorded(
            views(prefix@),
            base_addr,
            *cluster,
            dim_of(cluster.array) as nat,
            address_entries(*old(m)),
        ) {
            Some(entries) => r && address_entries(*final(m)) == entries,
            None => !r,
        },
    decreases cluster, 1nat,
{
    let (dim, _) = get_dim_dim_increment(&cluster.array);
    let ghost start = address_entries(*m);
    let mut index: u32 = 0;
    while index < dim
        invariant
            index <= dim,
            dim == dim_of(cluster.array),
            start == address_entries(*old(m)),
            cluster_recorded(views(prefix@), base_addr, *cluster, index as nat, start) == Some(
                address_entries(*m),
            ),
        decreases dim - index,
    {
        let fits = match address_of_instance(
            base_addr,
            cluster.address_offset,
            &cluster.array,
            index,
        ) {
            None => false,
            Some(address) => {
                let name = cluster.name.as_str().to_internal_ident().as_str().to_sanitized_func_ident();
                let key = extended(prefix, name, &cluster.array, index);
                collect_children(m, &key, &cluster.children, address)
            },
        };
        if !fits {
            proof {
                lemma_cluster_recorded_none(
                    views(prefix@),
                    base_addr,
                    *cluster,
                    (index + 1) as nat,
                    dim as nat,
                    start,
                );
            }
            return false;
        }
        index += 1;
    }
    true
}

/// Records the registers under one child of a container at `base_addr`
/// reached by the path `prefix`. Returns whether every address fits in 64
/// bits.
pub fn collect_register_cluster_arrays(
    m: &mut LinkedHashMap<u64, Vec<Vec<PathChunk>>>,
    prefix: &Vec<PathChunk>,
    rg: &SvdRegisterCluster,
    base_addr: u64,
) -> (r: bool)
    ensures
        match child_recorded(views(prefix@), base_addr, *rg, address_entries(*old(m))) {
            Some(entries) => r && address_entries(*final(m)) == entries,
            None => !r,
        },
    decreases rg, 0nat,
{
    match rg {
        SvdRegisterCluster::Register(register) => collect_register_array(
            m,
            prefix,
            register,
            base_addr,
        ),
        SvdRegisterCluster::Cluster(cluster) => collect_cluster_array(m, prefix, cluster, base_addr),
    }
}

/// Records the registers under the children `items` of a container at
/// `base_addr` reached by the path `prefix`, child by child in order.
/// Returns whether every address fits in 64 bits.
pub fn collect_children(
    m: &mut LinkedHashMap<u64, Vec<Vec<PathChunk>>>,
    prefix: &Vec<PathChunk>,
    items: &Vec<SvdRegisterCluster>,
    base_addr: u64,
) -> (r: bool)
    ensures
        match children_recorded(views(prefix@), base_addr, items@, address_entries(*old(m))) {
            Some(entries) => r && address_entries(*final(m)) == entries,
            None => !r,
        },
    decreases items, 0nat,
{
    let ghost start = address_entries(*m);
    let mut i: usize = 0;
    proof {
        assert(items@.take(0).len() == 0);
    }
    while i < items.len()
        invariant
            i <= items.len(),
            start == address_entries(*old(m)),
            children_recorded(views(prefix@), base_addr, items@.take(i as int), start) == Some(
                address_entries(*m),
            ),
        decreases items.len() - i,
    {
        proof {
            let s = items@;
            assert(s.take(i + 1).drop_last() =~= s.take(i as int));
            assert(s.take(i + 1).last() == s[i as int]);
        }
        if !collect_register_cluster_arrays(m, prefix, &items[i], base_addr) {
            proof {
                lemma_children_recorded_none(views(prefix@), base_addr, items@, i + 1, start);
            }
            return false;
        }
        i += 1;
    }
    proof {
        assert(items@.take(items@.len() as int) =~= items@);
    }
    true
}

/// Records the registers under every instance of the peripheral `p`.
/// Returns whether every address fits in 64 bits.
pub fn collect_peripheral(m: &mut LinkedHashMap<u64, Vec<Vec<PathChunk>>>, p: &SvdPeripheral) -> (r:
    bool)
    ensures
        match peripheral_recorded(*p, dim_of(p.array) as nat, address_entries(*old(m))) {
            Some(entries) => r && address_entries(*final(m)) == entries,
            None => !r,
        },
{
    let (dim, _) = get_dim_dim_increment(&p.array);
    let ghost start = address_entries(*m);
    let mut index: u32 = 0;
    while index < dim
        invariant
            index <= dim,
            dim == dim_of(p.array),
            start == address_entries(*old(m)),
            peripheral_recorded(*p, index as nat, start) == Some(address_entries(*m)),
        decreases dim - index,
    {
        let fits = match address_of_instance(p.base_address, 0, &p.array, index) {
            None => false,
            Some(address) => {
                let name = p.name.as_str().to_internal_ident().as_str().to_sanitized_const_ident();
                let empty: Vec<PathChunk> = Vec::new();
                let prefix = extended(&empty, name, &p.array, index);
                proof {
                    assert(views(prefix@) =~= seq![chunk(name@, p.array, index as int)]);
                }
                match &p.registers {
                    Some(children) => collect_children(m, &prefix, children, address),
                    None => true,
                }
            },
        };
        if !fits {
            proof {
                lemma_peripheral_recorded_none(*p, (index + 1) as nat, dim as nat, start);
            }
            return false;
        }
        index += 1;
    }
    true
}

/// The address flattening database of a device.
#[derive(Debug, PartialEq)]
pub struct EntityDb {
    /// Each address at which a register lies, with the paths of the
    /// registers that lie there.
    pub register_addresses: LinkedHashMap<u64, Vec<Vec<PathChunk>>>,
}

/// Builds the address flattening database of `device`: every instance of
/// every register is recorded under its absolute address, in the order of a
/// depth-first walk. An address that does not fit in 64 bits is an error,
/// located at the peripheral under which it was found.
pub fn get_entity_db(device: &SvdDevice) -> (r: Result<EntityDb, ParseError>)
    ensures
        match r {
            Ok(db) => register_addresses_of(*device) == Ok::<
                Seq<(u64, Seq<Seq<PathChunkView>>)>,
                ParseErrorView,
            >(address_entries(db.register_addresses)) && distinct_addresses(
                address_entries(db.register_addresses),
            ),
            Err(e) => register_addresses_of(*device) == Err::<
                Seq<(u64, Seq<Seq<PathChunkView>>)>,
                ParseErrorView,
            >(e@),
        },
{
    proof {
        lemma_register_addresses_are_distinct(*device);
    }
    let mut register_addresses = address_map_new();
    let ghost start = address_entries(register_addresses);
    let mut i: usize = 0;
    proof {
        assert(device.peripherals@.take(0).len() == 0);
    }
    while i < device.peripherals.len()
        invariant
            i <= device.peripherals.len(),
            start == Seq::<(u64, Seq<Seq<PathChunkView>>)>::empty(),
            peripherals_recorded(device.peripherals@.take(i as int), start) == Ok::<
                Seq<(u64, Seq<Seq<PathChunkView>>)>,
                ParseErrorView,
            >(address_entries(register_addresses)),
        decreases device.peripherals.len() - i,
    {
        proof {
            let s = device.peripherals@;
            assert(s.take(i + 1).drop_last() =~= s.take(i as int));
            assert(s.take(i + 1).last() == s[i as int]);
        }
        if !collect_peripheral(&mut register_addresses, &device.peripherals[i]) {
            let e = located_error(
                NodeKind::Peripheral,
                device.peripherals[i].name.as_str(),
                String::from_str("An address does not fit in 64 bits"),
            );
            proof {
                assert(peripherals_recorded(device.peripherals@.take(i + 1), start) == Err::<
                    Seq<(u64, Seq<Seq<PathChunkView>>)>,
                    ParseErrorView,
                >(e@));
                lemma_peripherals_recorded_error(device.peripherals@, i + 1, start);
            }
            return Err(e);
        }
        i += 1;
    }
    proof {
        assert(device.peripherals@.take(device.peripherals@.len() as int)
            =~= device.peripherals@);
    }
    Ok(EntityDb { register_addresses })
}

/// No two entries are for the same address.
pub open spec fn distinct_addresses(entries: Seq<(u64, Seq<Seq<PathChunkView>>)>) -> bool {
    forall|i: int, j: int|
        0 <= i < j < entries.len() ==> (#[trigger] entries[i]).0 != (#[trigger] entries[j]).0
}

/// Recording a path keeps the addresses distinct, and the path is the
/// last of the paths of its address.
pub proof fn lemma_recorded(
    entries: Seq<(u64, Seq<Seq<PathChunkView>>)>,
    address: u64,
    path: Seq<PathChunkView>,
)
    requires
        distinct_addresses(entries),
    ensures
        distinct_addresses(recorded(entries, address, path)),
        slot_of(recorded(entries, address, path), address) matches Some(i) && recorded(
            entries,
            address,
            path,
        )[i].1.last() == path,
{
    let after = recorded(entries, address, path);
    lemma_slot_of(entries, address);
    lemma_slot_of(after, address);
    match slot_of(entries, address) {
        Some(k) => {
            assert(after[k].0 == address);
            match slot_of(after, address) {
                Some(i) => {
                    if i != k {
                        if i < k {
                            assert(after[i] == entries[i]);
                            assert(entries[i].0 != entries[k].0);
                        } else {
                            assert(after[i] == entries[i]);
                            assert(entries[k].0 != entries[i].0);
                        }
                    }
                },
                None => {},
            }
        },
        None => {
            assert(after[after.len() - 1].0 == address);
            match slot_of(after, address) {
                Some(i) => {
                    if i < entries.len() {
                        assert(after[i] == entries[i]);
                    }
                },
                None => {},
            }
        },
    }
}

/// Recording the instances of a register keeps the addresses distinct.
pub proof fn lemma_register_recorded_distinct(
    prefix: Seq<PathChunkView>,
    base: u64,
    r: SvdRegister,
    k: nat,
    entries: Seq<(u64, Seq<Seq<PathChunkView>>)>,
)
    requires
        distinct_addresses(entries),
    ensures
        register_recorded(prefix, base, r, k, entries) matches Some(all) ==> distinct_addresses(all),
    decreases k,
{
    if k > 0 {
        lemma_register_recorded_distinct(prefix, base, r, (k - 1) as nat, entries);
        match register_recorded(prefix, base, r, (k - 1) as nat, entries) {
            Some(acc) => {
                let address = instance_address(base, r.address_offset as int, r.array, k - 1);
                if address <= u64::MAX {
                    lemma_recorded(
                        acc,
                        address as u64,
                        prefix.push(chunk(func_ident(register_name(r)), r.array, k - 1)),
                    );
                }
            },
            None => {},
        }
    }
}

/// Recording the registers under the instances of a cluster keeps the
/// addresses distinct.
pub proof fn lemma_cluster_recorded_distinct(
    prefix: Seq<PathChunkView>,
    base: u64,
    c: SvdCluster,
    k: nat,
    entries: Seq<(u64, Seq<Seq<PathChunkView>>)>,
)
    requires
        distinct_addresses(entries),
    ensures
        cluster_recorded(prefix, base, c, k, entries) matches Some(all) ==> distinct_addresses(all),
    decreases c, k,
{
    if k > 0 {
        lemma_cluster_recorded_distinct(prefix, base, c, (k - 1) as nat, entries);
        match cluster_recorded(prefix, base, c, (k - 1) as nat, entries) {
            Some(acc) => {
                let address = instance_address(base, c.address_offset as int, c.array, k - 1);
                if address <= u64::MAX {
                    lemma_children_recorded_distinct(
                        prefix.push(chunk(func_ident(internal_ident(c.name@)), c.array, k - 1)),
                        address as u64,
                        c.children@,
                        acc,
                    );
                }
            },
            None => {},
        }
    }
}

/// Recording the registers under the children of a container keeps the
/// addresses distinct.
pub proof fn lemma_children_recorded_distinct(
    prefix: Seq<PathChunkView>,
    base: u64,
    items: Seq<SvdRegisterCluster>,
    entries: Seq<(u64, Seq<Seq<PathChunkView>>)>,
)
    requires
        distinct_addresses(entries),
    ensures
        children_recorded(prefix, base, items, entries) matches Some(all) ==> distinct_addresses(
            all,
        ),
    decreases items, 0nat,
{
    if items.len() > 0 {
        lemma_children_recorded_distinct(prefix, base, items.drop_last(), entries);
        match children_recorded(prefix, base, items.drop_last(), entries) {
            Some(acc) => match items.last() {
                SvdRegisterCluster::Register(r) => {
                    lemma_register_recorded_distinct(prefix, base, r, dim_of(r.array) as nat, acc);
                    assert(child_recorded(prefix, base, items.last(), acc) == register_recorded(
                        prefix,
                        base,
                        r,
                        dim_of(r.array) as nat,
                        acc,
                    ));
                },
                SvdRegisterCluster::Cluster(c) => {
                    lemma_cluster_recorded_distinct(prefix, base, c, dim_of(c.array) as nat, acc);
                    assert(child_recorded(prefix, base, items.last(), acc) == cluster_recorded(
                        prefix,
                        base,
                        c,
                        dim_of(c.array) as nat,
                        acc,
                    ));
                },
            },
            None => {},
        }
    }
}

/// Recording the registers under the instances of a peripheral keeps the
/// addresses distinct.
pub proof fn lemma_peripheral_recorded_distinct(
    p: SvdPeripheral,
    k: nat,
    entries: Seq<(u64, Seq<Seq<PathChunkView>>)>,
)
    requires
        distinct_addresses(entries),
    ensures
        peripheral_recorded(p, k, entries) matches Some(all) ==> distinct_addresses(all),
    decreases k,
{
    if k > 0 {
        lemma_peripheral_recorded_distinct(p, (k - 1) as nat, entries);
        match peripheral_recorded(p, (k - 1) as nat, entries) {
            Some(acc) => {
                let address = instance_address(p.base_address, 0, p.array, k - 1);
                if address <= u64::MAX {
                    lemma_children_recorded_distinct(
                        seq![chunk(const_ident(internal_ident(p.name@)), p.array, k - 1)],
                        address as u64,
                        children_of(p),
                        acc,
                    );
                }
            },
            None => {},
        }
    }
}

/// Recording the registers of peripherals keeps the addresses distinct.
pub proof fn lemma_peripherals_recorded_distinct(
    ps: Seq<SvdPeripheral>,
    entries: Seq<(u64, Seq<Seq<PathChunkView>>)>,
)
    requires
        distinct_addresses(entries),
    ensures
        peripherals_recorded(ps, entries) matches Ok(all) ==> distinct_addresses(all),
    decreases ps.len(),
{
    if ps.len() > 0 {
        lemma_peripherals_recorded_distinct(ps.drop_last(), entries);
        match peripherals_recorded(ps.drop_last(), entries) {
            Ok(acc) => {
                lemma_peripheral_recorded_distinct(ps.last(), dim_of(ps.last().array) as nat, acc);
            },
            Err(_) => {},
        }
    }
}

/// The address flattening database of a device has one entry for each
/// address.
pub proof fn lemma_register_addresses_are_distinct(d: SvdDevice)
    ensures
        register_addresses_of(d) matches Ok(entries) ==> distinct_addresses(entries),
{
    lemma_peripherals_recorded_distinct(d.peripherals@, Seq::empty());
}

} // verus!
