//! What holds of every build: properties of the model that follow from the
//! way it is built, each stated over the spec functions that the contracts
//! of the library use, and proved.
use crate::error::{msg_missing_reference, DiagnosticView, ParseErrorView};
use crate::fields::{built_field, mask_of_width};
use crate::ir::{
    BitSize, Cluster, ClusterView, FieldView, HasSameType, PeripheralMod, PeripheralView, Register,
    RegisterView,
};
use crate::register::overlaid_register;
use crate::svd::{SvdCluster, SvdField, SvdPeripheral, SvdRegister};
use crate::visitor::{
    absolute_path, visited_cluster, visited_peripheral, visited_register, ItemView, Walk,
};
use vstd::prelude::*;

verus! {

/// The mask of a field that is between 1 and 32 bits wide is
/// `(1 << width) - 1`, which is not 0 and fits in 32 bits.
pub proof fn lemma_mask_of_width(width: u32)
    requires
        1 <= width <= 32,
    ensures
        mask_of_width(width) == (1u64 << (width as u64)) - 1,
        mask_of_width(width) != 0,
{
    let wide = width as u64;
    assert(1 <= wide <= 32 ==> 2 <= (1u64 << wide) <= 0x1_0000_0000) by (bit_vector);
}

/// The mask of a field that has been built is `(1 << width) - 1` for the
/// width of its bit range, and its width class is the smallest of 8, 16, 32
/// and 64 bits that contains the mask.
pub proof fn lemma_field_mask_and_size(f: SvdField, field: FieldView)
    requires
        built_field(f) == Ok::<Option<FieldView>, ParseErrorView>(Some(field)),
    ensures
        field.mask == (1u64 << (f.bit_width as u64)) - 1,
        field.mask != 0,
        field.size.contains(field.mask as u64),
        forall|other: BitSize|
            other.contains(field.mask as u64) ==> field.size.bits() <= #[trigger] other.bits(),
{
    lemma_mask_of_width(f.bit_width);
}

/// The largest of the reset value of a register and the masks of its
/// fields.
pub open spec fn largest_content(reset_value: u64, fields: Seq<FieldView>) -> u64
    decreases fields.len(),
{
    if fields.len() == 0 {
        reset_value
    } else {
        let rest = largest_content(reset_value, fields.drop_last());
        if fields.last().mask as u64 > rest {
            fields.last().mask as u64
        } else {
            rest
        }
    }
}

/// A width class contains the largest content of a register exactly when it
/// contains the reset value and the mask of every field.
pub proof fn lemma_largest_content(reset_value: u64, fields: Seq<FieldView>, class: BitSize)
    ensures
        class.contains(largest_content(reset_value, fields)) <==> (class.contains(reset_value)
            && forall|i: int| 0 <= i < fields.len() ==> class.contains((#[trigger] fields[i]).mask as u64)),
    decreases fields.len(),
{
    if fields.len() > 0 {
        lemma_largest_content(reset_value, fields.drop_last(), class);
        let rest = fields.drop_last();
        assert forall|i: int| 0 <= i < rest.len() implies rest[i] == fields[i] by {}
        if class.contains(reset_value) && forall|i: int|
            0 <= i < fields.len() ==> class.contains((#[trigger] fields[i]).mask as u64) {
            assert forall|i: int| 0 <= i < rest.len() implies class.contains(
                (#[trigger] rest[i]).mask as u64,
            ) by {
                assert(rest[i] == fields[i]);
            }
            assert(class.contains(fields[fields.len() - 1].mask as u64));
        }
        if class.contains(largest_content(reset_value, fields)) {
            assert(class.contains(largest_content(reset_value, rest)));
            assert forall|i: int| 0 <= i < fields.len() implies class.contains(
                (#[trigger] fields[i]).mask as u64,
            ) by {
                if i < rest.len() {
                    assert(rest[i] == fields[i]);
                }
            }
        }
    }
}

/// Where the declared width of a register is the smallest of 8, 16, 32 and
/// 64 bits that contains its reset value and the mask of every field, that
/// is the width class of the register: it contains them, and no smaller
/// class does.
pub proof fn lemma_register_size(
    mod_path: Seq<Seq<char>>,
    reg: SvdRegister,
    base: RegisterView,
    built: RegisterView,
    reported: Seq<DiagnosticView>,
)
    requires
        overlaid_register(mod_path, reg, base) == Ok::<
            (RegisterView, Seq<DiagnosticView>),
            ParseErrorView,
        >((built, reported)),
        reg.size matches Some(bits) && bits == BitSize::of(
            largest_content(built.reset_value, built.fields),
        ).bits(),
    ensures
        built.size == BitSize::of(largest_content(built.reset_value, built.fields)),
        built.size.contains(built.reset_value),
        forall|i: int|
            0 <= i < built.fields.len() ==> built.size.contains((#[trigger] built.fields[i]).mask as u64),
        forall|other: BitSize|
            other.contains(built.reset_value) && (forall|i: int|
                0 <= i < built.fields.len() ==> other.contains(
                    (#[trigger] built.fields[i]).mask as u64,
                )) ==> built.size.bits() <= #[trigger] other.bits(),
{
    let largest = largest_content(built.reset_value, built.fields);
    lemma_largest_content(built.reset_value, built.fields, built.size);
    assert forall|other: BitSize|
        other.contains(built.reset_value) && (forall|i: int|
            0 <= i < built.fields.len() ==> other.contains(
                (#[trigger] built.fields[i]).mask as u64,
            )) implies built.size.bits() <= #[trigger] other.bits() by {
        lemma_largest_content(built.reset_value, built.fields, other);
    }
}

/// A register is marked as sharing the type of the register it derives from
/// exactly when it derives from one and its fields, the identifier and
/// module of its struct, its access mode, its width and its reset value are
/// those of that register. A difference in any one of them leaves it
/// unmarked.
pub proof fn lemma_register_alias(
    svd_path: Seq<Seq<char>>,
    mod_path: Seq<Seq<char>>,
    walk: Walk,
    reg: SvdRegister,
    register: RegisterView,
    after: Walk,
)
    requires
        visited_register(svd_path, mod_path, walk, reg) == Ok::<(RegisterView, Walk), ParseErrorView>(
            (register, after),
        ),
    ensures
        register.is_derived_from ==> reg.derived_from is Some,
        reg.derived_from matches Some(reference) ==> {
            let key = absolute_path(svd_path, reference@);
            &&& walk.refs.contains_key(key)
            &&& walk.refs[key] matches ItemView::Register(base)
            &&& register.is_derived_from == (register.fields == base.fields && register.struct_id
                == base.struct_id && register.struct_module_path == base.struct_module_path
                && register.access == base.access && register.size == base.size
                && register.reset_value == base.reset_value)
        },
{
}

/// A register that derives from another and overrides nothing of its type
/// (no field, no width, no reset value, no access mode) has the type of that
/// register, whatever its name, description, offset and repetition.
pub proof fn lemma_derived_without_overrides(
    mod_path: Seq<Seq<char>>,
    reg: SvdRegister,
    base: RegisterView,
)
    requires
        reg.derived_from is Some,
        reg.fields@.len() == 0,
        reg.size is None,
        reg.reset_value is None,
        reg.access is None,
        base.struct_id.len() > 0,
    ensures
        overlaid_register(mod_path, reg, base) matches Ok((built, reported)) && Register::same_type(
            built,
            base,
        ) && reported.len() == 0,
{
}

/// A cluster is marked as sharing the type of the cluster it derives from
/// exactly when it derives from one and has its type.
pub proof fn lemma_cluster_alias(
    svd_path: Seq<Seq<char>>,
    mod_path: Seq<Seq<char>>,
    walk: Walk,
    c: SvdCluster,
    cluster: ClusterView,
    after: Walk,
)
    requires
        visited_cluster(svd_path, mod_path, walk, c) == Ok::<(ClusterView, Walk), ParseErrorView>(
            (cluster, after),
        ),
    ensures
        cluster.is_derived_from ==> c.derived_from is Some,
        c.derived_from matches Some(reference) ==> {
            let key = absolute_path(svd_path, reference@);
            &&& walk.refs.contains_key(key)
            &&& walk.refs[key] matches ItemView::Cluster(base)
            &&& cluster.is_derived_from == Cluster::same_type(cluster, base)
        },
{
}

/// A peripheral names the peripheral it derives from exactly when it
/// derives from one and has its type.
pub proof fn lemma_peripheral_alias(
    walk: Walk,
    p: SvdPeripheral,
    peripheral: PeripheralView,
    after: Walk,
)
    requires
        visited_peripheral(walk, p) == Ok::<(PeripheralView, Walk), ParseErrorView>(
            (peripheral, after),
        ),
    ensures
        peripheral.derived_from is Some ==> p.derived_from is Some,
        p.derived_from matches Some(reference) ==> {
            let key = absolute_path(Seq::empty(), reference@);
            &&& walk.refs.contains_key(key)
            &&& walk.refs[key] matches ItemView::Peripheral(base)
            &&& peripheral.derived_from == if PeripheralMod::same_type(peripheral, base) {
                Some(base.name)
            } else {
                None
            }
        },
{
}

/// A register that derives from a node that has not been built is an
/// error, located at the register, that names the missing node.
pub proof fn lemma_missing_register_target(
    svd_path: Seq<Seq<char>>,
    mod_path: Seq<Seq<char>>,
    walk: Walk,
    reg: SvdRegister,
)
    requires
        reg.derived_from matches Some(reference) && !walk.refs.contains_key(
            absolute_path(svd_path, reference@),
        ),
    ensures
        visited_register(svd_path, mod_path, walk, reg) == Err::<
            (RegisterView, Walk),
            ParseErrorView,
        >(
            ParseErrorView::InvalidRegister {
                register_name: reg.name@,
                msg: msg_missing_reference(reg.derived_from->0@),
            },
        ),
{
}

/// A cluster that derives from a node that has not been built is an error,
/// located at the cluster, that names the missing node.
pub proof fn lemma_missing_cluster_target(
    svd_path: Seq<Seq<char>>,
    mod_path: Seq<Seq<char>>,
    walk: Walk,
    c: SvdCluster,
)
    requires
        c.derived_from matches Some(reference) && !walk.refs.contains_key(
            absolute_path(svd_path, reference@),
        ),
    ensures
        visited_cluster(svd_path, mod_path, walk, c) == Err::<(ClusterView, Walk), ParseErrorView>(
            ParseErrorView::InvalidCluster {
                cluster_name: c.name@,
                msg: msg_missing_reference(c.derived_from->0@),
            },
        ),
{
}

/// A peripheral that derives from a node that has not been built is an
/// error, located at the peripheral, that names the missing node.
pub proof fn lemma_missing_peripheral_target(walk: Walk, p: SvdPeripheral)
    requires
        p.derived_from matches Some(reference) && !walk.refs.contains_key(
            absolute_path(Seq::empty(), reference@),
        ),
    ensures
        visited_peripheral(walk, p) == Err::<(PeripheralView, Walk), ParseErrorView>(
            ParseErrorView::InvalidPeripheral {
                peripheral_name: p.name@,
                msg: msg_missing_reference(p.derived_from->0@),
            },
        ),
{
}

} // verus!
