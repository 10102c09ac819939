//! Bitfields and their enumerations: the mask and width class of a field
//! from its bit range, and the enumerations of its values with the checks on
//! how many there are and what they are used for.
use crate::error::{
    located, located_error, msg_enum_derived, msg_enum_too_many, msg_enum_usage,
    msg_enum_value_missing, msg_enum_value_unnamed, msg_field_derived, msg_field_width, NodeKind,
    ParseError, ParseErrorView,
};
use crate::ident::{internal_ident, ToSanitizedSymbol};
use crate::ir::{
    opt_text, BitSize, EnumeratedSingleValue, EnumeratedSingleValueView, EnumeratedValueType,
    EnumeratedValueTypeView, EnumeratedValueUsage, FieldGetterSetter, FieldView,
    RegisterBitfieldAccess,
};
use crate::ordered::views;
use crate::svd::{
    dim_increment_of, dim_of, get_dim_dim_increment, SvdAccess, SvdEnumeratedValue,
    SvdEnumeratedValues, SvdField, SvdUsage,
};
use vstd::prelude::*;
use vstd::string::StringExecFns;

verus! {

/// The view of a result whose value is one entity.
pub open spec fn ok_view<T: View>(r: Result<T, ParseError>) -> Result<T::V, ParseErrorView> {
    match r {
        Ok(v) => Ok(v@),
        Err(e) => Err(e@),
    }
}

/// The view of a result whose value is a list of entities.
pub open spec fn ok_views<T: View>(r: Result<Vec<T>, ParseError>) -> Result<
    Seq<T::V>,
    ParseErrorView,
> {
    match r {
        Ok(v) => Ok(views(v@)),
        Err(e) => Err(e@),
    }
}

/// The text of an optional string, empty where there is none.
pub open spec fn or_empty(o: Option<String>) -> Seq<char> {
    match o {
        Some(s) => s@,
        None => Seq::empty(),
    }
}

/// A copy of an optional string, empty where there is none.
pub fn clone_or_empty(o: &Option<String>) -> (r: String)
    ensures
        r@ == or_empty(*o),
{
    match o {
        Some(s) => s.clone(),
        None => String::new(),
    }
}

/// The use of an enumeration: for reading and writing where none is given.
pub open spec fn usage_of(usage: Option<SvdUsage>) -> EnumeratedValueUsage {
    match usage {
        None => EnumeratedValueUsage::ReadWrite,
        Some(SvdUsage::Read) => EnumeratedValueUsage::Read,
        Some(SvdUsage::Write) => EnumeratedValueUsage::Write,
        Some(SvdUsage::ReadWrite) => EnumeratedValueUsage::ReadWrite,
    }
}

/// The name of the enumeration of the field `field_name` that is used for
/// `usage`.
pub open spec fn enum_type_name(field_name: Seq<char>, usage: EnumeratedValueUsage) -> Seq<char> {
    match usage {
        EnumeratedValueUsage::Read => internal_ident(field_name) + "_Read"@,
        EnumeratedValueUsage::Write => internal_ident(field_name) + "_Write"@,
        EnumeratedValueUsage::ReadWrite => internal_ident(field_name),
    }
}

/// The name of a value of an enumeration: prefixed with the name of the
/// enumeration where it has one.
pub open spec fn enum_value_name(block_name: Option<Seq<char>>, name: Seq<char>) -> Seq<char> {
    match block_name {
        Some(n) => n + "_"@ + name,
        None => name,
    }
}

/// One value of an enumeration of the field `field_name`. A value without a
/// name or without a number is an error.
pub open spec fn single_value(
    field_name: Seq<char>,
    block_name: Option<Seq<char>>,
    v: SvdEnumeratedValue,
) -> Result<EnumeratedSingleValueView, ParseErrorView> {
    if v.name@.len() == 0 {
        Err(located(NodeKind::Field, field_name, msg_enum_value_unnamed()))
    } else {
        match v.value {
            None => Err(located(NodeKind::Field, field_name, msg_enum_value_missing())),
            Some(x) => Ok(
                EnumeratedSingleValueView {
                    name: enum_value_name(block_name, v.name@),
                    value: x,
                    description: or_empty(v.description),
                },
            ),
        }
    }
}

/// The values of an enumeration, in order; the first error where one of them
/// is in error.
pub open spec fn single_values(
    field_name: Seq<char>,
    block_name: Option<Seq<char>>,
    vals: Seq<SvdEnumeratedValue>,
) -> Result<Seq<EnumeratedSingleValueView>, ParseErrorView>
    decreases vals.len(),
{
    if vals.len() == 0 {
        Ok(Seq::empty())
    } else {
        match single_values(field_name, block_name, vals.drop_last()) {
            Err(e) => Err(e),
            Ok(acc) => match single_value(field_name, block_name, vals.last()) {
                Err(e) => Err(e),
                Ok(v) => Ok(acc.push(v)),
            },
        }
    }
}

/// The largest number among the values; 0 where there is none.
pub open spec fn max_value(vals: Seq<EnumeratedSingleValueView>) -> u64
    decreases vals.len(),
{
    if vals.len() == 0 {
        0
    } else {
        let m = max_value(vals.drop_last());
        if vals.last().value > m {
            vals.last().value
        } else {
            m
        }
    }
}

/// One enumeration of the field `field_name`. Its width class is the
/// smallest that contains its largest value. An enumeration that derives
/// from another is an error.
pub open spec fn value_type(field_name: Seq<char>, block: SvdEnumeratedValues) -> Result<
    EnumeratedValueTypeView,
    ParseErrorView,
> {
    if block.derived_from is Some {
        Err(located(NodeKind::Field, field_name, msg_enum_derived()))
    } else {
        match single_values(field_name, opt_text(block.name), block.values@) {
            Err(e) => Err(e),
            Ok(values) => Ok(
                EnumeratedValueTypeView {
                    name: enum_type_name(field_name, usage_of(block.usage)),
                    usage: usage_of(block.usage),
                    size: BitSize::of(max_value(values)),
                    values,
                },
            ),
        }
    }
}

/// The enumerations of a field, in order; the first error where one of them
/// is in error.
pub open spec fn value_types(field_name: Seq<char>, blocks: Seq<SvdEnumeratedValues>) -> Result<
    Seq<EnumeratedValueTypeView>,
    ParseErrorView,
>
    decreases blocks.len(),
{
    if blocks.len() == 0 {
        Ok(Seq::empty())
    } else {
        match value_types(field_name, blocks.drop_last()) {
            Err(e) => Err(e),
            Ok(acc) => match value_type(field_name, blocks.last()) {
                Err(e) => Err(e),
                Ok(t) => Ok(acc.push(t)),
            },
        }
    }
}

/// Whether two enumerations are not one for reading and one for writing.
pub open spec fn usages_conflict(a: EnumeratedValueUsage, b: EnumeratedValueUsage) -> bool {
    a == EnumeratedValueUsage::ReadWrite || b == EnumeratedValueUsage::ReadWrite || a == b
}

/// The enumerations of the field: at most two, and where there are two, one
/// for reading and the other for writing.
pub open spec fn values_types(field: SvdField) -> Result<
    Seq<EnumeratedValueTypeView>,
    ParseErrorView,
> {
    match value_types(field.name@, field.enumerated_values@) {
        Err(e) => Err(e),
        Ok(types) => if types.len() > 2 {
            Err(located(NodeKind::Field, field.name@, msg_enum_too_many()))
        } else if types.len() == 2 && usages_conflict(types[0].usage, types[1].usage) {
            Err(located(NodeKind::Field, field.name@, msg_enum_usage()))
        } else {
            Ok(types)
        },
    }
}

fn field_error(field_name: &String, msg: &str) -> (e: ParseError)
    ensures
        e@ == located(NodeKind::Field, field_name@, msg@),
{
    located_error(NodeKind::Field, field_name.as_str(), String::from_str(msg))
}

fn get_single_value(
    field_name: &String,
    block_name: &Option<String>,
    v: &SvdEnumeratedValue,
) -> (r: Result<EnumeratedSingleValue, ParseError>)
    ensures
        ok_view(r) == single_value(field_name@, opt_text(*block_name), *v),
{
    if v.name.as_str().is_empty() {
        return Err(field_error(field_name, "A value of an enumeration shall have a name"));
    }
    let value = match v.value {
        Some(value) => value,
        None => {
            return Err(
                field_error(
                    field_name,
                    "Default values are not supported: every value of an enumeration shall be defined",
                ),
            );
        },
    };
    let name = match block_name {
        Some(n) => n.clone().concat("_").concat(v.name.as_str()),
        None => v.name.clone(),
    };
    Ok(EnumeratedSingleValue { name, value, description: clone_or_empty(&v.description) })
}

fn get_value_type(field_name: &String, block: &SvdEnumeratedValues) -> (r: Result<
    EnumeratedValueType,
    ParseError,
>)
    ensures
        ok_view(r) == value_type(field_name@, *block),
{
    if block.derived_from.is_some() {
        return Err(field_error(field_name, "derivedFrom is not supported in enumerated values"));
    }
    let mut max: u64 = 0;
    let mut values: Vec<EnumeratedSingleValue> = Vec::new();
    let mut i: usize = 0;
    proof {
        assert(block.values@.take(0).len() == 0);
        assert(views(values@) =~= Seq::empty());
    }
    while i < block.values.len()
        invariant
            i <= block.values.len(),
            block.derived_from is None,
            single_values(field_name@, opt_text(block.name), block.values@.take(i as int)) == Ok::<
                Seq<EnumeratedSingleValueView>,
                ParseErrorView,
            >(views(values@)),
            max == max_value(views(values@)),
        decreases block.values.len() - i,
    {
        proof {
            let s = block.values@;
            assert(s.take(i + 1).drop_last() =~= s.take(i as int));
            assert(s.take(i + 1).last() == s[i as int]);
        }
        let ghost before = values@;
        match get_single_value(field_name, &block.name, &block.values[i]) {
            Err(e) => {
                proof {
                    assert(single_values(
                        field_name@,
                        opt_text(block.name),
                        block.values@.take(i + 1),
                    ) == Err::<Seq<EnumeratedSingleValueView>, ParseErrorView>(e@));
                    lemma_single_values_error(
                        field_name@,
                        opt_text(block.name),
                        block.values@,
                        i + 1,
                    );
                }
                return Err(e);
            },
            Ok(v) => {
                if v.value > max {
                    max = v.value;
                }
                values.push(v);
                proof {
                    assert(views(values@) =~= views(before).push(v@));
                    assert(views(values@).drop_last() =~= views(before));
                }
            },
        }
        i += 1;
    }
    proof {
        assert(block.values@.take(block.values@.len() as int) =~= block.values@);
    }
    let usage = match block.usage {
        None => EnumeratedValueUsage::ReadWrite,
        Some(SvdUsage::Read) => EnumeratedValueUsage::Read,
        Some(SvdUsage::Write) => EnumeratedValueUsage::Write,
        Some(SvdUsage::ReadWrite) => EnumeratedValueUsage::ReadWrite,
    };
    let internal = field_name.as_str().to_internal_ident();
    let name = match usage {
        EnumeratedValueUsage::Read => internal.concat("_Read"),
        EnumeratedValueUsage::Write => internal.concat("_Write"),
        EnumeratedValueUsage::ReadWrite => internal,
    };
    Ok(EnumeratedValueType { name, usage, size: BitSize::val_2_bit_size(max), values })
}

/// An error among the first `n` values is the error of the whole list.
pub proof fn lemma_single_values_error(
    field_name: Seq<char>,
    block_name: Option<Seq<char>>,
    vals: Seq<SvdEnumeratedValue>,
    n: int,
)
    requires
        0 <= n <= vals.len(),
        single_values(field_name, block_name, vals.take(n)) is Err,
    ensures
        single_values(field_name, block_name, vals) == single_values(
            field_name,
            block_name,
            vals.take(n),
        ),
    decreases vals.len() - n,
{
    if n < vals.len() {
        assert(vals.take(n + 1).drop_last() =~= vals.take(n));
        lemma_single_values_error(field_name, block_name, vals, n + 1);
    } else {
        assert(vals.take(n) =~= vals);
    }
}

/// An error among the first `n` enumerations is the error of the whole list.
pub proof fn lemma_value_types_error(
    field_name: Seq<char>,
    blocks: Seq<SvdEnumeratedValues>,
    n: int,
)
    requires
        0 <= n <= blocks.len(),
        value_types(field_name, blocks.take(n)) is Err,
    ensures
        value_types(field_name, blocks) == value_types(field_name, blocks.take(n)),
    decreases blocks.len() - n,
{
    if n < blocks.len() {
        assert(blocks.take(n + 1).drop_last() =~= blocks.take(n));
        lemma_value_types_error(field_name, blocks, n + 1);
    } else {
        assert(blocks.take(n) =~= blocks);
    }
}

/// The enumerations that a bitfield declares: none, one, or one for reading
/// and one for writing. Anything else is an error, as is an enumeration that
/// derives from another and a value without a name or without a number.
pub fn get_values_types(field: &SvdField) -> (r: Result<Vec<EnumeratedValueType>, ParseError>)
    ensures
        ok_views(r) == values_types(*field),
{
    let mut result: Vec<EnumeratedValueType> = Vec::new();
    let mut i: usize = 0;
    proof {
        assert(field.enumerated_values@.take(0).len() == 0);
        assert(views(result@) =~= Seq::empty());
    }
    while i < field.enumerated_values.len()
        invariant
            i <= field.enumerated_values.len(),
            value_types(field.name@, field.enumerated_values@.take(i as int)) == Ok::<
                Seq<EnumeratedValueTypeView>,
                ParseErrorView,
            >(views(result@)),
        decreases field.enumerated_values.len() - i,
    {
        proof {
            let s = field.enumerated_values@;
            assert(s.take(i + 1).drop_last() =~= s.take(i as int));
            assert(s.take(i + 1).last() == s[i as int]);
        }
        let ghost before = result@;
        match get_value_type(&field.name, &field.enumerated_values[i]) {
            Err(e) => {
                proof {
                    assert(value_types(field.name@, field.enumerated_values@.take(i + 1)) == Err::<
                        Seq<EnumeratedValueTypeView>,
                        ParseErrorView,
                    >(e@));
                    lemma_value_types_error(field.name@, field.enumerated_values@, i + 1);
                }
                return Err(e);
            },
            Ok(t) => {
                result.push(t);
                proof {
                    assert(views(result@) =~= views(before).push(t@));
                }
            },
        }
        i += 1;
    }
    proof {
        assert(field.enumerated_values@.take(field.enumerated_values@.len() as int)
            =~= field.enumerated_values@);
    }
    if result.len() > 2 {
        return Err(field_error(&field.name, "Only up to two enumerations are supported"));
    }
    if result.len() == 2 {
        let a = result[0].usage;
        let b = result[1].usage;
        if a == EnumeratedValueUsage::ReadWrite || b == EnumeratedValueUsage::ReadWrite || a == b {
            return Err(
                field_error(
                    &field.name,
                    "If two enumerations are defined, one shall be read and the other write",
                ),
            );
        }
    }
    Ok(result)
}

/// The mask of a field that is `width` bits wide, not shifted:
/// `(1 << width) - 1`.
pub open spec fn mask_of_width(width: u32) -> u32 {
    ((1u64 << (width as u64)) - 1) as u32
}

/// The mask of a field that is `width` bits wide.
pub fn mask_for(width: u32) -> (mask: u32)
    requires
        1 <= width <= 32,
    ensures
        mask == mask_of_width(width),
        mask == (1u64 << (width as u64)) - 1,
        mask != 0,
{
    let one: u64 = 1;
    let wide: u64 = width as u64;
    assert(1 <= wide <= 32 ==> 2 <= (1u64 << wide) <= 0x1_0000_0000) by (bit_vector);
    let shifted: u64 = one << wide;
    (shifted - 1) as u32
}

/// The access mode of a bitfield: an access that may happen once counts as
/// one that may happen.
pub open spec fn field_access(access: SvdAccess) -> RegisterBitfieldAccess {
    match access {
        SvdAccess::ReadOnly => RegisterBitfieldAccess::R,
        SvdAccess::WriteOnly => RegisterBitfieldAccess::W,
        SvdAccess::ReadWrite => RegisterBitfieldAccess::RW,
        SvdAccess::WriteOnce => RegisterBitfieldAccess::W,
        SvdAccess::ReadWriteOnce => RegisterBitfieldAccess::RW,
    }
}

/// Whether an enumeration used for `usage` serves writing (`write`) or
/// reading (not `write`).
pub open spec fn serves(usage: EnumeratedValueUsage, write: bool) -> bool {
    usage == EnumeratedValueUsage::ReadWrite || (write && usage == EnumeratedValueUsage::Write)
        || (!write && usage == EnumeratedValueUsage::Read)
}

/// The name of the first enumeration that serves writing or reading.
pub open spec fn first_serving(types: Seq<EnumeratedValueTypeView>, write: bool) -> Option<
    Seq<char>,
>
    decreases types.len(),
{
    if types.len() == 0 {
        None
    } else if serves(types[0].usage, write) {
        Some(types[0].name)
    } else {
        first_serving(types.drop_first(), write)
    }
}

/// The bitfield built from its declaration, or nothing where the
/// declaration gives no access mode: such a field is skipped. A field that
/// derives from another, a width outside 1 to 32, and an error in the
/// enumerations are errors.
pub open spec fn built_field(f: SvdField) -> Result<Option<FieldView>, ParseErrorView> {
    if f.derived_from is Some {
        Err(located(NodeKind::Field, f.name@, msg_field_derived()))
    } else if !(1 <= f.bit_width <= 32) {
        Err(located(NodeKind::Field, f.name@, msg_field_width()))
    } else {
        match f.access {
            None => Ok(None),
            Some(access) => match values_types(f) {
                Err(e) => Err(e),
                Ok(types) => Ok(
                    Some(
                        FieldView {
                            name: internal_ident(f.name@),
                            description: or_empty(f.description),
                            offset: f.bit_offset,
                            mask: mask_of_width(f.bit_width),
                            size: BitSize::of(mask_of_width(f.bit_width) as u64),
                            enum_types: types,
                            enum_type_write: first_serving(types, true),
                            enum_type_read: first_serving(types, false),
                            access: field_access(access),
                            dim: dim_of(f.array),
                            dim_increment: dim_increment_of(f.array),
                        },
                    ),
                ),
            },
        }
    }
}

/// The view of the result of building a field.
pub open spec fn field_result_view(r: Result<Option<FieldGetterSetter>, ParseError>) -> Result<
    Option<FieldView>,
    ParseErrorView,
> {
    match r {
        Ok(Some(f)) => Ok(Some(f@)),
        Ok(None) => Ok(None),
        Err(e) => Err(e@),
    }
}

fn find_serving(types: &Vec<EnumeratedValueType>, write: bool) -> (r: Option<String>)
    ensures
        opt_text(r) == first_serving(views(types@), write),
{
    let mut i: usize = 0;
    proof {
        assert(views(types@).skip(0) =~= views(types@));
    }
    while i < types.len()
        invariant
            i <= types.len(),
            first_serving(views(types@), write) == first_serving(views(types@).skip(i as int), write),
        decreases types.len() - i,
    {
        let usage = types[i].usage;
        proof {
            let rest = views(types@).skip(i as int);
            assert(rest[0] == types@[i as int]@);
            assert(rest.drop_first() =~= views(types@).skip(i + 1));
        }
        if usage == EnumeratedValueUsage::ReadWrite || (write && usage
            == EnumeratedValueUsage::Write) || (!write && usage == EnumeratedValueUsage::Read) {
            return Some(types[i].name.clone());
        }
        i += 1;
    }
    proof {
        assert(views(types@).skip(types@.len() as int).len() == 0);
    }
    None
}

/// Builds a bitfield from its declaration. Returns nothing for a field that
/// declares no access mode.
pub fn build_field(f: &SvdField) -> (r: Result<Option<FieldGetterSetter>, ParseError>)
    ensures
        field_result_view(r) == built_field(*f),
        r matches Ok(Some(field)) ==> field.mask != 0 && field.mask == (1u64 << (
        f.bit_width as u64)) - 1 && field.size.contains(field.mask as u64),
{
    if f.derived_from.is_some() {
        return Err(field_error(&f.name, "derivedFrom is not supported in a field"));
    }
    if f.bit_width < 1 || f.bit_width > 32 {
        return Err(field_error(&f.name, "The bit width of a field shall be between 1 and 32"));
    }
    let mask = mask_for(f.bit_width);
    let name = f.name.as_str().to_internal_ident();
    let access = match f.access {
        None => {
            return Ok(None);
        },
        Some(SvdAccess::ReadOnly) => RegisterBitfieldAccess::R,
        Some(SvdAccess::WriteOnly) => RegisterBitfieldAccess::W,
        Some(SvdAccess::ReadWrite) => RegisterBitfieldAccess::RW,
        Some(SvdAccess::WriteOnce) => RegisterBitfieldAccess::W,
        Some(SvdAccess::ReadWriteOnce) => RegisterBitfieldAccess::RW,
    };
    let (dim, dim_increment) = get_dim_dim_increment(&f.array);
    let enum_types = match get_values_types(f) {
        Err(e) => {
            return Err(e);
        },
        Ok(types) => types,
    };
    let enum_type_write = find_serving(&enum_types, true);
    let enum_type_read = find_serving(&enum_types, false);
    Ok(
        Some(
            FieldGetterSetter {
                name,
                description: clone_or_empty(&f.description),
                offset: f.bit_offset,
                mask,
                size: BitSize::val_2_bit_size(mask as u64),
                enum_types,
                enum_type_write,
                enum_type_read,
                access,
                dim,
                dim_increment,
            },
        ),
    )
}

/// Two enumerations of a field are accepted exactly when one is for reading
/// and the other for writing; the field then has an enumeration for each,
/// the one independent of the other.
pub proof fn lemma_two_enumerations(field: SvdField, types: Seq<EnumeratedValueTypeView>)
    requires
        value_types(field.name@, field.enumerated_values@) == Ok::<
            Seq<EnumeratedValueTypeView>,
            ParseErrorView,
        >(types),
        types.len() == 2,
    ensures
        values_types(field) is Ok <==> ((types[0].usage == EnumeratedValueUsage::Read
            && types[1].usage == EnumeratedValueUsage::Write) || (types[0].usage
            == EnumeratedValueUsage::Write && types[1].usage == EnumeratedValueUsage::Read)),
        types[0].usage == EnumeratedValueUsage::ReadWrite && types[1].usage
            == EnumeratedValueUsage::ReadWrite ==> values_types(field) is Err,
        types[0].usage == EnumeratedValueUsage::Read && types[1].usage
            == EnumeratedValueUsage::Write ==> first_serving(types, false) == Some(types[0].name)
            && first_serving(types, true) == Some(types[1].name),
        types[0].usage == EnumeratedValueUsage::Write && types[1].usage
            == EnumeratedValueUsage::Read ==> first_serving(types, true) == Some(types[0].name)
            && first_serving(types, false) == Some(types[1].name),
{
    reveal_with_fuel(first_serving, 3);
    assert(types.drop_first()[0] == types[1]);
}

} // verus!
