//! Registers: the overlay of a register declaration on the register it
//! starts from, which is the register it derives from or an empty one.
use crate::error::{
    located, located_error, msg_register_no_reset, msg_register_no_size, msg_register_size,
    Diagnostic, DiagnosticView, NodeKind, ParseError, ParseErrorView,
};
use crate::fields::{build_field, built_field, clone_or_empty, or_empty};
use crate::ident::{internal_ident, struct_ident, ToSanitizedSymbol};
use crate::ir::{
    BitSize, FieldGetterSetter, FieldView, Register, RegisterAccess, RegisterBitfieldAccess,
    RegisterView,
};
use crate::ordered::{upsert, upserted, views};
use crate::svd::{
    dim_increment_of, dim_of, get_dim_dim_increment, SvdAccess, SvdField, SvdRegister,
};
use crate::text::texts;
use vstd::prelude::*;
use vstd::string::StringExecFns;

verus! {

/// The name of a register inside the model: its declared name, followed by
/// `_` and its alternate group where it has one, without array
/// placeholders.
pub open spec fn register_name(reg: SvdRegister) -> Seq<char> {
    match reg.alternate_group {
        None => internal_ident(reg.name@),
        Some(group) => internal_ident(reg.name@ + "_"@ + group@),
    }
}

/// The name of a register inside the model.
pub fn get_name_id_internal(reg: &SvdRegister) -> (r: String)
    ensures
        r@ == register_name(*reg),
{
    match &reg.alternate_group {
        None => reg.name.as_str().to_internal_ident(),
        Some(group) => {
            let full = reg.name.clone().concat("_").concat(group.as_str());
            full.as_str().to_internal_ident()
        },
    }
}

/// The access mode of a register: an access that may happen once counts as
/// one that may happen.
pub open spec fn register_access(access: SvdAccess) -> RegisterAccess {
    match access {
        SvdAccess::ReadOnly => RegisterAccess::R,
        SvdAccess::WriteOnly => RegisterAccess::W,
        SvdAccess::ReadWrite => RegisterAccess::RW,
        SvdAccess::WriteOnce => RegisterAccess::W,
        SvdAccess::ReadWriteOnce => RegisterAccess::RW,
    }
}

/// The path of the module above the last one of `path`.
pub open spec fn parent_path(path: Seq<Seq<char>>) -> Seq<Seq<char>> {
    if path.len() == 0 {
        path
    } else {
        path.drop_last()
    }
}

/// The path of the module above the last one of `path`.
pub fn parent_of(path: &Vec<String>) -> (r: Vec<String>)
    ensures
        texts(r@) == parent_path(texts(path@)),
{
    let mut out: Vec<String> = Vec::new();
    if path.len() == 0 {
        proof {
            assert(texts(out@) =~= texts(path@));
        }
        return out;
    }
    let n = path.len() - 1;
    let mut i: usize = 0;
    while i < n
        invariant
            n == path.len() - 1,
            i <= n,
            texts(out@) == texts(path@).take(i as int),
        decreases n - i,
    {
        let ghost before = out@;
        let c = path[i].clone();
        out.push(c);
        proof {
            assert(c@ == path@[i as int]@);
            assert(texts(out@) =~= texts(before).push(c@));
            assert(texts(path@).take(i + 1) =~= texts(path@).take(i as int).push(
                path@[i as int]@,
            ));
        }
        i += 1;
    }
    proof {
        assert(texts(path@).take(n as int) =~= texts(path@).drop_last());
    }
    out
}

/// The fields of a register after the overlay of the declared fields, in
/// order, on the fields it starts from, with the diagnostics of the fields
/// that were skipped; the first error where a field is in error.
pub open spec fn fields_overlaid(fields: Seq<SvdField>, start: Seq<FieldView>) -> Result<
    (Seq<FieldView>, Seq<DiagnosticView>),
    ParseErrorView,
>
    decreases fields.len(),
{
    if fields.len() == 0 {
        Ok((start, Seq::empty()))
    } else {
        match fields_overlaid(fields.drop_last(), start) {
            Err(e) => Err(e),
            Ok((acc, diagnostics)) => match built_field(fields.last()) {
                Err(e) => Err(e),
                Ok(None) => Ok(
                    (
                        acc,
                        diagnostics.push(
                            DiagnosticView::FieldWithoutAccess { field_name: fields.last().name@ },
                        ),
                    ),
                ),
                Ok(Some(field)) => Ok((upserted(acc, field), diagnostics)),
            },
        }
    }
}

/// An error among the first `n` fields is the error of the whole list.
pub proof fn lemma_fields_overlaid_error(fields: Seq<SvdField>, start: Seq<FieldView>, n: int)
    requires
        0 <= n <= fields.len(),
        fields_overlaid(fields.take(n), start) is Err,
    ensures
        fields_overlaid(fields, start) == fields_overlaid(fields.take(n), start),
    decreases fields.len() - n,
{
    if n < fields.len() {
        assert(fields.take(n + 1).drop_last() =~= fields.take(n));
        lemma_fields_overlaid_error(fields, start, n + 1);
    } else {
        assert(fields.take(n) =~= fields);
    }
}

/// The width class of a register that is `bits` bits wide.
pub open spec fn size_class(bits: u32) -> Option<BitSize> {
    if bits == 64 {
        Some(BitSize::BIT64)
    } else if bits == 32 {
        Some(BitSize::BIT32)
    } else if bits == 16 {
        Some(BitSize::BIT16)
    } else if bits == 8 {
        Some(BitSize::BIT8)
    } else {
        None
    }
}

/// Whether a field of `fields` has an enumeration.
pub open spec fn any_enumerated(fields: Seq<FieldView>) -> bool {
    exists|i: int| 0 <= i < fields.len() && (#[trigger] fields[i]).enum_types.len() > 0
}

/// Whether a field of `fields` can be read.
pub open spec fn any_readable(fields: Seq<FieldView>) -> bool {
    exists|i: int|
        0 <= i < fields.len() && ((#[trigger] fields[i]).access == RegisterBitfieldAccess::R
            || fields[i].access == RegisterBitfieldAccess::RW)
}

/// Whether a field of `fields` can be written.
pub open spec fn any_writable(fields: Seq<FieldView>) -> bool {
    exists|i: int|
        0 <= i < fields.len() && ((#[trigger] fields[i]).access == RegisterBitfieldAccess::W
            || fields[i].access == RegisterBitfieldAccess::RW)
}

/// The access mode of a register that declares none: what its fields
/// allow, and read-only where no field allows anything.
pub open spec fn inferred_access(fields: Seq<FieldView>) -> RegisterAccess {
    if any_readable(fields) && any_writable(fields) {
        RegisterAccess::RW
    } else if any_writable(fields) {
        RegisterAccess::W
    } else {
        RegisterAccess::R
    }
}

/// The diagnostics of a register that declares no access mode and derives
/// from no other.
pub open spec fn inference_diagnostics(name: Seq<char>, fields: Seq<FieldView>) -> Seq<
    DiagnosticView,
> {
    if any_readable(fields) || any_writable(fields) {
        seq![DiagnosticView::RegisterAccessInferred { register_name: name }]
    } else {
        seq![
            DiagnosticView::RegisterAccessInferred { register_name: name },
            DiagnosticView::RegisterAccessUnknown { register_name: name },
        ]
    }
}

/// The width class of a register: the declared one, or that of `base`
/// where a derived register declares none. A width that is not 8, 16, 32 or
/// 64, and no width on a register that derives from no other, are errors.
pub open spec fn declared_size(reg: SvdRegister, base: BitSize) -> Result<BitSize, ParseErrorView> {
    match reg.size {
        Some(bits) => match size_class(bits) {
            Some(class) => Ok(class),
            None => Err(located(NodeKind::Register, reg.name@, msg_register_size())),
        },
        None => if reg.derived_from is Some {
            Ok(base)
        } else {
            Err(located(NodeKind::Register, reg.name@, msg_register_no_size()))
        },
    }
}

/// The reset value of a register: the declared one, or that of `base` where
/// a derived register declares none. No reset value on a register that
/// derives from no other is an error.
pub open spec fn declared_reset(reg: SvdRegister, base: u64) -> Result<u64, ParseErrorView> {
    match reg.reset_value {
        Some(value) => Ok(value),
        None => if reg.derived_from is Some {
            Ok(base)
        } else {
            Err(located(NodeKind::Register, reg.name@, msg_register_no_reset()))
        },
    }
}

/// The access mode of a register with the fields `fields`: the declared
/// one; that of `base` where a derived register declares none; inferred from
/// the fields otherwise, which is reported.
pub open spec fn declared_access(
    reg: SvdRegister,
    base: RegisterAccess,
    fields: Seq<FieldView>,
) -> (RegisterAccess, Seq<DiagnosticView>) {
    match reg.access {
        Some(access) => (register_access(access), Seq::empty()),
        None => if reg.derived_from is Some {
            (base, Seq::empty())
        } else {
            (inferred_access(fields), inference_diagnostics(reg.name@, fields))
        },
    }
}

/// The register that the declaration `reg` makes of the register `base`,
/// which is the register it derives from or an empty one, with the
/// diagnostics of the overlay. `mod_path` is the path of the module of the
/// register, the module itself last.
///
/// The declaration overrides the name, the description, the offset and the
/// repetition. The identifier of the struct is kept where `base` has one.
/// The declared fields are inserted into the fields of `base`. The width and
/// the reset value are those declared; only a derived register may leave
/// them out, and keeps those of `base`. The access mode is the declared one;
/// a derived register that declares none keeps that of `base`, another has
/// it inferred from the fields.
pub open spec fn overlaid_register(
    mod_path: Seq<Seq<char>>,
    reg: SvdRegister,
    base: RegisterView,
) -> Result<(RegisterView, Seq<DiagnosticView>), ParseErrorView> {
    match fields_overlaid(reg.fields@, base.fields) {
        Err(e) => Err(e),
        Ok((fields, field_diagnostics)) => match declared_size(reg, base.size) {
            Err(e) => Err(e),
            Ok(size) => match declared_reset(reg, base.reset_value) {
                Err(e) => Err(e),
                Ok(reset_value) => Ok(
                    (
                        RegisterView {
                            name: register_name(reg),
                            description: or_empty(reg.description),
                            offset: reg.address_offset,
                            dim: dim_of(reg.array),
                            dim_increment: dim_increment_of(reg.array),
                            access: declared_access(reg, base.access, fields).0,
                            fields,
                            size,
                            reset_value,
                            has_enumerated_fields: any_enumerated(fields),
                            is_derived_from: base.is_derived_from,
                            struct_module_path: if base.struct_id.len() == 0 {
                                parent_path(mod_path)
                            } else {
                                base.struct_module_path
                            },
                            struct_id: if base.struct_id.len() == 0 {
                                struct_ident(register_name(reg))
                            } else {
                                base.struct_id
                            },
                        },
                        field_diagnostics + declared_access(reg, base.access, fields).1,
                    ),
                ),
            },
        },
    }
}

fn has_enumeration(fields: &Vec<FieldGetterSetter>) -> (r: bool)
    ensures
        r == any_enumerated(views(fields@)),
{
    let mut i: usize = 0;
    while i < fields.len()
        invariant
            i <= fields.len(),
            forall|j: int| 0 <= j < i ==> (#[trigger] views(fields@)[j]).enum_types.len() == 0,
        decreases fields.len() - i,
    {
        if fields[i].enum_types.len() > 0 {
            proof {
                assert(views(fields@)[i as int].enum_types.len() > 0);
            }
            return true;
        }
        i += 1;
    }
    false
}

fn allows(fields: &Vec<FieldGetterSetter>, write: bool) -> (r: bool)
    ensures
        write ==> r == any_writable(views(fields@)),
        !write ==> r == any_readable(views(fields@)),
{
    let mut i: usize = 0;
    while i < fields.len()
        invariant
            i <= fields.len(),
            forall|j: int|
                0 <= j < i ==> (#[trigger] views(fields@)[j]).access != RegisterBitfieldAccess::RW,
            write ==> forall|j: int|
                0 <= j < i ==> (#[trigger] views(fields@)[j]).access != RegisterBitfieldAccess::W,
            !write ==> forall|j: int|
                0 <= j < i ==> (#[trigger] views(fields@)[j]).access != RegisterBitfieldAccess::R,
        decreases fields.len() - i,
    {
        let access = fields[i].access;
        if access == RegisterBitfieldAccess::RW || (write && access == RegisterBitfieldAccess::W)
            || (!write && access == RegisterBitfieldAccess::R) {
            proof {
                assert(views(fields@)[i as int].access == access);
            }
            return true;
        }
        i += 1;
    }
    false
}

fn register_error(reg: &SvdRegister, msg: &str) -> (e: ParseError)
    ensures
        e@ == located(NodeKind::Register, reg.name@, msg@),
{
    located_error(NodeKind::Register, reg.name.as_str(), String::from_str(msg))
}

/// Inserts the fields built from `declared`, in order, into `fields`, and
/// appends a diagnostic to `diagnostics` for each field that is skipped.
pub fn overlay_fields(
    declared: &Vec<SvdField>,
    fields: &mut Vec<FieldGetterSetter>,
    diagnostics: &mut Vec<Diagnostic>,
) -> (r: Result<(), ParseError>)
    ensures
        match r {
            Ok(()) => fields_overlaid(declared@, views(old(fields)@)) matches Ok(
                (built, reported),
            ) && views(final(fields)@) == built && views(final(diagnostics)@) == views(
                old(diagnostics)@,
            ) + reported,
            Err(e) => fields_overlaid(declared@, views(old(fields)@)) == Err::<
                (Seq<FieldView>, Seq<DiagnosticView>),
                ParseErrorView,
            >(e@),
        },
{
    let ghost start = views(fields@);
    let ghost before = views(diagnostics@);
    let ghost reported: Seq<DiagnosticView> = Seq::empty();
    let mut i: usize = 0;
    proof {
        assert(declared@.take(0).len() == 0);
        assert(before + reported =~= before);
    }
    while i < declared.len()
        invariant
            i <= declared.len(),
            start == views(old(fields)@),
            fields_overlaid(declared@.take(i as int), start) == Ok::<
                (Seq<FieldView>, Seq<DiagnosticView>),
                ParseErrorView,
            >((views(fields@), reported)),
            views(diagnostics@) == before + reported,
        decreases declared.len() - i,
    {
        proof {
            let s = declared@;
            assert(s.take(i + 1).drop_last() =~= s.take(i as int));
            assert(s.take(i + 1).last() == s[i as int]);
        }
        let ghost diagnostics_before = views(diagnostics@);
        match build_field(&declared[i]) {
            Err(e) => {
                proof {
                    assert(fields_overlaid(declared@.take(i + 1), start) == Err::<
                        (Seq<FieldView>, Seq<DiagnosticView>),
                        ParseErrorView,
                    >(e@));
                    lemma_fields_overlaid_error(declared@, start, i + 1);
                }
                return Err(e);
            },
            Ok(None) => {
                diagnostics.push(
                    Diagnostic::FieldWithoutAccess { field_name: declared[i].name.clone() },
                );
                proof {
                    let d = DiagnosticView::FieldWithoutAccess {
                        field_name: declared@[i as int].name@,
                    };
                    assert(views(diagnostics@) =~= diagnostics_before.push(d));
                    assert(diagnostics_before.push(d) =~= before + reported.push(d));
                    reported = reported.push(d);
                }
            },
            Ok(Some(field)) => {
                upsert(fields, field);
            },
        }
        i += 1;
    }
    proof {
        assert(declared@.take(declared@.len() as int) =~= declared@);
    }
    Ok(())
}

fn size_of_register(reg: &SvdRegister, base: BitSize) -> (r: Result<BitSize, ParseError>)
    ensures
        match r {
            Ok(size) => declared_size(*reg, base) == Ok::<BitSize, ParseErrorView>(size),
            Err(e) => declared_size(*reg, base) == Err::<BitSize, ParseErrorView>(e@),
        },
{
    match reg.size {
        Some(bits) => {
            if bits == 64 {
                Ok(BitSize::BIT64)
            } else if bits == 32 {
                Ok(BitSize::BIT32)
            } else if bits == 16 {
                Ok(BitSize::BIT16)
            } else if bits == 8 {
                Ok(BitSize::BIT8)
            } else {
                Err(register_error(reg, "Unsupported register size"))
            }
        },
        None => {
            if reg.derived_from.is_some() {
                Ok(base)
            } else {
                Err(register_error(reg, "The register is not derived and has no specified size"))
            }
        },
    }
}

fn reset_of_register(reg: &SvdRegister, base: u64) -> (r: Result<u64, ParseError>)
    ensures
        match r {
            Ok(value) => declared_reset(*reg, base) == Ok::<u64, ParseErrorView>(value),
            Err(e) => declared_reset(*reg, base) == Err::<u64, ParseErrorView>(e@),
        },
{
    match reg.reset_value {
        Some(value) => Ok(value),
        None => {
            if reg.derived_from.is_some() {
                Ok(base)
            } else {
                Err(
                    register_error(
                        reg,
                        "The register is not derived and has no specified reset value",
                    ),
                )
            }
        },
    }
}

fn access_of_register(
    reg: &SvdRegister,
    base: RegisterAccess,
    fields: &Vec<FieldGetterSetter>,
    diagnostics: &mut Vec<Diagnostic>,
) -> (r: RegisterAccess)
    ensures
        r == declared_access(*reg, base, views(fields@)).0,
        views(final(diagnostics)@) == views(old(diagnostics)@) + declared_access(
            *reg,
            base,
            views(fields@),
        ).1,
{
    let ghost before = views(diagnostics@);
    proof {
        assert(before + Seq::<DiagnosticView>::empty() =~= before);
    }
    match reg.access {
        Some(SvdAccess::ReadOnly) => RegisterAccess::R,
        Some(SvdAccess::WriteOnly) => RegisterAccess::W,
        Some(SvdAccess::ReadWrite) => RegisterAccess::RW,
        Some(SvdAccess::WriteOnce) => RegisterAccess::W,
        Some(SvdAccess::ReadWriteOnce) => RegisterAccess::RW,
        None => {
            if reg.derived_from.is_some() {
                base
            } else {
                diagnostics.push(
                    Diagnostic::RegisterAccessInferred { register_name: reg.name.clone() },
                );
                let writable = allows(fields, true);
                let readable = allows(fields, false);
                let access = if readable && writable {
                    RegisterAccess::RW
                } else if writable {
                    RegisterAccess::W
                } else if readable {
                    RegisterAccess::R
                } else {
                    diagnostics.push(
                        Diagnostic::RegisterAccessUnknown { register_name: reg.name.clone() },
                    );
                    RegisterAccess::R
                };
                proof {
                    assert(views(diagnostics@) =~= before + inference_diagnostics(
                        reg.name@,
                        views(fields@),
                    ));
                }
                access
            }
        },
    }
}

/// Overlays the declaration `reg` on `register`, which holds the register
/// it derives from or an empty one, and appends the diagnostics of the
/// overlay to `diagnostics`. `mod_path` is the path of the module of the
/// register, the module itself last.
pub fn overlay_register(
    mod_path: &Vec<String>,
    reg: &SvdRegister,
    register: &mut Register,
    diagnostics: &mut Vec<Diagnostic>,
) -> (r: Result<(), ParseError>)
    ensures
        match r {
            Ok(()) => overlaid_register(texts(mod_path@), *reg, old(register)@) matches Ok(
                (built, reported),
            ) && final(register)@ == built && views(final(diagnostics)@) == views(
                old(diagnostics)@,
            ) + reported,
            Err(e) => overlaid_register(texts(mod_path@), *reg, old(register)@) == Err::<
                (RegisterView, Seq<DiagnosticView>),
                ParseErrorView,
            >(e@),
        },
{
    let ghost base = register@;
    let ghost before = views(diagnostics@);
    register.name = get_name_id_internal(reg);
    register.description = clone_or_empty(&reg.description);
    register.offset = reg.address_offset;
    let (dim, dim_increment) = get_dim_dim_increment(&reg.array);
    register.dim = dim;
    register.dim_increment = dim_increment;
    if register.struct_id.as_str().is_empty() {
        register.struct_module_path = parent_of(mod_path);
        register.struct_id = register.name.as_str().to_sanitized_struct_ident();
    }
    match overlay_fields(&reg.fields, &mut register.fields, diagnostics) {
        Err(e) => {
            return Err(e);
        },
        Ok(()) => {},
    }
    let ghost field_diagnostics = fields_overlaid(reg.fields@, base.fields)->Ok_0.1;
    match size_of_register(reg, register.size) {
        Err(e) => {
            return Err(e);
        },
        Ok(size) => {
            register.size = size;
        },
    }
    match reset_of_register(reg, register.reset_value) {
        Err(e) => {
            return Err(e);
        },
        Ok(value) => {
            register.reset_value = value;
        },
    }
    register.has_enumerated_fields = has_enumeration(&register.fields);
    register.access = access_of_register(reg, register.access, &register.fields, diagnostics);
    proof {
        let access_diagnostics = declared_access(*reg, base.access, views(register.fields@)).1;
        assert(views(diagnostics@) =~= before + (field_diagnostics + access_diagnostics));
    }
    Ok(())
}

} // verus!
