//! What the resolution engine reports: the fatal errors that end a build, and
//! the diagnostics that a build goes on after.
use vstd::prelude::*;
use vstd::string::StringExecFns;

verus! {

/// A fatal error: the place in the description where it was found, and its
/// cause.
#[derive(Debug, Clone, PartialEq, Eq)]
pub enum ParseError {
    InvalidPeripheral { peripheral_name: String, msg: String },
    InvalidRegister { register_name: String, msg: String },
    InvalidCluster { cluster_name: String, msg: String },
    InvalidField { field_name: String, msg: String },
    Unsupported(String),
}

/// The view of a [`ParseError`].
pub enum ParseErrorView {
    InvalidPeripheral { peripheral_name: Seq<char>, msg: Seq<char> },
    InvalidRegister { register_name: Seq<char>, msg: Seq<char> },
    InvalidCluster { cluster_name: Seq<char>, msg: Seq<char> },
    InvalidField { field_name: Seq<char>, msg: Seq<char> },
    Unsupported(Seq<char>),
}

impl View for ParseError {
    type V = ParseErrorView;

    open spec fn view(&self) -> ParseErrorView {
        match self {
            ParseError::InvalidPeripheral { peripheral_name, msg } => {
                ParseErrorView::InvalidPeripheral { peripheral_name: peripheral_name@, msg: msg@ }
            },
            ParseError::InvalidRegister { register_name, msg } => {
                ParseErrorView::InvalidRegister { register_name: register_name@, msg: msg@ }
            },
            ParseError::InvalidCluster { cluster_name, msg } => {
                ParseErrorView::InvalidCluster { cluster_name: cluster_name@, msg: msg@ }
            },
            ParseError::InvalidField { field_name, msg } => {
                ParseErrorView::InvalidField { field_name: field_name@, msg: msg@ }
            },
            ParseError::Unsupported(msg) => ParseErrorView::Unsupported(msg@),
        }
    }
}

/// The kinds of node that a fatal error can be located at.
#[derive(Clone, Copy, Debug, PartialEq, Eq, Structural)]
pub enum NodeKind {
    Peripheral,
    Cluster,
    Register,
    Field,
}

/// The error that names a node of kind `kind` called `name`, with the cause
/// `msg`.
pub open spec fn located(kind: NodeKind, name: Seq<char>, msg: Seq<char>) -> ParseErrorView {
    match kind {
        NodeKind::Peripheral => ParseErrorView::InvalidPeripheral { peripheral_name: name, msg },
        NodeKind::Cluster => ParseErrorView::InvalidCluster { cluster_name: name, msg },
        NodeKind::Register => ParseErrorView::InvalidRegister { register_name: name, msg },
        NodeKind::Field => ParseErrorView::InvalidField { field_name: name, msg },
    }
}

/// The error that names a node of kind `kind` called `name`, with the cause
/// `msg`.
pub fn located_error(kind: NodeKind, name: &str, msg: String) -> (e: ParseError)
    ensures
        e@ == located(kind, name@, msg@),
{
    match kind {
        NodeKind::Peripheral => ParseError::InvalidPeripheral {
            peripheral_name: String::from_str(name),
            msg,
        },
        NodeKind::Cluster => ParseError::InvalidCluster {
            cluster_name: String::from_str(name),
            msg,
        },
        NodeKind::Register => ParseError::InvalidRegister {
            register_name: String::from_str(name),
            msg,
        },
        NodeKind::Field => ParseError::InvalidField { field_name: String::from_str(name), msg },
    }
}

/// Cause: an array was declared with no element.
pub open spec fn msg_empty_array() -> Seq<char> {
    "Array of size 0 is not allowed"@
}

/// Cause: the node named by `derivedFrom` has not been built.
pub open spec fn msg_missing_reference(reference: Seq<char>) -> Seq<char> {
    "Missing reference "@ + reference
}

/// Cause: the node named by `derivedFrom` is of another kind.
pub open spec fn msg_wrong_reference(reference: Seq<char>) -> Seq<char> {
    "Reference to a node of another kind: "@ + reference
}

/// Cause: a bitfield declares `derivedFrom`.
pub open spec fn msg_field_derived() -> Seq<char> {
    "derivedFrom is not supported in a field"@
}

/// Cause: the width of a bitfield is not between 1 and 32.
pub open spec fn msg_field_width() -> Seq<char> {
    "The bit width of a field shall be between 1 and 32"@
}

/// Cause: an enumeration declares `derivedFrom`.
pub open spec fn msg_enum_derived() -> Seq<char> {
    "derivedFrom is not supported in enumerated values"@
}

/// Cause: a value of an enumeration has no name.
pub open spec fn msg_enum_value_unnamed() -> Seq<char> {
    "A value of an enumeration shall have a name"@
}

/// Cause: a value of an enumeration has no number.
pub open spec fn msg_enum_value_missing() -> Seq<char> {
    "Default values are not supported: every value of an enumeration shall be defined"@
}

/// Cause: a bitfield declares more than two enumerations.
pub open spec fn msg_enum_too_many() -> Seq<char> {
    "Only up to two enumerations are supported"@
}

/// Cause: a bitfield declares two enumerations that are not one for reading
/// and one for writing.
pub open spec fn msg_enum_usage() -> Seq<char> {
    "If two enumerations are defined, one shall be read and the other write"@
}

/// Cause: the width of a register is not 8, 16, 32 or 64.
pub open spec fn msg_register_size() -> Seq<char> {
    "Unsupported register size"@
}

/// Cause: a register that derives from no other declares no width.
pub open spec fn msg_register_no_size() -> Seq<char> {
    "The register is not derived and has no specified size"@
}

/// Cause: a register that derives from no other declares no reset value.
pub open spec fn msg_register_no_reset() -> Seq<char> {
    "The register is not derived and has no specified reset value"@
}

/// Cause: an address does not fit in 64 bits.
pub open spec fn msg_address_range() -> Seq<char> {
    "An address does not fit in 64 bits"@
}

/// Cause: the slot of an interrupt cannot index a table.
pub open spec fn msg_interrupt_range() -> Seq<char> {
    "The slot of an interrupt is out of range"@
}

/// Something that was found wanting in the description, after which the
/// build goes on with a safe default.
#[derive(Debug, Clone, PartialEq, Eq)]
pub enum Diagnostic {
    /// A bitfield declares no access mode: it is skipped.
    FieldWithoutAccess { field_name: String },
    /// A register declares no access mode: it is inferred from the bitfields.
    RegisterAccessInferred { register_name: String },
    /// No bitfield of the register gives an access mode: it is read-only.
    RegisterAccessUnknown { register_name: String },
    /// A slot has been given to an interrupt before: the later one stays.
    DuplicateInterrupt { value: u32 },
    /// Neither the description nor the caller gives a license text: it is
    /// empty.
    MissingLicense,
}

/// The view of a [`Diagnostic`].
pub enum DiagnosticView {
    FieldWithoutAccess { field_name: Seq<char> },
    RegisterAccessInferred { register_name: Seq<char> },
    RegisterAccessUnknown { register_name: Seq<char> },
    DuplicateInterrupt { value: u32 },
    MissingLicense,
}

impl View for Diagnostic {
    type V = DiagnosticView;

    open spec fn view(&self) -> DiagnosticView {
        match self {
            Diagnostic::FieldWithoutAccess { field_name } => DiagnosticView::FieldWithoutAccess {
                field_name: field_name@,
            },
            Diagnostic::RegisterAccessInferred { register_name } => {
                DiagnosticView::RegisterAccessInferred { register_name: register_name@ }
            },
            Diagnostic::RegisterAccessUnknown { register_name } => {
                DiagnosticView::RegisterAccessUnknown { register_name: register_name@ }
            },
            Diagnostic::DuplicateInterrupt { value } => DiagnosticView::DuplicateInterrupt {
                value: *value,
            },
            Diagnostic::MissingLicense => DiagnosticView::MissingLicense,
        }
    }
}

} // verus!
