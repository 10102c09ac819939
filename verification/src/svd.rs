//! The description tree that the engine reads: a device, its peripherals,
//! their clusters and registers, the bitfields of the registers and their
//! enumerations, as a parser of the description format hands them over.
//!
//! A node is an array when it carries a [`DimElement`]; a node without one
//! behaves as an array of one element with no increment.
use crate::error::{located, located_error, msg_empty_array, NodeKind, ParseError, ParseErrorView};
use crate::ir::opt_text;
use crate::text::texts;
use svd_parser::svd;
use vstd::prelude::*;
use vstd::string::StringExecFns;

verus! {

/// The access modes that the description format knows.
#[derive(Clone, Copy, Debug, PartialEq, Eq, Structural)]
pub enum SvdAccess {
    ReadOnly,
    WriteOnly,
    ReadWrite,
    WriteOnce,
    ReadWriteOnce,
}

/// The uses of an enumeration that the description format knows.
#[derive(Clone, Copy, Debug, PartialEq, Eq, Structural)]
pub enum SvdUsage {
    Read,
    Write,
    ReadWrite,
}

/// One name of the enumeration of the indexes of an array.
#[derive(Clone, Debug, PartialEq, Eq)]
pub struct DimArrayValue {
    pub name: String,
    /// The index that the name stands for.
    pub value: Option<u64>,
}

/// The repetition of a node as an array.
#[derive(Clone, Debug, PartialEq, Eq)]
pub struct DimElement {
    /// The number of instances.
    pub dim: u32,
    /// The distance in the address map between two neighbouring instances.
    pub dim_increment: u32,
    /// The texts that replace the placeholder in the name of each instance;
    /// where there are none, the instances are numbered from 0.
    pub dim_index: Option<Vec<String>>,
    /// The enumeration of the indexes, where the description gives one: an
    /// instance whose index has a name there is called by that name.
    pub dim_array_index: Option<Vec<DimArrayValue>>,
}

/// One value of an enumeration.
#[derive(Clone, Debug, PartialEq, Eq)]
pub struct SvdEnumeratedValue {
    pub name: String,
    pub description: Option<String>,
    pub value: Option<u64>,
}

/// One enumeration block of a bitfield.
#[derive(Clone, Debug, PartialEq, Eq)]
pub struct SvdEnumeratedValues {
    pub name: Option<String>,
    pub usage: Option<SvdUsage>,
    pub derived_from: Option<String>,
    pub values: Vec<SvdEnumeratedValue>,
}

/// A bitfield.
#[derive(Clone, Debug, PartialEq, Eq)]
pub struct SvdField {
    pub name: String,
    pub description: Option<String>,
    /// The position of the lowest bit.
    pub bit_offset: u32,
    /// The number of bits.
    pub bit_width: u32,
    pub access: Option<SvdAccess>,
    pub enumerated_values: Vec<SvdEnumeratedValues>,
    pub derived_from: Option<String>,
    pub array: Option<DimElement>,
}

/// A register.
#[derive(Clone, Debug, PartialEq, Eq)]
pub struct SvdRegister {
    pub name: String,
    pub alternate_group: Option<String>,
    pub description: Option<String>,
    pub address_offset: u32,
    /// The width in bits.
    pub size: Option<u32>,
    pub reset_value: Option<u64>,
    pub access: Option<SvdAccess>,
    pub fields: Vec<SvdField>,
    pub derived_from: Option<String>,
    pub array: Option<DimElement>,
}

/// A cluster of registers and clusters.
#[derive(Debug, PartialEq, Eq)]
pub struct SvdCluster {
    pub name: String,
    pub description: Option<String>,
    pub header_struct_name: Option<String>,
    pub address_offset: u32,
    pub children: Vec<SvdRegisterCluster>,
    pub derived_from: Option<String>,
    pub array: Option<DimElement>,
}

/// A child of a peripheral or of a cluster.
#[derive(Debug, PartialEq, Eq)]
pub enum SvdRegisterCluster {
    Register(SvdRegister),
    Cluster(SvdCluster),
}

/// An interrupt of a peripheral.
#[derive(Clone, Debug, PartialEq, Eq)]
pub struct SvdInterrupt {
    pub name: String,
    pub description: Option<String>,
    pub value: u32,
}

/// A peripheral.
#[derive(Debug, PartialEq, Eq)]
pub struct SvdPeripheral {
    pub name: String,
    pub description: Option<String>,
    pub header_struct_name: Option<String>,
    pub base_address: u64,
    pub interrupt: Vec<SvdInterrupt>,
    /// The children; `None` where the description has no group of registers.
    pub registers: Option<Vec<SvdRegisterCluster>>,
    pub derived_from: Option<String>,
    pub array: Option<DimElement>,
}

/// What the description says of the processor.
#[derive(Clone, Copy, Debug, PartialEq, Eq)]
pub struct SvdCpu {
    pub nvic_priority_bits: u32,
    pub has_vendor_systick: bool,
    pub fpu_present: bool,
    pub mpu_present: bool,
}

/// A device.
#[derive(Debug, PartialEq, Eq)]
pub struct SvdDevice {
    pub name: String,
    pub description: String,
    pub version: String,
    pub license_text: Option<String>,
    pub cpu: Option<SvdCpu>,
    pub peripherals: Vec<SvdPeripheral>,
}

/// The views of an optional list of strings.
pub open spec fn opt_texts(o: Option<Vec<String>>) -> Option<Seq<Seq<char>>> {
    match o {
        Some(v) => Some(texts(v@)),
        None => None,
    }
}

/// The number of instances of a node.
pub open spec fn dim_of(array: Option<DimElement>) -> u32 {
    match array {
        Some(d) => d.dim,
        None => 1,
    }
}

/// The distance between two neighbouring instances of a node.
pub open spec fn dim_increment_of(array: Option<DimElement>) -> u32 {
    match array {
        Some(d) => d.dim_increment,
        None => 0,
    }
}

/// The number of instances of a node and the distance between two of them:
/// `(1, 0)` for a node that is no array.
pub fn get_dim_dim_increment(array: &Option<DimElement>) -> (r: (u32, u32))
    ensures
        r.0 == dim_of(*array),
        r.1 == dim_increment_of(*array),
{
    match array {
        None => (1, 0),
        Some(dim_element) => (dim_element.dim, dim_element.dim_increment),
    }
}

/// The names of an enumeration of indexes, each with the index it stands
/// for.
pub open spec fn index_names(o: Option<Vec<DimArrayValue>>) -> Option<Seq<(Seq<char>, Option<u64>)>> {
    match o {
        Some(v) => Some(v@.map_values(|e: DimArrayValue| (e.name@, e.value))),
        None => None,
    }
}

/// What `svd_rs::array::names` gives first for a node called `name` that is
/// repeated `dim` times with the index texts `dim_index` and the enumeration
/// of indexes `dim_array_index`: the name of the first instance of the
/// array.
pub uninterp spec fn first_array_name(
    name: Seq<char>,
    dim: u32,
    dim_index: Option<Seq<Seq<char>>>,
    dim_array_index: Option<Seq<(Seq<char>, Option<u64>)>>,
) -> Option<Seq<char>>;

/// `svd_rs::array::names`, asked for its first item: the name of the first
/// instance of an array, made from `name` by the expansion rule of the
/// description format, or nothing where the array has no instance. The
/// result depends on the arguments alone; nothing more is claimed of it.
#[verifier::external_body]
fn array_first_name(name: &str, d: &DimElement) -> (r: Option<String>)
    ensures
        opt_text(r) == first_array_name(
            name@,
            d.dim,
            opt_texts(d.dim_index),
            index_names(d.dim_array_index),
        ),
{
    let level = svd::ValidateLevel::Disabled;
    let info = svd::EnumeratedValue::builder().name(name.to_string()).build(level).ok()?;
    let names = d.dim_array_index.as_ref().map(|v| svd::DimArrayIndex {
        header_enum_name: None,
        values: v.iter().map(|e| svd::EnumeratedValue::builder().name(e.name.clone()).value(
            e.value,
        ).build(level).unwrap()).collect(),
    });
    let dim = svd::DimElement::builder().dim(d.dim).dim_increment(0).dim_index(
        d.dim_index.clone(),
    ).dim_array_index(names).build(level).ok()?;
    let first = svd::array::names(&info, &dim).next();
    first
}

/// The name under which a node is known to the nodes that derive from it:
/// its own name, or the name of its first instance where it is an array. An
/// array of size 0 has no first instance, which is an error.
pub open spec fn expanded_name(kind: NodeKind, name: Seq<char>, array: Option<DimElement>) -> Result<
    Seq<char>,
    ParseErrorView,
> {
    match array {
        None => Ok(name),
        Some(d) => if d.dim == 0 {
            Err(located(kind, name, msg_empty_array()))
        } else {
            match first_array_name(
                name,
                d.dim,
                opt_texts(d.dim_index),
                index_names(d.dim_array_index),
            ) {
                Some(first) => Ok(first),
                None => Err(located(kind, name, msg_empty_array())),
            }
        },
    }
}

/// A node that other nodes can derive from.
pub trait ExpandedName {
    /// The kind of the node.
    spec fn node_kind(&self) -> NodeKind;

    /// The name of the node as declared.
    spec fn node_name(&self) -> Seq<char>;

    /// The repetition of the node, where it is an array.
    spec fn node_array(&self) -> Option<DimElement>;

    /// The name of the node as declared.
    fn name(&self) -> (r: &String)
        ensures
            r@ == self.node_name(),
    ;

    /// The name to write in `derivedFrom` to derive from this node: the name
    /// after array expansion, which for an array is the name of its first
    /// instance. An array without a first instance has none, which is an
    /// error.
    fn get_expanded_name(&self) -> (r: Result<String, ParseError>)
        ensures
            match r {
                Ok(n) => expanded_name(self.node_kind(), self.node_name(), self.node_array())
                    == Ok::<Seq<char>, ParseErrorView>(n@),
                Err(e) => expanded_name(self.node_kind(), self.node_name(), self.node_array())
                    == Err::<Seq<char>, ParseErrorView>(e@),
            },
            (self.node_array() matches Some(d) && d.dim == 0) ==> r is Err,
            self.node_array() is None ==> r is Ok,
    ;
}

/// The expanded name of a node of kind `kind` called `name`.
fn expand_name(kind: NodeKind, name: &String, array: &Option<DimElement>) -> (r: Result<
    String,
    ParseError,
>)
    ensures
        match r {
            Ok(n) => expanded_name(kind, name@, *array) == Ok::<Seq<char>, ParseErrorView>(n@),
            Err(e) => expanded_name(kind, name@, *array) == Err::<Seq<char>, ParseErrorView>(e@),
        },
        (*array matches Some(d) && d.dim == 0) ==> r is Err,
        *array is None ==> r is Ok,
{
    match array {
        None => Ok(name.clone()),
        Some(d) => {
            let first = if d.dim == 0 {
                None
            } else {
                array_first_name(name.as_str(), d)
            };
            match first {
                Some(first) => Ok(first),
                None => Err(
                    located_error(
                        kind,
                        name.as_str(),
                        String::from_str("Array of size 0 is not allowed"),
                    ),
                ),
            }
        },
    }
}

impl ExpandedName for SvdCluster {
    open spec fn node_kind(&self) -> NodeKind {
        NodeKind::Cluster
    }

    open spec fn node_name(&self) -> Seq<char> {
        self.name@
    }

    open spec fn node_array(&self) -> Option<DimElement> {
        self.array
    }

    fn name(&self) -> (r: &String) {
        &self.name
    }

    fn get_expanded_name(&self) -> (r: Result<String, ParseError>) {
        expand_name(NodeKind::Cluster, &self.name, &self.array)
    }
}

impl ExpandedName for SvdRegister {
    open spec fn node_kind(&self) -> NodeKind {
        NodeKind::Register
    }

    open spec fn node_name(&self) -> Seq<char> {
        self.name@
    }

    open spec fn node_array(&self) -> Option<DimElement> {
        self.array
    }

    fn name(&self) -> (r: &String) {
        &self.name
    }

    fn get_expanded_name(&self) -> (r: Result<String, ParseError>) {
        expand_name(NodeKind::Register, &self.name, &self.array)
    }
}

impl ExpandedName for SvdPeripheral {
    open spec fn node_kind(&self) -> NodeKind {
        NodeKind::Peripheral
    }

    open spec fn node_name(&self) -> Seq<char> {
        self.name@
    }

    open spec fn node_array(&self) -> Option<DimElement> {
        self.array
    }

    fn name(&self) -> (r: &String) {
        &self.name
    }

    fn get_expanded_name(&self) -> (r: Result<String, ParseError>) {
        expand_name(NodeKind::Peripheral, &self.name, &self.array)
    }
}

/// A node that may name the struct generated for it.
pub trait HeaderStructName {
    /// The name of the struct, where the node gives one.
    spec fn header(&self) -> Option<Seq<char>>;

    /// The name of the struct, where the node gives one.
    fn header_struct_name(&self) -> (r: Option<String>)
        ensures
            opt_text(r) == self.header(),
    ;
}

impl HeaderStructName for SvdPeripheral {
    open spec fn header(&self) -> Option<Seq<char>> {
        opt_text(self.header_struct_name)
    }

    fn header_struct_name(&self) -> (r: Option<String>) {
        crate::ir::clone_opt_string(&self.header_struct_name)
    }
}

impl HeaderStructName for SvdCluster {
    open spec fn header(&self) -> Option<Seq<char>> {
        opt_text(self.header_struct_name)
    }

    fn header_struct_name(&self) -> (r: Option<String>) {
        crate::ir::clone_opt_string(&self.header_struct_name)
    }
}

impl HeaderStructName for SvdRegister {
    open spec fn header(&self) -> Option<Seq<char>> {
        None
    }

    fn header_struct_name(&self) -> (r: Option<String>) {
        None
    }
}

} // verus!
