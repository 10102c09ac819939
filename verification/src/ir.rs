//! The resolved model of a device: the data that the resolution engine
//! produces, with the mathematical view of each entity.
use crate::ordered::{views, Keyed, Named};
use crate::text::{clone_strings, same_strings, texts};
use vstd::prelude::*;

verus! {

/// A numeric width class.
#[derive(Clone, Copy, Debug, PartialEq, Eq, Structural)]
pub enum BitSize {
    BIT64,
    BIT32,
    BIT16,
    BIT8,
}

impl BitSize {
    /// The number of bits of the class.
    pub open spec fn bits(self) -> nat {
        match self {
            BitSize::BIT64 => 64,
            BitSize::BIT32 => 32,
            BitSize::BIT16 => 16,
            BitSize::BIT8 => 8,
        }
    }

    /// Whether a value of this class can hold `val`.
    pub open spec fn contains(self, val: u64) -> bool {
        match self {
            BitSize::BIT64 => true,
            BitSize::BIT32 => val <= 0xFFFF_FFFF,
            BitSize::BIT16 => val <= 0xFFFF,
            BitSize::BIT8 => val <= 0xFF,
        }
    }

    /// The smallest class that contains `val`.
    pub open spec fn of(val: u64) -> BitSize {
        if val <= 0xFF {
            BitSize::BIT8
        } else if val <= 0xFFFF {
            BitSize::BIT16
        } else if val <= 0xFFFF_FFFF {
            BitSize::BIT32
        } else {
            BitSize::BIT64
        }
    }

    /// The smallest width class that contains `val`.
    pub fn val_2_bit_size(val: u64) -> (r: BitSize)
        ensures
            r == BitSize::of(val),
            r.contains(val),
            forall|other: BitSize| other.contains(val) ==> r.bits() <= other.bits(),
    {
        if val <= 0xFF {
            BitSize::BIT8
        } else if val <= 0xFFFF {
            BitSize::BIT16
        } else if val <= 0xFFFF_FFFF {
            BitSize::BIT32
        } else {
            BitSize::BIT64
        }
    }
}

impl Default for BitSize {
    fn default() -> (r: Self)
        ensures
            r == BitSize::BIT32,
    {
        BitSize::BIT32
    }
}

/// The access mode of a register.
#[derive(Clone, Copy, Debug, PartialEq, Eq, Structural)]
pub enum RegisterAccess {
    R,
    W,
    RW,
}

impl Default for RegisterAccess {
    fn default() -> (r: Self)
        ensures
            r == RegisterAccess::R,
    {
        RegisterAccess::R
    }
}

/// The access mode of a bitfield.
#[derive(Clone, Copy, Debug, PartialEq, Eq, Structural)]
pub enum RegisterBitfieldAccess {
    R,
    W,
    RW,
}

impl Default for RegisterBitfieldAccess {
    fn default() -> (r: Self)
        ensures
            r == RegisterBitfieldAccess::R,
    {
        RegisterBitfieldAccess::R
    }
}

/// What an enumeration of values is used for.
#[derive(Clone, Copy, Debug, PartialEq, Eq, Structural)]
pub enum EnumeratedValueUsage {
    Read,
    Write,
    ReadWrite,
}

/// The view of an optional string.
pub open spec fn opt_text(o: Option<String>) -> Option<Seq<char>> {
    match o {
        Some(s) => Some(s@),
        None => None,
    }
}

/// A copy of an optional string.
pub fn clone_opt_string(o: &Option<String>) -> (r: Option<String>)
    ensures
        opt_text(r) == opt_text(*o),
{
    match o {
        Some(s) => Some(s.clone()),
        None => None,
    }
}

/// Whether two optional strings hold the same text.
pub fn same_opt_string(a: &Option<String>, b: &Option<String>) -> (r: bool)
    ensures
        r == (opt_text(*a) == opt_text(*b)),
{
    match (a, b) {
        (Some(x), Some(y)) => *x == *y,
        (None, None) => true,
        _ => false,
    }
}

/// An entity whose equality is decided over its view.
pub trait SameAs: View + Sized {
    /// Whether `self` and `other` have the same view.
    fn same_as(&self, other: &Self) -> (r: bool)
        ensures
            r == (self@ == other@),
    ;
}

/// Whether two vectors hold entities of the same views in the same order.
pub fn same_all<T: SameAs>(a: &Vec<T>, b: &Vec<T>) -> (r: bool)
    ensures
        r == (views(a@) == views(b@)),
{
    if a.len() != b.len() {
        proof {
            assert(views(a@).len() != views(b@).len());
        }
        return false;
    }
    let mut i: usize = 0;
    while i < a.len()
        invariant
            a.len() == b.len(),
            i <= a.len(),
            forall|j: int| 0 <= j < i ==> a@[j]@ == b@[j]@,
        decreases a.len() - i,
    {
        if !a[i].same_as(&b[i]) {
            proof {
                assert(views(a@)[i as int] == a@[i as int]@);
                assert(views(b@)[i as int] == b@[i as int]@);
            }
            return false;
        }
        i += 1;
    }
    proof {
        assert(views(a@) =~= views(b@));
    }
    true
}

/// One named value of an enumeration.
#[derive(Debug, PartialEq)]
pub struct EnumeratedSingleValue {
    pub name: String,
    pub value: u64,
    pub description: String,
}

/// The view of an [`EnumeratedSingleValue`].
pub struct EnumeratedSingleValueView {
    pub name: Seq<char>,
    pub value: u64,
    pub description: Seq<char>,
}

impl View for EnumeratedSingleValue {
    type V = EnumeratedSingleValueView;

    open spec fn view(&self) -> EnumeratedSingleValueView {
        EnumeratedSingleValueView {
            name: self.name@,
            value: self.value,
            description: self.description@,
        }
    }
}

impl Clone for EnumeratedSingleValue {
    fn clone(&self) -> (r: Self)
        ensures
            r@ == self@,
    {
        EnumeratedSingleValue {
            name: self.name.clone(),
            value: self.value,
            description: self.description.clone(),
        }
    }
}

impl SameAs for EnumeratedSingleValue {
    fn same_as(&self, other: &Self) -> (r: bool) {
        self.name == other.name && self.value == other.value && self.description
            == other.description
    }
}

/// An enumeration of the values of a bitfield.
#[derive(Debug, PartialEq)]
pub struct EnumeratedValueType {
    pub name: String,
    pub usage: EnumeratedValueUsage,
    /// The smallest width class that contains every value.
    pub size: BitSize,
    pub values: Vec<EnumeratedSingleValue>,
}

/// The view of an [`EnumeratedValueType`].
pub struct EnumeratedValueTypeView {
    pub name: Seq<char>,
    pub usage: EnumeratedValueUsage,
    pub size: BitSize,
    pub values: Seq<EnumeratedSingleValueView>,
}

impl View for EnumeratedValueType {
    type V = EnumeratedValueTypeView;

    open spec fn view(&self) -> EnumeratedValueTypeView {
        EnumeratedValueTypeView {
            name: self.name@,
            usage: self.usage,
            size: self.size,
            values: views(self.values@),
        }
    }
}

impl Clone for EnumeratedValueType {
    fn clone(&self) -> (r: Self)
        ensures
            r@ == self@,
    {
        let values = self.values.clone();
        proof {
            assert(views(values@) =~= views(self.values@));
        }
        EnumeratedValueType {
            name: self.name.clone(),
            usage: self.usage,
            size: self.size,
            values,
        }
    }
}

impl SameAs for EnumeratedValueType {
    fn same_as(&self, other: &Self) -> (r: bool) {
        self.name == other.name && self.usage == other.usage && self.size == other.size
            && same_all(&self.values, &other.values)
    }
}

/// A bitfield of a register.
#[derive(Debug, PartialEq)]
pub struct FieldGetterSetter {
    pub name: String,
    pub description: String,
    /// The position of the lowest bit.
    pub offset: u32,
    /// The mask of the field, not shifted: as many ones as the field is wide.
    pub mask: u32,
    /// The smallest width class that contains the mask.
    pub size: BitSize,
    /// The enumerations declared for the field: none, one, or one for
    /// reading and one for writing.
    pub enum_types: Vec<EnumeratedValueType>,
    /// The name of the enumeration used for writing, if there is one.
    pub enum_type_write: Option<String>,
    /// The name of the enumeration used for reading, if there is one.
    pub enum_type_read: Option<String>,
    pub access: RegisterBitfieldAccess,
    pub dim: u32,
    pub dim_increment: u32,
}

/// The view of a [`FieldGetterSetter`].
pub struct FieldView {
    pub name: Seq<char>,
    pub description: Seq<char>,
    pub offset: u32,
    pub mask: u32,
    pub size: BitSize,
    pub enum_types: Seq<EnumeratedValueTypeView>,
    pub enum_type_write: Option<Seq<char>>,
    pub enum_type_read: Option<Seq<char>>,
    pub access: RegisterBitfieldAccess,
    pub dim: u32,
    pub dim_increment: u32,
}

impl View for FieldGetterSetter {
    type V = FieldView;

    open spec fn view(&self) -> FieldView {
        FieldView {
            name: self.name@,
            description: self.description@,
            offset: self.offset,
            mask: self.mask,
            size: self.size,
            enum_types: views(self.enum_types@),
            enum_type_write: opt_text(self.enum_type_write),
            enum_type_read: opt_text(self.enum_type_read),
            access: self.access,
            dim: self.dim,
            dim_increment: self.dim_increment,
        }
    }
}

impl Keyed for FieldView {
    open spec fn key(&self) -> Seq<char> {
        self.name
    }
}

impl Named for FieldGetterSetter {
    fn name(&self) -> (r: &String) {
        &self.name
    }
}

impl Clone for FieldGetterSetter {
    fn clone(&self) -> (r: Self)
        ensures
            r@ == self@,
    {
        let enum_types = self.enum_types.clone();
        proof {
            assert(views(enum_types@) =~= views(self.enum_types@));
        }
        FieldGetterSetter {
            name: self.name.clone(),
            description: self.description.clone(),
            offset: self.offset,
            mask: self.mask,
            size: self.size,
            enum_types,
            enum_type_write: clone_opt_string(&self.enum_type_write),
            enum_type_read: clone_opt_string(&self.enum_type_read),
            access: self.access,
            dim: self.dim,
            dim_increment: self.dim_increment,
        }
    }
}

impl SameAs for FieldGetterSetter {
    fn same_as(&self, other: &Self) -> (r: bool) {
        self.name == other.name && self.description == other.description && self.offset
            == other.offset && self.mask == other.mask && self.size == other.size && same_all(
            &self.enum_types,
            &other.enum_types,
        ) && same_opt_string(&self.enum_type_write, &other.enum_type_write) && same_opt_string(
            &self.enum_type_read,
            &other.enum_type_read,
        ) && self.access == other.access && self.dim == other.dim && self.dim_increment
            == other.dim_increment
    }
}

/// Entities that may share one generated type.
pub trait HasSameType: View + Sized {
    /// Whether two views have the same structural shape: what decides the
    /// generated type, without bookkeeping such as the description.
    spec fn same_type(a: Self::V, b: Self::V) -> bool;

    /// Whether `self` and `other` have the same structural shape.
    fn has_same_type(&self, other: &Self) -> (r: bool)
        ensures
            r == Self::same_type(self@, other@),
    ;
}

/// A register.
#[derive(Debug, PartialEq)]
pub struct Register {
    pub name: String,
    pub description: String,
    /// The offset from the container.
    pub offset: u32,
    pub dim: u32,
    pub dim_increment: u32,
    pub access: RegisterAccess,
    /// The bitfields by name, in order of declaration.
    pub fields: Vec<FieldGetterSetter>,
    pub size: BitSize,
    pub reset_value: u64,
    /// Whether any field has an enumeration.
    pub has_enumerated_fields: bool,
    /// Whether the register shares the type of the register it derives from.
    pub is_derived_from: bool,
    /// The path of the module that holds the generated struct.
    pub struct_module_path: Vec<String>,
    /// The identifier of the generated struct.
    pub struct_id: String,
}

/// The view of a [`Register`].
pub struct RegisterView {
    pub name: Seq<char>,
    pub description: Seq<char>,
    pub offset: u32,
    pub dim: u32,
    pub dim_increment: u32,
    pub access: RegisterAccess,
    pub fields: Seq<FieldView>,
    pub size: BitSize,
    pub reset_value: u64,
    pub has_enumerated_fields: bool,
    pub is_derived_from: bool,
    pub struct_module_path: Seq<Seq<char>>,
    pub struct_id: Seq<char>,
}

impl View for Register {
    type V = RegisterView;

    open spec fn view(&self) -> RegisterView {
        RegisterView {
            name: self.name@,
            description: self.description@,
            offset: self.offset,
            dim: self.dim,
            dim_increment: self.dim_increment,
            access: self.access,
            fields: views(self.fields@),
            size: self.size,
            reset_value: self.reset_value,
            has_enumerated_fields: self.has_enumerated_fields,
            is_derived_from: self.is_derived_from,
            struct_module_path: texts(self.struct_module_path@),
            struct_id: self.struct_id@,
        }
    }
}

impl RegisterView {
    /// The register that nothing has been written to yet.
    pub open spec fn empty() -> RegisterView {
        RegisterView {
            name: Seq::empty(),
            description: Seq::empty(),
            offset: 0,
            dim: 0,
            dim_increment: 0,
            access: RegisterAccess::R,
            fields: Seq::empty(),
            size: BitSize::BIT32,
            reset_value: 0,
            has_enumerated_fields: false,
            is_derived_from: false,
            struct_module_path: Seq::empty(),
            struct_id: Seq::empty(),
        }
    }
}

impl Keyed for RegisterView {
    open spec fn key(&self) -> Seq<char> {
        self.name
    }
}

impl Named for Register {
    fn name(&self) -> (r: &String) {
        &self.name
    }
}

impl Default for Register {
    fn default() -> (r: Self)
        ensures
            r@ == RegisterView::empty(),
    {
        let r = Register {
            name: String::new(),
            description: String::new(),
            offset: 0,
            dim: 0,
            dim_increment: 0,
            access: RegisterAccess::R,
            fields: Vec::new(),
            size: BitSize::BIT32,
            reset_value: 0,
            has_enumerated_fields: false,
            is_derived_from: false,
            struct_module_path: Vec::new(),
            struct_id: String::new(),
        };
        proof {
            assert(r@.fields =~= Seq::empty());
            assert(r@.struct_module_path =~= Seq::empty());
        }
        r
    }
}

impl Clone for Register {
    fn clone(&self) -> (r: Self)
        ensures
            r@ == self@,
    {
        let fields = self.fields.clone();
        proof {
            assert(views(fields@) =~= views(self.fields@));
        }
        Register {
            name: self.name.clone(),
            description: self.description.clone(),
            offset: self.offset,
            dim: self.dim,
            dim_increment: self.dim_increment,
            access: self.access,
            fields,
            size: self.size,
            reset_value: self.reset_value,
            has_enumerated_fields: self.has_enumerated_fields,
            is_derived_from: self.is_derived_from,
            struct_module_path: clone_strings(&self.struct_module_path),
            struct_id: self.struct_id.clone(),
        }
    }
}

impl SameAs for Register {
    fn same_as(&self, other: &Self) -> (r: bool) {
        self.name == other.name && self.description == other.description && self.offset
            == other.offset && self.dim == other.dim && self.dim_increment == other.dim_increment
            && self.access == other.access && same_all(&self.fields, &other.fields) && self.size
            == other.size && self.reset_value == other.reset_value && self.has_enumerated_fields
            == other.has_enumerated_fields && self.is_derived_from == other.is_derived_from
            && same_strings(&self.struct_module_path, &other.struct_module_path) && self.struct_id
            == other.struct_id
    }
}

impl HasSameType for Register {
    /// Two registers have the same type when their fields, the identifier
    /// and module of their struct, their access mode, their width and their
    /// reset value are the same.
    open spec fn same_type(a: RegisterView, b: RegisterView) -> bool {
        &&& a.fields == b.fields
        &&& a.struct_id == b.struct_id
        &&& a.struct_module_path == b.struct_module_path
        &&& a.access == b.access
        &&& a.size == b.size
        &&& a.reset_value == b.reset_value
    }

    fn has_same_type(&self, other: &Self) -> (r: bool) {
        same_all(&self.fields, &other.fields) && self.struct_id == other.struct_id
            && same_strings(&self.struct_module_path, &other.struct_module_path) && self.access
            == other.access && self.size == other.size && self.reset_value == other.reset_value
    }
}

/// A cluster of registers, which may hold clusters in turn.
#[derive(Debug, PartialEq)]
pub struct Cluster {
    pub name: String,
    pub description: String,
    /// The offset from the container.
    pub offset: u32,
    pub dim: u32,
    pub dim_increment: u32,
    /// The registers by name, in order of declaration.
    pub registers: Vec<Register>,
    /// The clusters by name, in order of declaration.
    pub clusters: Vec<Cluster>,
    /// Whether the cluster shares the type of the cluster it derives from.
    pub is_derived_from: bool,
    /// The path of the module that holds the generated struct.
    pub struct_module_path: Vec<String>,
    /// The identifier of the generated struct.
    pub struct_id: String,
    /// The identifier of the module that holds what the cluster declares.
    pub module_id: String,
}

/// The view of a [`Cluster`].
pub struct ClusterView {
    pub name: Seq<char>,
    pub description: Seq<char>,
    pub offset: u32,
    pub dim: u32,
    pub dim_increment: u32,
    pub registers: Seq<RegisterView>,
    pub clusters: Seq<ClusterView>,
    pub is_derived_from: bool,
    pub struct_module_path: Seq<Seq<char>>,
    pub struct_id: Seq<char>,
    pub module_id: Seq<char>,
}

/// The view of a cluster, with the views of the clusters it holds.
pub open spec fn cluster_view(c: Cluster) -> ClusterView
    decreases c,
{
    ClusterView {
        name: c.name@,
        description: c.description@,
        offset: c.offset,
        dim: c.dim,
        dim_increment: c.dim_increment,
        registers: views(c.registers@),
        clusters: Seq::new(
            c.clusters@.len(),
            |i: int|
                if 0 <= i < c.clusters@.len() {
                    cluster_view(c.clusters@[i])
                } else {
                    arbitrary()
                },
        ),
        is_derived_from: c.is_derived_from,
        struct_module_path: texts(c.struct_module_path@),
        struct_id: c.struct_id@,
        module_id: c.module_id@,
    }
}

impl View for Cluster {
    type V = ClusterView;

    open spec fn view(&self) -> ClusterView {
        cluster_view(*self)
    }
}

/// The clusters in the view of a cluster are the views of its clusters.
pub broadcast proof fn lemma_cluster_view(c: Cluster)
    ensures
        (#[trigger] c@).clusters == views(c.clusters@),
{
    assert(c@.clusters =~= views(c.clusters@));
}

impl ClusterView {
    /// The cluster that nothing has been written to yet.
    pub open spec fn empty() -> ClusterView {
        ClusterView {
            name: Seq::empty(),
            description: Seq::empty(),
            offset: 0,
            dim: 0,
            dim_increment: 0,
            registers: Seq::empty(),
            clusters: Seq::empty(),
            is_derived_from: false,
            struct_module_path: Seq::empty(),
            struct_id: Seq::empty(),
            module_id: Seq::empty(),
        }
    }
}

impl Keyed for ClusterView {
    open spec fn key(&self) -> Seq<char> {
        self.name
    }
}

impl Named for Cluster {
    fn name(&self) -> (r: &String) {
        &self.name
    }
}

impl Default for Cluster {
    fn default() -> (r: Self)
        ensures
            r@ == ClusterView::empty(),
    {
        let r = Cluster {
            name: String::new(),
            description: String::new(),
            offset: 0,
            dim: 0,
            dim_increment: 0,
            registers: Vec::new(),
            clusters: Vec::new(),
            is_derived_from: false,
            struct_module_path: Vec::new(),
            struct_id: String::new(),
            module_id: String::new(),
        };
        proof {
            assert(r@.registers =~= Seq::empty());
            assert(r@.clusters =~= Seq::empty());
            assert(r@.struct_module_path =~= Seq::empty());
        }
        r
    }
}

impl Clone for Cluster {
    fn clone(&self) -> (r: Self)
        ensures
            r@ == self@,
        decreases self,
    {
        let registers = self.registers.clone();
        let mut clusters: Vec<Cluster> = Vec::new();
        let mut i: usize = 0;
        while i < self.clusters.len()
            invariant
                i <= self.clusters.len(),
                clusters@.len() == i,
                forall|j: int| 0 <= j < i ==> (#[trigger] clusters@[j])@ == self.clusters@[j]@,
            decreases self.clusters.len() - i,
        {
            let c = self.clusters[i].clone();
            clusters.push(c);
            i += 1;
        }
        let r = Cluster {
            name: self.name.clone(),
            description: self.description.clone(),
            offset: self.offset,
            dim: self.dim,
            dim_increment: self.dim_increment,
            registers,
            clusters,
            is_derived_from: self.is_derived_from,
            struct_module_path: clone_strings(&self.struct_module_path),
            struct_id: self.struct_id.clone(),
            module_id: self.module_id.clone(),
        };
        proof {
            assert(r@.registers =~= self@.registers);
            assert(r@.clusters =~= self@.clusters);
        }
        r
    }
}

impl SameAs for Cluster {
    fn same_as(&self, other: &Self) -> (r: bool)
        decreases self,
    {
        if !(self.name == other.name && self.description == other.description && self.offset
            == other.offset && self.dim == other.dim && self.dim_increment == other.dim_increment
            && same_all(&self.registers, &other.registers) && self.is_derived_from
            == other.is_derived_from && same_strings(
            &self.struct_module_path,
            &other.struct_module_path,
        ) && self.struct_id == other.struct_id && self.module_id == other.module_id) {
            return false;
        }
        if self.clusters.len() != other.clusters.len() {
            proof {
                assert(self@.clusters.len() != other@.clusters.len());
            }
            return false;
        }
        let mut i: usize = 0;
        while i < self.clusters.len()
            invariant
                self.clusters.len() == other.clusters.len(),
                i <= self.clusters.len(),
                forall|j: int| 0 <= j < i ==> self.clusters@[j]@ == other.clusters@[j]@,
            decreases self.clusters.len() - i,
        {
            if !self.clusters[i].same_as(&other.clusters[i]) {
                proof {
                    assert(self@.clusters[i as int] == self.clusters@[i as int]@);
                    assert(other@.clusters[i as int] == other.clusters@[i as int]@);
                }
                return false;
            }
            i += 1;
        }
        proof {
            assert(self@.clusters =~= other@.clusters);
        }
        true
    }
}

impl HasSameType for Cluster {
    /// Two clusters have the same type when their clusters, their registers
    /// and the identifier and module of their struct are the same.
    open spec fn same_type(a: ClusterView, b: ClusterView) -> bool {
        &&& a.clusters == b.clusters
        &&& a.registers == b.registers
        &&& a.struct_id == b.struct_id
        &&& a.struct_module_path == b.struct_module_path
    }

    fn has_same_type(&self, other: &Self) -> (r: bool) {
        broadcast use lemma_cluster_view;

        same_all(&self.clusters, &other.clusters) && same_all(&self.registers, &other.registers)
            && self.struct_id == other.struct_id && same_strings(
            &self.struct_module_path,
            &other.struct_module_path,
        )
    }
}

/// One interrupt of a peripheral.
#[derive(Debug, Hash, PartialEq, Eq)]
pub struct Interrupt {
    pub name: String,
    /// The slot of the interrupt in the vector table.
    pub value: u32,
    pub description: String,
}

/// The view of an [`Interrupt`].
pub struct InterruptView {
    pub name: Seq<char>,
    pub value: u32,
    pub description: Seq<char>,
}

impl View for Interrupt {
    type V = InterruptView;

    open spec fn view(&self) -> InterruptView {
        InterruptView { name: self.name@, value: self.value, description: self.description@ }
    }
}

impl Clone for Interrupt {
    fn clone(&self) -> (r: Self)
        ensures
            r@ == self@,
    {
        Interrupt {
            name: self.name.clone(),
            value: self.value,
            description: self.description.clone(),
        }
    }
}

/// One segment of the symbolic path of a register: an identifier, and an
/// index where the segment names one instance of an array.
#[derive(Debug, Hash, PartialEq, Eq)]
pub struct PathChunk {
    pub path: String,
    pub index: Option<u32>,
}

/// The view of a [`PathChunk`].
pub struct PathChunkView {
    pub path: Seq<char>,
    pub index: Option<u32>,
}

impl View for PathChunk {
    type V = PathChunkView;

    open spec fn view(&self) -> PathChunkView {
        PathChunkView { path: self.path@, index: self.index }
    }
}

impl Clone for PathChunk {
    fn clone(&self) -> (r: Self)
        ensures
            r@ == self@,
    {
        PathChunk { path: self.path.clone(), index: self.index }
    }
}

/// A peripheral: the module of generated code that maps to it.
#[derive(Debug, PartialEq)]
pub struct PeripheralMod {
    pub name: String,
    pub description: String,
    /// The clusters by name, in order of declaration.
    pub clusters: Vec<Cluster>,
    /// The registers by name, in order of declaration.
    pub registers: Vec<Register>,
    /// The base address of each instance.
    pub base_addr: Vec<u64>,
    pub interrupts: Vec<Interrupt>,
    /// The name of the peripheral whose type this one shares, if it shares
    /// one.
    pub derived_from: Option<String>,
    /// The identifier of the generated struct.
    pub struct_id: String,
    /// The identifier of the generated module.
    pub module_id: String,
}

/// The view of a [`PeripheralMod`].
pub struct PeripheralView {
    pub name: Seq<char>,
    pub description: Seq<char>,
    pub clusters: Seq<ClusterView>,
    pub registers: Seq<RegisterView>,
    pub base_addr: Seq<u64>,
    pub interrupts: Seq<InterruptView>,
    pub derived_from: Option<Seq<char>>,
    pub struct_id: Seq<char>,
    pub module_id: Seq<char>,
}

impl View for PeripheralMod {
    type V = PeripheralView;

    open spec fn view(&self) -> PeripheralView {
        PeripheralView {
            name: self.name@,
            description: self.description@,
            clusters: views(self.clusters@),
            registers: views(self.registers@),
            base_addr: self.base_addr@,
            interrupts: views(self.interrupts@),
            derived_from: opt_text(self.derived_from),
            struct_id: self.struct_id@,
            module_id: self.module_id@,
        }
    }
}

impl PeripheralView {
    /// The peripheral that nothing has been written to yet.
    pub open spec fn empty() -> PeripheralView {
        PeripheralView {
            name: Seq::empty(),
            description: Seq::empty(),
            clusters: Seq::empty(),
            registers: Seq::empty(),
            base_addr: Seq::empty(),
            interrupts: Seq::empty(),
            derived_from: None,
            struct_id: Seq::empty(),
            module_id: Seq::empty(),
        }
    }
}

impl Keyed for PeripheralView {
    open spec fn key(&self) -> Seq<char> {
        self.name
    }
}

impl Named for PeripheralMod {
    fn name(&self) -> (r: &String) {
        &self.name
    }
}

impl Default for PeripheralMod {
    fn default() -> (r: Self)
        ensures
            r@ == PeripheralView::empty(),
    {
        let r = PeripheralMod {
            name: String::new(),
            description: String::new(),
            clusters: Vec::new(),
            registers: Vec::new(),
            base_addr: Vec::new(),
            interrupts: Vec::new(),
            derived_from: None,
            struct_id: String::new(),
            module_id: String::new(),
        };
        proof {
            assert(r@.clusters =~= Seq::empty());
            assert(r@.registers =~= Seq::empty());
            assert(r@.interrupts =~= Seq::empty());
        }
        r
    }
}

impl Clone for PeripheralMod {
    fn clone(&self) -> (r: Self)
        ensures
            r@ == self@,
    {
        let clusters = self.clusters.clone();
        let registers = self.registers.clone();
        let interrupts = self.interrupts.clone();
        let base_addr = self.base_addr.clone();
        proof {
            assert(views(clusters@) =~= views(self.clusters@));
            assert(views(registers@) =~= views(self.registers@));
            assert(views(interrupts@) =~= views(self.interrupts@));
            assert(base_addr@ =~= self.base_addr@);
        }
        PeripheralMod {
            name: self.name.clone(),
            description: self.description.clone(),
            clusters,
            registers,
            base_addr,
            interrupts,
            derived_from: clone_opt_string(&self.derived_from),
            struct_id: self.struct_id.clone(),
            module_id: self.module_id.clone(),
        }
    }
}

impl HasSameType for PeripheralMod {
    /// Two peripherals have the same type when their clusters, their
    /// registers and the identifiers of their struct and module are the same.
    open spec fn same_type(a: PeripheralView, b: PeripheralView) -> bool {
        &&& a.clusters == b.clusters
        &&& a.registers == b.registers
        &&& a.struct_id == b.struct_id
        &&& a.module_id == b.module_id
    }

    fn has_same_type(&self, other: &Self) -> (r: bool) {
        same_all(&self.clusters, &other.clusters) && same_all(&self.registers, &other.registers)
            && self.struct_id == other.struct_id && self.module_id == other.module_id
    }
}

/// A device: its peripherals by name, in order of declaration.
#[derive(Debug, PartialEq)]
pub struct Device {
    pub name: String,
    pub description: String,
    pub peripheral_mod: Vec<PeripheralMod>,
}

/// The view of a [`Device`].
pub struct DeviceView {
    pub name: Seq<char>,
    pub description: Seq<char>,
    pub peripheral_mod: Seq<PeripheralView>,
}

impl View for Device {
    type V = DeviceView;

    open spec fn view(&self) -> DeviceView {
        DeviceView {
            name: self.name@,
            description: self.description@,
            peripheral_mod: views(self.peripheral_mod@),
        }
    }
}

impl Default for Device {
    fn default() -> (r: Self)
        ensures
            r@ == (DeviceView {
                name: Seq::empty(),
                description: Seq::empty(),
                peripheral_mod: Seq::empty(),
            }),
    {
        let r = Device { name: String::new(), description: String::new(), peripheral_mod: Vec::new() };
        proof {
            assert(r@.peripheral_mod =~= Seq::empty());
        }
        r
    }
}

impl Clone for Device {
    fn clone(&self) -> (r: Self)
        ensures
            r@ == self@,
    {
        let peripheral_mod = self.peripheral_mod.clone();
        proof {
            assert(views(peripheral_mod@) =~= views(self.peripheral_mod@));
        }
        Device {
            name: self.name.clone(),
            description: self.description.clone(),
            peripheral_mod,
        }
    }
}

} // verus!
