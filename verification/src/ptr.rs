//! Pointer metadata: what is remembered about the target of a pointer besides its address.

use crate::collect::Collect;
use crate::contents::{Contents, Value};
use crate::layout::{self, Layout, LayoutError};
use crate::types::{CollectVTable, Meta};
use core::mem::MaybeUninit;
use vstd::prelude::*;

verus! {

/// A type that is valid when uninitialized.
pub trait Uninit {
    /// The initialized form of the type.
    type Init;
}

impl<T> Uninit for MaybeUninit<T> {
    type Init = T;
}

/// An address together with the metadata of its target.
#[derive(Debug, PartialEq, Eq)]
pub struct RawPtr<M> {
    pub addr: usize,
    pub meta: M,
}

/// A generalized pointer metadata type for targets of type `T`.
///
/// For single values the metadata is `()`, for rows of values it is their number, for plain memory
/// its layout. Other types may stand for these by describing the target in their own way.
pub trait Metadata<T>: Sized {
    /// The pointer type.
    type Ptr;

    spec fn spec_with_addr(&self, addr: usize) -> Self::Ptr;

    spec fn spec_addr(ptr: Self::Ptr) -> usize;

    /// A pointer made from an address has that address.
    proof fn addr_of_pointer(&self, addr: usize)
        ensures
            Self::spec_addr(self.spec_with_addr(addr)) == addr,
    ;

    /// The pointer to an address with this metadata.
    fn with_addr(&self, addr: usize) -> (ptr: Self::Ptr)
        ensures
            ptr == self.spec_with_addr(addr),
    ;

    /// The address of a pointer.
    fn addr(ptr: Self::Ptr) -> (addr: usize)
        ensures
            addr == Self::spec_addr(ptr),
    ;

    /// The form in which a box keeps the metadata.
    spec fn erased(&self) -> Meta;

    /// Whether what a box keeps is metadata of this type.
    spec fn recognizes(meta: Meta) -> bool;

    /// What a box keeps of metadata is recognized and determines the metadata.
    proof fn erased_determines(&self, other: &Self)
        ensures
            Self::recognizes(self.erased()),
            self.erased() == other.erased() ==> *self == *other,
    ;

    fn erase(&self) -> (meta: Meta)
        ensures
            meta == self.erased(),
    ;

    /// The metadata that a box keeps, if it is of this type.
    fn restore(meta: Meta) -> (r: Option<Self>)
        ensures
            match r {
                Some(m) => Self::recognizes(meta) && m.erased() == meta,
                None => !Self::recognizes(meta),
            },
    ;
}

/// Metadata that stands for the built-in metadata of its target.
pub trait PtrMetadata<T>: Metadata<T> {
    /// The built-in metadata: `()` for a single value, the length of a row.
    type Native;

    spec fn native(&self) -> Self::Native;

    /// The built-in metadata that this metadata stands for.
    fn ptr_metadata(&self) -> (native: Self::Native)
        ensures
            native == self.native(),
    ;
}

/// Metadata that tells the layout of its target.
pub trait MetaLayout<T>: Metadata<T> {
    /// The size and the alignment of the target, unless no such target can exist.
    spec fn spec_layout(&self) -> Option<(usize, usize)>;

    /// The layout of the target, unless no such target can exist.
    fn layout(&self) -> (r: Result<Layout, LayoutError>)
        ensures
            match r {
                Ok(layout) => layout.wf() && self.spec_layout() == Some(
                    (layout.size(), layout.align()),
                ),
                Err(_) => self.spec_layout() is None,
            },
    ;
}

/// The size of a target that can exist.
pub open spec fn target_size<T, M: MetaLayout<T>>(meta: M) -> int {
    match meta.spec_layout() {
        Some((size, _)) => size as int,
        None => 0,
    }
}

/// The alignment of a target that can exist.
pub open spec fn target_align<T, M: MetaLayout<T>>(meta: M) -> int {
    match meta.spec_layout() {
        Some((_, align)) => align as int,
        None => 1,
    }
}

/// The size and the alignment of a target, unless no such target can exist.
pub open spec fn checked_layout(size: int, align: int) -> Option<(usize, usize)> {
    if layout::fits(size, align) {
        Some((size as usize, align as usize))
    } else {
        None
    }
}

/// What the target of metadata consists of.
#[derive(Clone, Copy, Debug, PartialEq, Eq, Structural)]
pub enum Shape {
    /// A single value.
    One,
    /// A row of this many values.
    Row(usize),
    /// Plain memory, as much as the layout says.
    Memory,
}

impl Shape {
    /// Whether what a box keeps of metadata speaks of a target of this shape and size.
    pub open spec fn agrees(self, meta: Meta, size: int) -> bool {
        match self {
            Shape::One => meta is Thin,
            Shape::Row(n) => meta == Meta::Len(n),
            Shape::Memory => match meta {
                Meta::Raw(layout) => layout.size() == size,
                Meta::Words(n, _) => n == size,
                _ => false,
            },
        }
    }

    /// Whether contents are what a new box for a target of this shape and size holds before
    /// anything was written to it. Memory that is asked to be zeroed is zero throughout: a place
    /// in it holds the value whose memory is all zero, if the type is known to have one.
    pub open spec fn is_blank<T: Collect>(self, size: int, zeroed: bool, value: Value<T>) -> bool {
        match self {
            Shape::One => value == Value::Uninit(blank_slots::<T>(1, zeroed)),
            Shape::Row(n) => value == Value::Uninit(blank_slots::<T>(n as nat, zeroed)),
            Shape::Memory => match value {
                Value::Bytes(bytes) => {
                    &&& bytes.len() == size
                    &&& zeroed ==> forall|i: int| 0 <= i < bytes.len() ==> #[trigger] bytes[i] == 0
                },
                _ => false,
            },
        }
    }

    /// The contents of a new box for a target of this shape and size.
    pub fn blank<T: Collect>(self, size: usize, zeroed: bool) -> (contents: Contents<T>)
        ensures
            self.is_blank(size as int, zeroed, contents.view()),
    {
        match self {
            Shape::One => Contents::Uninit(make_blank(1, zeroed)),
            Shape::Row(n) => Contents::Uninit(make_blank(n, zeroed)),
            Shape::Memory => Contents::Bytes(make_bytes(size)),
        }
    }

    /// The contents of a new box fit it.
    pub proof fn blank_fits<T: Collect>(
        self,
        meta: Meta,
        size: int,
        zeroed: bool,
        value: Value<T>,
    )
        requires
            self.agrees(meta, size),
            self.is_blank(size, zeroed, value),
        ensures
            value.fits(CollectVTable::Opaque, false, meta),
    {
    }
}

/// Metadata that tells the collector how to treat its target.
pub trait MetaCollect<T: Collect>: MetaLayout<T> {
    /// Whether the target needs to be traced once it is initialized.
    spec fn spec_needs_trace(&self) -> bool;

    fn needs_trace(&self) -> (b: bool)
        ensures
            b == self.spec_needs_trace(),
    ;

    /// What the target consists of.
    spec fn spec_shape(&self) -> Shape;

    /// What a box keeps of the metadata tells the shape and the size of the target.
    proof fn shape_agrees(&self)
        requires
            self.spec_layout() is Some,
        ensures
            self.spec_shape().agrees(self.erased(), target_size::<T, Self>(*self)),
    ;

    fn shape(&self) -> (shape: Shape)
        ensures
            shape == self.spec_shape(),
    ;
}

/// A row of places that nothing was written to.
pub open spec fn empty_slots<T>(n: nat) -> Seq<Option<T>> {
    Seq::new(n, |i: int| None)
}

/// Makes a row of places that nothing was written to.
pub fn make_slots<T>(n: usize) -> (row: Vec<Option<T>>)
    ensures
        row@ == empty_slots::<T>(n as nat),
{
    let mut row: Vec<Option<T>> = Vec::new();
    let mut i: usize = 0;
    while i < n
        invariant
            i <= n,
            row@ == empty_slots::<T>(i as nat),
        decreases n - i,
    {
        row.push(None);
        i += 1;
        assert(row@ =~= empty_slots::<T>(i as nat));
    }
    row
}

/// A row of places in new memory, which may be zeroed.
pub open spec fn blank_slots<T: Collect>(n: nat, zeroed: bool) -> Seq<Option<T>> {
    if zeroed {
        Seq::new(n, |i: int| T::spec_zeroed())
    } else {
        empty_slots(n)
    }
}

/// Makes a row of places in new memory.
fn make_blank<T: Collect>(n: usize, zeroed: bool) -> (row: Vec<Option<T>>)
    ensures
        row@ == blank_slots::<T>(n as nat, zeroed),
{
    if !zeroed {
        return make_slots(n);
    }
    let mut row: Vec<Option<T>> = Vec::new();
    let mut i: usize = 0;
    while i < n
        invariant
            i <= n,
            row@ == blank_slots::<T>(i as nat, true),
        decreases n - i,
    {
        row.push(T::zeroed());
        i += 1;
        assert(row@ =~= blank_slots::<T>(i as nat, true));
    }
    row
}

/// Makes zeroed memory.
pub fn make_bytes(n: usize) -> (bytes: Vec<u8>)
    ensures
        bytes@ == Seq::new(n as nat, |i: int| 0u8),
{
    let mut bytes: Vec<u8> = Vec::new();
    let mut i: usize = 0;
    while i < n
        invariant
            i <= n,
            bytes@ == Seq::new(i as nat, |j: int| 0u8),
        decreases n - i,
    {
        bytes.push(0);
        i += 1;
        assert(bytes@ =~= Seq::new(i as nat, |j: int| 0u8));
    }
    bytes
}

// Single values.
impl<T> Metadata<T> for () {
    type Ptr = RawPtr<()>;

    open spec fn spec_with_addr(&self, addr: usize) -> RawPtr<()> {
        RawPtr { addr, meta: () }
    }

    open spec fn spec_addr(ptr: RawPtr<()>) -> usize {
        ptr.addr
    }

    proof fn addr_of_pointer(&self, addr: usize) {
    }

    fn with_addr(&self, addr: usize) -> (ptr: RawPtr<()>) {
        RawPtr { addr, meta: () }
    }

    fn addr(ptr: RawPtr<()>) -> (addr: usize) {
        ptr.addr
    }

    open spec fn erased(&self) -> Meta {
        Meta::Thin
    }

    open spec fn recognizes(meta: Meta) -> bool {
        meta is Thin
    }

    proof fn erased_determines(&self, other: &()) {
    }

    fn erase(&self) -> (meta: Meta) {
        Meta::Thin
    }

    fn restore(meta: Meta) -> (r: Option<()>) {
        match meta {
            Meta::Thin => Some(()),
            _ => None,
        }
    }
}

impl<T> PtrMetadata<T> for () {
    type Native = ();

    open spec fn native(&self) -> () {
        ()
    }

    fn ptr_metadata(&self) -> (native: ()) {
        ()
    }
}

impl<T> MetaLayout<T> for () {
    open spec fn spec_layout(&self) -> Option<(usize, usize)> {
        checked_layout(vstd::layout::size_of::<T>() as int, vstd::layout::align_of::<T>() as int)
    }

    fn layout(&self) -> (r: Result<Layout, LayoutError>) {
        Ok(Layout::new::<T>())
    }
}

impl<T: Collect> MetaCollect<T> for () {
    open spec fn spec_needs_trace(&self) -> bool {
        T::spec_needs_trace()
    }

    fn needs_trace(&self) -> (b: bool) {
        T::needs_trace()
    }

    open spec fn spec_shape(&self) -> Shape {
        Shape::One
    }

    proof fn shape_agrees(&self) {
    }

    fn shape(&self) -> (shape: Shape) {
        Shape::One
    }
}

// Rows of values.
impl<T> Metadata<T> for usize {
    type Ptr = RawPtr<usize>;

    open spec fn spec_with_addr(&self, addr: usize) -> RawPtr<usize> {
        RawPtr { addr, meta: *self }
    }

    open spec fn spec_addr(ptr: RawPtr<usize>) -> usize {
        ptr.addr
    }

    proof fn addr_of_pointer(&self, addr: usize) {
    }

    fn with_addr(&self, addr: usize) -> (ptr: RawPtr<usize>) {
        RawPtr { addr, meta: *self }
    }

    fn addr(ptr: RawPtr<usize>) -> (addr: usize) {
        ptr.addr
    }

    open spec fn erased(&self) -> Meta {
        Meta::Len(*self)
    }

    open spec fn recognizes(meta: Meta) -> bool {
        meta is Len
    }

    proof fn erased_determines(&self, other: &usize) {
    }

    fn erase(&self) -> (meta: Meta) {
        Meta::Len(*self)
    }

    fn restore(meta: Meta) -> (r: Option<usize>) {
        match meta {
            Meta::Len(n) => Some(n),
            _ => None,
        }
    }
}

impl<T> PtrMetadata<T> for usize {
    type Native = usize;

    open spec fn native(&self) -> usize {
        *self
    }

    fn ptr_metadata(&self) -> (native: usize) {
        *self
    }
}

impl<T> MetaLayout<T> for usize {
    open spec fn spec_layout(&self) -> Option<(usize, usize)> {
        checked_layout(layout::row_size::<T>(*self as int), vstd::layout::align_of::<T>() as int)
    }

    fn layout(&self) -> (r: Result<Layout, LayoutError>) {
        Layout::array::<T>(*self)
    }
}

impl<T: Collect> MetaCollect<T> for usize {
    open spec fn spec_needs_trace(&self) -> bool {
        T::spec_needs_trace()
    }

    fn needs_trace(&self) -> (b: bool) {
        T::needs_trace()
    }

    open spec fn spec_shape(&self) -> Shape {
        Shape::Row(*self)
    }

    proof fn shape_agrees(&self) {
    }

    fn shape(&self) -> (shape: Shape) {
        Shape::Row(*self)
    }
}

// Plain memory.
impl<T> Metadata<T> for Layout {
    type Ptr = RawPtr<usize>;

    open spec fn spec_with_addr(&self, addr: usize) -> RawPtr<usize> {
        RawPtr { addr, meta: self.size() }
    }

    open spec fn spec_addr(ptr: RawPtr<usize>) -> usize {
        ptr.addr
    }

    proof fn addr_of_pointer(&self, addr: usize) {
    }

    fn with_addr(&self, addr: usize) -> (ptr: RawPtr<usize>) {
        RawPtr { addr, meta: self.size() }
    }

    fn addr(ptr: RawPtr<usize>) -> (addr: usize) {
        ptr.addr
    }

    open spec fn erased(&self) -> Meta {
        Meta::Raw(*self)
    }

    open spec fn recognizes(meta: Meta) -> bool {
        meta is Raw
    }

    proof fn erased_determines(&self, other: &Layout) {
    }

    fn erase(&self) -> (meta: Meta) {
        Meta::Raw(*self)
    }

    fn restore(meta: Meta) -> (r: Option<Layout>) {
        match meta {
            Meta::Raw(layout) => Some(layout),
            _ => None,
        }
    }
}

impl<T> PtrMetadata<T> for Layout {
    type Native = usize;

    open spec fn native(&self) -> usize {
        self.size()
    }

    fn ptr_metadata(&self) -> (native: usize) {
        self.size()
    }
}

impl<T> MetaLayout<T> for Layout {
    open spec fn spec_layout(&self) -> Option<(usize, usize)> {
        checked_layout(self.size() as int, self.align() as int)
    }

    fn layout(&self) -> (r: Result<Layout, LayoutError>) {
        Layout::from_size_align(self.size(), self.align())
    }
}

impl<T: Collect> MetaCollect<T> for Layout {
    open spec fn spec_needs_trace(&self) -> bool {
        false
    }

    fn needs_trace(&self) -> (b: bool) {
        false
    }

    open spec fn spec_shape(&self) -> Shape {
        Shape::Memory
    }

    proof fn shape_agrees(&self) {
    }

    fn shape(&self) -> (shape: Shape) {
        Shape::Memory
    }
}

/// The built-in metadata of a row that a fixed-size array was turned into.
#[derive(Clone, Copy, Debug, PartialEq, Eq)]
pub struct Unsized(pub usize);

} // verus!
