use gc_arena::context::Context;
use gc_arena::gc::{Gc, Unique};
use gc_arena::layout::{Layout, LayoutError};
use gc_arena::ptr::{MetaCollect, MetaLayout, Metadata, PtrMetadata, RawPtr, Shape};
use gc_arena::types::Meta;
use std::mem::MaybeUninit;

#[derive(Debug, Clone, Copy, PartialEq)]
struct CompactLayout {
    size: u32,
    align_bit: u8,
}

impl Metadata<u8> for CompactLayout {
    type Ptr = RawPtr<usize>;

    fn spec_with_addr(&self, addr: usize) -> RawPtr<usize> {
        self.with_addr(addr)
    }

    fn spec_addr(ptr: RawPtr<usize>) -> usize {
        ptr.addr
    }

    fn addr_of_pointer(&self, _addr: usize) {}

    fn erased(&self) -> Meta {
        self.erase()
    }

    fn recognizes(meta: Meta) -> bool {
        matches!(meta, Meta::Words(_, _))
    }

    fn erased_determines(&self, _other: &Self) {}

    fn with_addr(&self, addr: usize) -> RawPtr<usize> {
        RawPtr { addr, meta: self.size as usize }
    }

    fn addr(ptr: RawPtr<usize>) -> usize {
        ptr.addr
    }

    fn erase(&self) -> Meta {
        Meta::Words(self.size as usize, self.align_bit as usize)
    }

    fn restore(meta: Meta) -> Option<CompactLayout> {
        match meta {
            Meta::Words(size, bit) if size <= u32::MAX as usize && bit <= u8::MAX as usize => {
                Some(CompactLayout { size: size as u32, align_bit: bit as u8 })
            }
            _ => None,
        }
    }
}

impl PtrMetadata<u8> for CompactLayout {
    type Native = usize;

    fn native(&self) -> usize {
        self.size as usize
    }

    fn ptr_metadata(&self) -> usize {
        self.size as usize
    }
}

impl MetaLayout<u8> for CompactLayout {
    fn spec_layout(&self) -> Option<(usize, usize)> {
        Some((self.size as usize, 1 << self.align_bit))
    }

    fn layout(&self) -> Result<Layout, LayoutError> {
        Layout::from_size_align(self.size as usize, 1 << self.align_bit)
    }
}

impl MetaCollect<u8> for CompactLayout {
    fn spec_needs_trace(&self) -> bool {
        false
    }

    fn spec_shape(&self) -> Shape {
        Shape::Memory
    }

    fn shape_agrees(&self) {}

    fn needs_trace(&self) -> bool {
        false
    }

    fn shape(&self) -> Shape {
        Shape::Memory
    }
}

#[test]
fn custom_layout() {
    let mut mc = Context::<u8>::new().mutation_context();
    // A layout of size 16 and alignment (1 << 10) == 1024.
    let layout = CompactLayout { size: 16, align_bit: 10 };

    let unique = Unique::<MaybeUninit<u8>, CompactLayout>::with_metadata::<true>(&mut mc, layout);
    assert_eq!(unique.as_bytes(&mc).len(), 16);
    assert!(unique.as_bytes(&mc).iter().all(|&b| b == 0));
    let addr = Unique::addr(&unique);
    assert_eq!(addr & ((1 << layout.align_bit) - 1), 0);
    let unique: Unique<u8, CompactLayout> = Unique::from_raw(addr);
    assert_eq!(Unique::metadata(&unique, &mc), layout);
}

#[test]
fn built_in_layout() {
    let mut mc = Context::<u8>::new().mutation_context();
    let layout = Layout::from_size_align(24, 64).unwrap();
    let unique = Gc::<MaybeUninit<u8>, Layout>::with_metadata::<true>(&mut mc, layout);
    assert_eq!(unique.as_bytes(&mc), &[0; 24][..]);
    assert_eq!(Unique::addr(&unique) % 64, 0);
    let unique = unique.assume_init(&mut mc);
    assert_eq!(Unique::metadata(&unique, &mc), layout);
    assert_eq!(Unique::as_ptr(&unique, &mc).meta, 24);
}

#[test]
fn metadata_of_the_basic_kinds() {
    assert_eq!(Metadata::<u8>::erase(&()), Meta::Thin);
    assert_eq!(Metadata::<u8>::erase(&5usize), Meta::Len(5));
    assert_eq!(<usize as Metadata<u8>>::restore(Meta::Len(5)), Some(5));
    assert_eq!(<usize as Metadata<u8>>::restore(Meta::Thin), None);
    assert_eq!(<() as Metadata<u8>>::restore(Meta::Len(5)), None);
    assert_eq!(PtrMetadata::<u8>::ptr_metadata(&7usize), 7);
    let layout = Layout::from_size_align(24, 8).unwrap();
    assert_eq!(PtrMetadata::<u8>::ptr_metadata(&layout), 24);
    let row = MetaLayout::<u32>::layout(&3usize).unwrap();
    assert_eq!((row.size(), row.align()), (12, 4));
    assert!(MetaLayout::<u32>::layout(&usize::MAX).is_err());
}

#[test]
fn new_boxes_have_the_shape_of_their_metadata() {
    assert_eq!(MetaCollect::<u8>::shape(&()), Shape::One);
    assert_eq!(MetaCollect::<u8>::shape(&3usize), Shape::Row(3));
    let layout = Layout::from_size_align(24, 8).unwrap();
    assert_eq!(MetaCollect::<u8>::shape(&layout), Shape::Memory);
    let mut mc = Context::<u16>::new().mutation_context();
    let row = Unique::<MaybeUninit<u16>, usize>::with_metadata::<true>(&mut mc, 5);
    assert_eq!(row.len(&mc), 5);
    assert_eq!(row.assume_init(&mut mc).as_slice(&mc), &[0; 5][..]);
    let one = Unique::<MaybeUninit<u16>>::with_metadata::<true>(&mut mc, ());
    assert_eq!(*one.assume_init(&mut mc).deref(&mc), 0);
    let one = Unique::<MaybeUninit<u16>>::with_metadata::<false>(&mut mc, ());
    assert_eq!(*Unique::write(one, &mut mc, 8).deref(&mc), 8);
}
