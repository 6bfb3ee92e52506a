use gc_arena::collect::{Collect, Static, Trace};
use gc_arena::gc::{Gc, Unique, Weak};
use gc_arena::heap::Heap;
use gc_arena::layout::{checked_round_up, Layout};
use gc_arena::tagged_ptr;
use gc_arena::types::{box_layout, CollectVTable, GcBox, GcBoxHeader, GcColor};
use std::collections::VecDeque;
use std::rc::Rc;
use std::sync::Arc;

#[test]
fn layouts() {
    let layout = Layout::from_size_align(10, 4).unwrap();
    assert_eq!((layout.size(), layout.align()), (10, 4));
    assert!(Layout::from_size_align(10, 3).is_err());
    assert!(Layout::from_size_align(10, 0).is_err());
    assert!(Layout::from_size_align(usize::MAX, 1).is_err());
    assert!(Layout::from_size_align(isize::MAX as usize, 2).is_err());
    assert!(Layout::from_size_align(isize::MAX as usize, 1).is_ok());
    let (both, offset) = layout.extend(Layout::from_size_align(3, 8).unwrap()).unwrap();
    assert_eq!((both.size(), both.align(), offset), (19, 8, 16));
    assert_eq!(Layout::new::<u32>().size(), 4);
    assert_eq!(Layout::array::<u32>(5).unwrap().size(), 20);
    assert!(Layout::array::<u32>(usize::MAX / 2).is_err());
    assert_eq!(checked_round_up(17, 8), Some(24));
    assert_eq!(checked_round_up(16, 8), Some(16));
    assert_eq!(checked_round_up(usize::MAX, 2), None);
}

#[test]
fn boxes_hold_metadata_header_and_value() {
    let word = core::mem::size_of::<usize>();
    let (layout, offset) = box_layout::<usize>(Layout::from_size_align(5, 1).unwrap()).unwrap();
    assert_eq!(offset, 4 * word);
    assert_eq!(layout.size(), 4 * word + 5);
    assert_eq!(layout.align(), word);
    let (layout, offset) = box_layout::<()>(Layout::from_size_align(8, 64).unwrap()).unwrap();
    assert_eq!((offset, layout.size(), layout.align()), (64, 72, 64));
}

#[test]
fn tags() {
    let mut word: usize = 0x1230;
    tagged_ptr::set::<0x3>(&mut word, 0x2);
    tagged_ptr::set_bool::<0x4>(&mut word, true);
    assert_eq!(word, 0x1236);
    assert_eq!(tagged_ptr::get::<0x3>(word), 2);
    assert_eq!(tagged_ptr::get::<0x4>(word), 4);
    assert_eq!(tagged_ptr::untag(word), 0x1230);
    tagged_ptr::set_bool::<0x4>(&mut word, false);
    assert_eq!(word, 0x1232);
}

#[test]
fn headers() {
    let mut header = GcBoxHeader::new(CollectVTable::Opaque);
    assert_eq!(header.color(), GcColor::White);
    assert!(!header.is_live() && !header.needs_trace());
    for color in [GcColor::WhiteWeak, GcColor::Gray, GcColor::Black, GcColor::White] {
        header.set_color(color);
        assert_eq!(header.color(), color);
    }
    header.set_live(true);
    header.set_color(GcColor::Black);
    header.reset_vtable(CollectVTable::Traced, true);
    assert_eq!(header.vtable(), CollectVTable::Traced);
    assert_eq!(header.color(), GcColor::Black);
    assert!(header.is_live() && header.needs_trace());
    header.set_needs_trace(false);
    assert!(!header.needs_trace());
    let b = GcBox { addr: 64 };
    header.set_next(Some(b));
    header.set_gray_next(Some(b));
    assert_eq!((header.next(), header.gray_next()), (Some(b), Some(b)));
}

#[test]
fn empty_heap() {
    let heap = Heap::new();
    assert!(!heap.has(GcBox { addr: 64 }));
    assert!(heap.has_room(&Layout::from_size_align(64, 8).unwrap()));
    assert_eq!(heap.metrics().total_gcs, 0);
}

/// Keeps the addresses that it is shown.
#[derive(Default)]
struct Shown {
    strong: Vec<usize>,
    weak: Vec<usize>,
}

fn gc(addr: usize) -> Gc<()> {
    Gc::from_raw(addr)
}

fn weak(addr: usize) -> Weak<()> {
    Weak::from_raw(addr)
}

impl Trace for Shown {
    type State = ();

    fn state(&self) {}

    fn wf(&self) -> bool {
        true
    }

    fn ready(_s: (), _e: gc_arena::collect::Edge) -> bool {
        true
    }

    fn step(_s: (), _e: gc_arena::collect::Edge) {}

    fn step_keeps_ready(_s: (), _e: gc_arena::collect::Edge, _f: gc_arena::collect::Edge) {}

    fn trace_gc<T, M>(&mut self, gc: Gc<T, M>) {
        self.strong.push(Gc::addr(gc));
    }

    fn trace_weak<T, M>(&mut self, gc: Weak<T, M>) {
        self.weak.push(gc.addr());
    }

    fn trace_unique<T, M>(&mut self, gc: &Unique<T, M>) {
        self.strong.push(Unique::addr(gc));
    }
}

fn shown<T: Collect>(value: &T) -> (Vec<usize>, Vec<usize>) {
    let mut shown = Shown::default();
    gc_arena::collect::trace(&mut shown, value);
    (shown.strong, shown.weak)
}

#[test]
fn values_show_the_pointers_that_they_hold() {
    assert_eq!(shown(&gc(1)), (vec![1], vec![]));
    assert_eq!(shown(&weak(2)), (vec![], vec![2]));
    assert_eq!(shown(&Unique::<()>::from_raw(3)), (vec![3], vec![]));
    assert_eq!(shown(&Some(gc(1))), (vec![1], vec![]));
    assert_eq!(shown(&None::<Gc<()>>), (vec![], vec![]));
    assert_eq!(shown(&Ok::<Gc<()>, Weak<()>>(gc(1))), (vec![1], vec![]));
    assert_eq!(shown(&Err::<Gc<()>, Weak<()>>(weak(2))), (vec![], vec![2]));
    assert_eq!(shown(&Box::new(gc(1))), (vec![1], vec![]));
    assert_eq!(shown(&Rc::new(gc(1))), (vec![1], vec![]));
    assert_eq!(shown(&Arc::new(gc(1))), (vec![1], vec![]));
    assert_eq!(shown(&vec![gc(1), gc(2)]), (vec![1, 2], vec![]));
    assert_eq!(shown(&VecDeque::from(vec![gc(1), gc(2)])), (vec![1, 2], vec![]));
    assert_eq!(shown(&[gc(1), gc(2)]), (vec![1, 2], vec![]));
    assert_eq!(shown(&(gc(1), weak(2), 5, vec![gc(3)])), (vec![1, 3], vec![2]));
    let four = (gc(1), gc(2), gc(3), gc(4));
    let many = (four, four, gc(5), gc(6), gc(7), gc(8), gc(9), 1u8, gc(10));
    assert_eq!(shown(&many).0, vec![1, 2, 3, 4, 1, 2, 3, 4, 5, 6, 7, 8, 9, 10]);
    assert_eq!(shown(&(Static(gc(1)), "text".to_string())), (vec![], vec![]));
}

#[test]
fn which_types_need_tracing() {
    assert!(!u8::needs_trace() && !String::needs_trace() && !<()>::needs_trace());
    assert!(!<(u8, Vec<char>)>::needs_trace());
    assert!(!Static::<Gc<()>>::needs_trace());
    assert!(!std::mem::MaybeUninit::<Gc<()>>::needs_trace());
    assert!(!std::marker::PhantomData::<Gc<()>>::needs_trace());
    assert!(<(u8, Vec<Gc<()>>)>::needs_trace());
    assert!(Option::<Weak<()>>::needs_trace());
    assert!(Result::<u8, Gc<()>>::needs_trace());
    assert!(gc_arena::vec::Vec::<u8>::needs_trace());
}

#[test]
fn zeros() {
    assert_eq!(u64::zeroed(), Some(0));
    assert_eq!(i8::zeroed(), Some(0));
    assert_eq!(bool::zeroed(), Some(false));
    assert_eq!(char::zeroed(), Some('\0'));
    assert_eq!(<(u8, (i32, bool))>::zeroed(), Some((0, (0, false))));
    assert_eq!(<[u16; 3]>::zeroed(), Some([0, 0, 0]));
    assert_eq!(<[String; 0]>::zeroed(), Some([]));
    assert_eq!(<[String; 2]>::zeroed(), None);
    assert_eq!(<(u8, String)>::zeroed(), None);
    assert!(Gc::<u8>::zeroed().is_none());
    assert!(Rc::<u8>::zeroed().is_none());
}
