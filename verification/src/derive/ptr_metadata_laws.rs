//! What `#[derive(PtrMetadata)]` makes of the attributes of a type.

use crate::derive::ptr_metadata::{self, Error, Input, Item, Request, UnsafeOption};
use vstd::prelude::*;

verus! {

/// Whether an option of `unsafe(...)` stands before position `k`.
pub open spec fn option_before(options: Seq<UnsafeOption>, k: int, option: UnsafeOption) -> bool {
    exists|j: int| 0 <= j < k && #[trigger] options[j] == option
}

/// What is wrong with the option at position `k`, seeing what stands before it.
pub open spec fn option_mistake(options: Seq<UnsafeOption>, k: int) -> Option<Error> {
    if options[k] == UnsafeOption::Unknown {
        Some(Error::UnknownOption)
    } else if option_before(options, k, options[k]) {
        if options[k] == UnsafeOption::Via {
            Some(Error::MultipleVia)
        } else {
            Some(Error::MultipleBounds)
        }
    } else {
        None
    }
}

/// Whether `e` is the first thing that is wrong with the first `n` options.
pub open spec fn first_option_mistake(options: Seq<UnsafeOption>, n: int, e: Error) -> bool {
    exists|k: int|
        0 <= k < n && #[trigger] option_mistake(options, k) == Some(e) && forall|j: int|
            0 <= j < k ==> #[trigger] option_mistake(options, j) is None
}

/// Whether nothing is wrong with the first `n` options.
pub open spec fn options_are_right(options: Seq<UnsafeOption>, n: int) -> bool {
    forall|k: int| 0 <= k < n ==> #[trigger] option_mistake(options, k) is None
}

/// Whether `at` is where an option stands among the first `n`, if it does.
pub open spec fn option_stands_at(
    options: Seq<UnsafeOption>,
    n: int,
    option: UnsafeOption,
    at: Option<usize>,
) -> bool {
    match at {
        Some(k) => k < n && options[k as int] == option,
        None => !option_before(options, n, option),
    }
}

proof fn lemma_options(request: Request, options: Seq<UnsafeOption>, n: nat)
    requires
        n <= options.len() <= usize::MAX,
        request.via is None,
        request.bound is None,
    ensures
        match request.spec_accept_options(options, n) {
            Ok(next) => {
                &&& options_are_right(options, n as int)
                &&& next.ty == request.ty
                &&& next.is_unsafe == request.is_unsafe
                &&& option_stands_at(options, n as int, UnsafeOption::Via, next.via)
                &&& option_stands_at(options, n as int, UnsafeOption::Bound, next.bound)
            },
            Err(e) => first_option_mistake(options, n as int, e),
        },
    decreases n,
{
    if n > 0 {
        let m = (n - 1) as nat;
        let option = options[m as int];
        lemma_options(request, options, m);
        assert forall|x: UnsafeOption|
            option_before(options, n as int, x) <==> option_before(options, m as int, x) || option
                == x by {
            if option_before(options, m as int, x) {
                let j = choose|j: int| 0 <= j < m && #[trigger] options[j] == x;
                assert(options[j] == x);
            }
            if option == x {
                assert(options[m as int] == x);
            }
        }
        match request.spec_accept_options(options, m) {
            Ok(next) => {
                if next.via is Some {
                    assert(options[next.via->0 as int] == UnsafeOption::Via);
                }
                if next.bound is Some {
                    assert(options[next.bound->0 as int] == UnsafeOption::Bound);
                }
                match request.spec_accept_options(options, n) {
                    Ok(_) => {
                        assert(option_mistake(options, m as int) is None);
                    },
                    Err(e) => {
                        assert(option_mistake(options, m as int) == Some(e));
                    },
                }
            },
            Err(e) => {
                let k = choose|k: int|
                    0 <= k < m && #[trigger] option_mistake(options, k) == Some(e) && forall|j: int|
                        0 <= j < k ==> #[trigger] option_mistake(options, j) is None;
                assert(option_mistake(options, k) == Some(e));
            },
        }
    }
}

/// An option that is right stands in one place.
proof fn lemma_one_place(
    options: Seq<UnsafeOption>,
    option: UnsafeOption,
    at: Option<usize>,
    k: usize,
)
    requires
        options.len() <= usize::MAX,
        options_are_right(options, options.len() as int),
        option_stands_at(options, options.len() as int, option, at),
        option != UnsafeOption::Unknown,
    ensures
        at == Some(k) <==> k < options.len() && options[k as int] == option,
{
    if k < options.len() && options[k as int] == option {
        assert(option_before(options, options.len() as int, option));
        let j = at->0;
        if j < k {
            assert(options[j as int] == option);
            assert(option_before(options, k as int, option));
            assert(option_mistake(options, k as int) is None);
        } else if k < j {
            assert(option_before(options, j as int, option));
            assert(option_mistake(options, j as int) is None);
        }
    }
}

/// Whether a type stands before position `i`.
pub open spec fn type_before(items: Seq<Item>, i: int) -> bool {
    exists|j: int| 0 <= j < i && #[trigger] items[j] is Type
}

/// Whether an `unsafe(...)` stands before position `i`.
pub open spec fn unsafe_before(items: Seq<Item>, i: int) -> bool {
    exists|j: int| 0 <= j < i && #[trigger] items[j] is Unsafe
}

/// The options of an `unsafe(...)`.
pub open spec fn options_of(item: Item) -> Seq<UnsafeOption> {
    item->Unsafe_0@
}

/// Whether the item at position `i` is wrong in this way, seeing what stands before it.
pub open spec fn is_item_mistake(items: Seq<Item>, i: int, e: Error) -> bool {
    if items[i] is Type {
        type_before(items, i) && e == Error::MultipleTypes
    } else if unsafe_before(items, i) {
        e == Error::MultipleUnsafe
    } else {
        first_option_mistake(options_of(items[i]), options_of(items[i]).len() as int, e)
    }
}

/// Whether nothing is wrong with the item at position `i`.
pub open spec fn item_is_right(items: Seq<Item>, i: int) -> bool {
    if items[i] is Type {
        !type_before(items, i)
    } else {
        !unsafe_before(items, i) && options_are_right(
            options_of(items[i]),
            options_of(items[i]).len() as int,
        )
    }
}

/// Whether `e` is the first thing that is wrong with the first `n` items.
pub open spec fn first_item_mistake(items: Seq<Item>, n: int, e: Error) -> bool {
    exists|i: int|
        0 <= i < n && #[trigger] is_item_mistake(items, i, e) && forall|j: int|
            0 <= j < i ==> #[trigger] item_is_right(items, j)
}

/// Whether the `unsafe(...)` among the first `n` items holds an option at position `k`.
pub open spec fn asks(items: Seq<Item>, n: int, option: UnsafeOption, k: int) -> bool {
    exists|i: int|
        0 <= i < n && (#[trigger] items[i]) is Unsafe && 0 <= k < options_of(items[i]).len()
            && options_of(items[i])[k] == option
}

/// Whether a request says what the first `n` items say.
spec fn says(request: Request, items: Seq<Item>, n: int) -> bool {
    &&& match request.ty {
        Some(i) => i < n && items[i as int] is Type,
        None => !type_before(items, n),
    }
    &&& request.is_unsafe <==> unsafe_before(items, n)
    &&& !request.is_unsafe ==> request.via is None && request.bound is None
    &&& forall|k: usize| request.via == Some(k) <==> #[trigger] asks(items, n, UnsafeOption::Via, k as int)
    &&& forall|k: usize|
        request.bound == Some(k) <==> #[trigger] asks(items, n, UnsafeOption::Bound, k as int)
}

proof fn lemma_asks(items: Seq<Item>, m: int, option: UnsafeOption, k: int)
    requires
        0 <= m < items.len(),
    ensures
        asks(items, m + 1, option, k) <==> asks(items, m, option, k) || items[m] is Unsafe && 0 <= k
            < options_of(items[m]).len() && options_of(items[m])[k] == option,
        !unsafe_before(items, m) ==> !asks(items, m, option, k),
{
    if asks(items, m, option, k) {
        let i = choose|i: int|
            0 <= i < m && (#[trigger] items[i]) is Unsafe && 0 <= k < options_of(items[i]).len()
                && options_of(items[i])[k] == option;
        assert(items[i] is Unsafe);
    }
}

proof fn lemma_items(items: Seq<Item>, n: nat)
    requires
        n <= items.len() <= usize::MAX,
    ensures
        match ptr_metadata::spec_parse_items(items, n) {
            Ok(request) => {
                &&& forall|i: int| 0 <= i < n ==> #[trigger] item_is_right(items, i)
                &&& says(request, items, n as int)
            },
            Err(e) => first_item_mistake(items, n as int, e),
        },
    decreases n,
{
    if n > 0 {
        let m = (n - 1) as nat;
        let item = items[m as int];
        lemma_items(items, m);
        assert(type_before(items, n as int) <==> type_before(items, m as int) || item is Type) by {
            if type_before(items, m as int) {
                let j = choose|j: int| 0 <= j < m && #[trigger] items[j] is Type;
                assert(items[j] is Type);
            }
        }
        assert(unsafe_before(items, n as int) <==> unsafe_before(items, m as int) || item is Unsafe)
            by {
            if unsafe_before(items, m as int) {
                let j = choose|j: int| 0 <= j < m && #[trigger] items[j] is Unsafe;
                assert(items[j] is Unsafe);
            }
        }
        match ptr_metadata::spec_parse_items(items, m) {
            Ok(request) => {
                if request.ty is Some {
                    assert(items[request.ty->0 as int] is Type);
                }
                lemma_next_item(items, m as int, request);
            },
            Err(e) => {
                let i = choose|i: int|
                    0 <= i < m && #[trigger] is_item_mistake(items, i, e) && forall|j: int|
                        0 <= j < i ==> #[trigger] item_is_right(items, j);
                assert(is_item_mistake(items, i, e));
            },
        }
    }
}

proof fn lemma_next_item(items: Seq<Item>, m: int, request: Request)
    requires
        0 <= m < items.len() <= usize::MAX,
        forall|i: int| 0 <= i < m ==> #[trigger] item_is_right(items, i),
        says(request, items, m),
        type_before(items, m + 1) <==> type_before(items, m) || items[m] is Type,
        unsafe_before(items, m + 1) <==> unsafe_before(items, m) || items[m] is Unsafe,
        request.ty is Some ==> type_before(items, m),
    ensures
        match request.spec_accept(m as usize, items[m]) {
            Ok(next) => item_is_right(items, m) && says(next, items, m + 1),
            Err(e) => is_item_mistake(items, m, e),
        },
{
    let item = items[m];
    assert forall|k: usize, option: UnsafeOption| #[trigger]
        asks(items, m + 1, option, k as int) <==> asks(items, m, option, k as int)
            || item is Unsafe && k < options_of(item).len() && options_of(item)[k as int]
            == option by {
        lemma_asks(items, m, option, k as int);
    }
    if let Item::Unsafe(list) = item {
        let options = list@;
        assert(options.len() <= usize::MAX) by {
            assert(list.len() == options.len());
        }
        if !request.is_unsafe {
            let begun = Request { is_unsafe: true, ..request };
            lemma_options(begun, options, options.len());
            match begun.spec_accept_options(options, options.len()) {
                Ok(next) => {
                    assert forall|k: usize|
                        next.via == Some(k) <==> #[trigger] asks(
                            items,
                            m + 1,
                            UnsafeOption::Via,
                            k as int,
                        ) by {
                        lemma_one_place(options, UnsafeOption::Via, next.via, k);
                        lemma_asks(items, m, UnsafeOption::Via, k as int);
                    }
                    assert forall|k: usize|
                        next.bound == Some(k) <==> #[trigger] asks(
                            items,
                            m + 1,
                            UnsafeOption::Bound,
                            k as int,
                        ) by {
                        lemma_one_place(options, UnsafeOption::Bound, next.bound, k);
                        lemma_asks(items, m, UnsafeOption::Bound, k as int);
                    }
                },
                Err(_) => {},
            }
        }
    }
}

/// A request says what stands in its attribute: the type where it stands, and `via` and `bound` where
/// they stand among the options of `unsafe(...)`, or none if they do not.
pub proof fn request_says_what_is_asked(items: Seq<Item>, request: Request)
    requires
        items.len() <= usize::MAX,
        ptr_metadata::spec_parse_attribute(items) == Ok::<Request, Error>(request),
    ensures
        forall|i: usize|
            request.ty == Some(i) <==> i < items.len() && #[trigger] items[i as int] is Type,
        request.ty is Some,
        request.is_unsafe <==> exists|i: int| 0 <= i < items.len() && #[trigger] items[i] is Unsafe,
        forall|k: usize|
            request.via == Some(k) <==> #[trigger] asks(
                items,
                items.len() as int,
                UnsafeOption::Via,
                k as int,
            ),
        forall|k: usize|
            request.bound == Some(k) <==> #[trigger] asks(
                items,
                items.len() as int,
                UnsafeOption::Bound,
                k as int,
            ),
        request.via is None <==> forall|i: int|
            0 <= i < items.len() && (#[trigger] items[i]) is Unsafe ==> !options_of(
                items[i],
            ).contains(UnsafeOption::Via),
        request.bound is None <==> forall|i: int|
            0 <= i < items.len() && (#[trigger] items[i]) is Unsafe ==> !options_of(
                items[i],
            ).contains(UnsafeOption::Bound),
{
    let n = items.len() as int;
    lemma_items(items, items.len());
    assert forall|i: usize|
        request.ty == Some(i) <==> i < items.len() && #[trigger] items[i as int] is Type by {
        if i < items.len() && items[i as int] is Type {
            let j = request.ty->0;
            if j < i {
                assert(items[j as int] is Type);
                assert(item_is_right(items, i as int));
            } else if i < j {
                assert(item_is_right(items, j as int));
            }
        }
    }
    lemma_absent(items, UnsafeOption::Via, request.via);
    lemma_absent(items, UnsafeOption::Bound, request.bound);
}

proof fn lemma_absent(items: Seq<Item>, option: UnsafeOption, at: Option<usize>)
    requires
        forall|k: usize|
            at == Some(k) <==> #[trigger] asks(items, items.len() as int, option, k as int),
    ensures
        at is None <==> forall|i: int|
            0 <= i < items.len() && (#[trigger] items[i]) is Unsafe ==> !options_of(
                items[i],
            ).contains(option),
{
    if at is None {
        assert forall|i: int| 0 <= i < items.len() && (#[trigger] items[i]) is Unsafe implies
            !options_of(items[i]).contains(option) by {
            let options = options_of(items[i]);
            if options.contains(option) {
                let k = choose|k: int| 0 <= k < options.len() && options[k] == option;
                assert(options.len() <= usize::MAX) by {
                    assert(items[i]->Unsafe_0.len() == options.len());
                }
                assert(asks(items, items.len() as int, option, k as usize as int));
            }
        }
    } else {
        let k = at->0;
        assert(asks(items, items.len() as int, option, k as int));
        let i = choose|i: int|
            0 <= i < items.len() && (#[trigger] items[i]) is Unsafe && 0 <= k < options_of(
                items[i],
            ).len() && options_of(items[i])[k as int] == option;
        assert(options_of(items[i]).contains(option));
    }
}

/// Reading an attribute fails exactly if an item is wrong, with the first thing that is, or if no type
/// stands in it.
pub proof fn attributes_are_refused_for_what_is_wrong(items: Seq<Item>)
    requires
        items.len() <= usize::MAX,
    ensures
        match ptr_metadata::spec_parse_attribute(items) {
            Ok(_) => {
                &&& type_before(items, items.len() as int)
                &&& forall|i: int| 0 <= i < items.len() ==> #[trigger] item_is_right(items, i)
            },
            Err(e) => {
                ||| first_item_mistake(items, items.len() as int, e)
                ||| e == Error::TypeRequired && !type_before(items, items.len() as int) && forall|
                    i: int,
                |
                    0 <= i < items.len() ==> #[trigger] item_is_right(items, i)
            },
        },
{
    lemma_items(items, items.len());
    match ptr_metadata::spec_parse_attribute(items) {
        Ok(request) => {
            assert(items[request.ty->0 as int] is Type);
        },
        Err(_) => {},
    }
}

/// Taking an option of `unsafe(...)` changes what it asks for and nothing else.
pub proof fn accepted_option_changes_what_it_names(
    request: Request,
    i: usize,
    option: UnsafeOption,
)
    ensures
        match request.spec_accept_option(i, option) {
            Ok(next) => {
                &&& option != UnsafeOption::Unknown
                &&& next.is_unsafe == request.is_unsafe
                &&& next.ty == request.ty
                &&& if option == UnsafeOption::Via {
                    request.via is None && next.via == Some(i) && next.bound == request.bound
                } else {
                    request.bound is None && next.bound == Some(i) && next.via == request.via
                }
            },
            Err(e) => {
                ||| e == Error::UnknownOption && option == UnsafeOption::Unknown
                ||| e == Error::MultipleVia && option == UnsafeOption::Via && request.via is Some
                ||| e == Error::MultipleBounds && option == UnsafeOption::Bound
                    && request.bound is Some
            },
        },
{
}

/// Taking a type or an `unsafe(...)` notes it; a second one is refused.
pub proof fn accepted_item_is_noted(request: Request, i: usize, item: Item)
    requires
        request.is_unsafe || request.via is None && request.bound is None,
    ensures
        match request.spec_accept(i, item) {
            Ok(next) => if item is Type {
                &&& request.ty is None
                &&& next.ty == Some(i)
                &&& next.is_unsafe == request.is_unsafe
                &&& next.via == request.via
                &&& next.bound == request.bound
            } else {
                let options = options_of(item);
                &&& !request.is_unsafe
                &&& next.is_unsafe
                &&& next.ty == request.ty
                &&& forall|k: usize|
                    next.via == Some(k) <==> k < options.len() && #[trigger] options[k as int]
                        == UnsafeOption::Via
                &&& forall|k: usize|
                    next.bound == Some(k) <==> k < options.len() && #[trigger] options[k as int]
                        == UnsafeOption::Bound
            },
            Err(e) => if item is Type {
                e == Error::MultipleTypes && request.ty is Some
            } else if request.is_unsafe {
                e == Error::MultipleUnsafe
            } else {
                first_option_mistake(options_of(item), options_of(item).len() as int, e)
            },
        },
{
    if let Item::Unsafe(list) = item {
        let options = list@;
        assert(options.len() <= usize::MAX) by {
            assert(list.len() == options.len());
        }
        if !request.is_unsafe {
            let begun = Request { is_unsafe: true, ..request };
            lemma_options(begun, options, options.len());
            match begun.spec_accept_options(options, options.len()) {
                Ok(next) => {
                    assert forall|k: usize|
                        next.via == Some(k) <==> k < options.len() && #[trigger] options[k as int]
                            == UnsafeOption::Via by {
                        lemma_one_place(options, UnsafeOption::Via, next.via, k);
                    }
                    assert forall|k: usize|
                        next.bound == Some(k) <==> k < options.len()
                            && #[trigger] options[k as int] == UnsafeOption::Bound by {
                        lemma_one_place(options, UnsafeOption::Bound, next.bound, k);
                    }
                },
                Err(_) => {},
            }
        }
    }
}

/// Each option has its own name, and every other name is unknown.
pub proof fn unsafe_options_are_told_apart(name: Seq<char>)
    ensures
        ptr_metadata::spec_unsafe_option(name) == UnsafeOption::Via <==> name == "via"@,
        ptr_metadata::spec_unsafe_option(name) == UnsafeOption::Bound <==> name == "bound"@,
{
    reveal_strlit("via");
    reveal_strlit("bound");
    assert("via"@.len() == 3);
    assert("bound"@.len() == 5);
}

/// The attributes in the wrong place are those on a field and, in an enum, those on a variant; they
/// are reported in the order in which they stand, fields first.
pub proof fn misplaced_attributes_are_reported(input: Input, e: Error)
    ensures
        ptr_metadata::all_misplaced(input).contains(e) <==> match e {
            Error::OnField(i) => i < input.fields@.len() && input.fields@[i as int],
            Error::OnVariant(i) => input.is_enum && i < input.variants@.len()
                && input.variants@[i as int],
            _ => false,
        },
        forall|a: int, b: int|
            0 <= a < b < ptr_metadata::all_misplaced(input).len() ==> stands_before(
                #[trigger] ptr_metadata::all_misplaced(input)[a],
                #[trigger] ptr_metadata::all_misplaced(input)[b],
            ),
{
    let fields = input.fields@;
    let variants = input.variants@;
    assert(fields.len() <= usize::MAX) by {
        assert(input.fields.len() == fields.len());
    }
    assert(variants.len() <= usize::MAX) by {
        assert(input.variants.len() == variants.len());
    }
    lemma_misplaced(fields, fields.len(), true, e);
    lemma_misplaced(variants, variants.len(), false, e);
    let a = ptr_metadata::misplaced(fields, fields.len(), true);
    let b = if input.is_enum {
        ptr_metadata::misplaced(variants, variants.len(), false)
    } else {
        Seq::empty()
    };
    let all = ptr_metadata::all_misplaced(input);
    assert(all == a + b);
    if all.contains(e) {
        let k = choose|k: int| 0 <= k < all.len() && all[k] == e;
        if k < a.len() {
            assert(a[k] == e);
        } else {
            assert(b[k - a.len()] == e);
        }
    }
    if a.contains(e) {
        let k = choose|k: int| 0 <= k < a.len() && a[k] == e;
        assert(all[k] == e);
    }
    if b.contains(e) {
        let k = choose|k: int| 0 <= k < b.len() && b[k] == e;
        assert(all[a.len() + k] == e);
    }
    assert forall|i: int, j: int| 0 <= i < j < all.len() implies stands_before(
        #[trigger] all[i],
        #[trigger] all[j],
    ) by {
        if j < a.len() {
            assert(stands_before(a[i], a[j]));
        } else if i >= a.len() {
            assert(stands_before(b[i - a.len()], b[j - a.len()]));
        } else {
            assert(a[i] is OnField && b[j - a.len()] is OnVariant);
        }
    }
}

/// Whether an attribute in the wrong place stands before another: those on fields first.
pub open spec fn stands_before(a: Error, b: Error) -> bool {
    match (a, b) {
        (Error::OnField(i), Error::OnField(j)) => i < j,
        (Error::OnField(_), Error::OnVariant(_)) => true,
        (Error::OnVariant(i), Error::OnVariant(j)) => i < j,
        _ => false,
    }
}

proof fn lemma_misplaced(marked: Seq<bool>, n: nat, on_field: bool, e: Error)
    requires
        n <= marked.len() <= usize::MAX,
    ensures
        ({
            let all = ptr_metadata::misplaced(marked, n, on_field);
            &&& all.contains(e) <==> match e {
                Error::OnField(i) => on_field && i < n && marked[i as int],
                Error::OnVariant(i) => !on_field && i < n && marked[i as int],
                _ => false,
            }
            &&& forall|a: int|
                0 <= a < all.len() ==> match #[trigger] all[a] {
                    Error::OnField(i) => on_field && i < n,
                    Error::OnVariant(i) => !on_field && i < n,
                    _ => false,
                }
            &&& forall|a: int, b: int|
                0 <= a < b < all.len() ==> stands_before(#[trigger] all[a], #[trigger] all[b])
        }),
    decreases n,
{
    if n > 0 {
        let m = (n - 1) as nat;
        let before = ptr_metadata::misplaced(marked, m, on_field);
        let all = ptr_metadata::misplaced(marked, n, on_field);
        lemma_misplaced(marked, m, on_field, e);
        if before.contains(e) {
            let k = choose|k: int| 0 <= k < before.len() && before[k] == e;
            assert(all[k] == e);
        }
        if marked[m as int] {
            let last = all[before.len() as int];
            assert(all == before.push(last));
            assert(last == e ==> all.contains(e));
        }
        if all.contains(e) && !before.contains(e) {
            let k = choose|k: int| 0 <= k < all.len() && all[k] == e;
            if k < before.len() {
                assert(before[k] == e);
            }
        }
    }
}

/// What is derived is one request for each attribute, in order, unless something is wrong: then the
/// first attribute that is wrong is reported alone, but the attributes in the wrong place all at once
/// after the first attribute that is right.
pub proof fn requests_follow_the_attributes(input: Input)
    ensures
        ({
            let n = input.attrs@.len();
            let wrong = ptr_metadata::all_misplaced(input);
            match ptr_metadata::spec_derive(input, n) {
                Ok(requests) => {
                    &&& requests.len() == n
                    &&& n > 0 ==> wrong.len() == 0
                    &&& forall|i: int|
                        0 <= i < n ==> ptr_metadata::spec_parse_attribute(
                            (#[trigger] input.attrs@[i])@,
                        ) == Ok::<Request, Error>(requests[i])
                },
                Err(errors) => exists|i: int|
                    0 <= i < n && is_reported(input, i, errors) && forall|j: int|
                        0 <= j < i ==> ptr_metadata::spec_parse_attribute(
                            (#[trigger] input.attrs@[j])@,
                        ) is Ok && wrong.len() == 0,
            }
        }),
{
    lemma_derived(input, input.attrs@.len());
}

/// Whether errors are what is reported at the attribute at position `i`: what is wrong with it, or else
/// the attributes in the wrong place.
pub open spec fn is_reported(input: Input, i: int, errors: Seq<Error>) -> bool {
    match ptr_metadata::spec_parse_attribute(input.attrs@[i]@) {
        Err(e) => errors == seq![e],
        Ok(_) => errors.len() > 0 && errors == ptr_metadata::all_misplaced(input),
    }
}

proof fn lemma_derived(input: Input, n: nat)
    requires
        n <= input.attrs@.len(),
    ensures
        ({
            let wrong = ptr_metadata::all_misplaced(input);
            match ptr_metadata::spec_derive(input, n) {
                Ok(requests) => {
                    &&& requests.len() == n
                    &&& n > 0 ==> wrong.len() == 0
                    &&& forall|i: int|
                        0 <= i < n ==> ptr_metadata::spec_parse_attribute(
                            (#[trigger] input.attrs@[i])@,
                        ) == Ok::<Request, Error>(requests[i])
                },
                Err(errors) => exists|i: int|
                    0 <= i < n && #[trigger] is_reported(input, i, errors) && forall|j: int|
                        0 <= j < i ==> ptr_metadata::spec_parse_attribute(
                            (#[trigger] input.attrs@[j])@,
                        ) is Ok && wrong.len() == 0,
            }
        }),
    decreases n,
{
    if n > 0 {
        let m = (n - 1) as nat;
        lemma_derived(input, m);
        match ptr_metadata::spec_derive(input, m) {
            Ok(_) => {
                match ptr_metadata::spec_derive(input, n) {
                    Ok(_) => {},
                    Err(errors) => {
                        assert(is_reported(input, m as int, errors));
                    },
                }
            },
            Err(errors) => {
                let i = choose|i: int|
                    0 <= i < m && #[trigger] is_reported(input, i, errors) && forall|j: int|
                        0 <= j < i ==> ptr_metadata::spec_parse_attribute(
                            (#[trigger] input.attrs@[j])@,
                        ) is Ok && ptr_metadata::all_misplaced(input).len() == 0;
                assert(is_reported(input, i, errors));
            },
        }
    }
}

} // verus!
