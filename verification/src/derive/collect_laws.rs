//! What `#[derive(Collect)]` makes of the attributes of a type.

use crate::derive::collect::{
    self, FieldError, FieldOption, Input, Lifetime, Mode, OptionName, Options, Plan, UsageError,
};
use vstd::prelude::*;

verus! {

/// Whether an option asks for a mode.
pub open spec fn is_mode(name: OptionName) -> bool {
    name == OptionName::Static || name == OptionName::NoDrop || name == OptionName::UnsafeDrop
}

/// Whether an option stands before position `i`.
pub open spec fn named_before(names: Seq<OptionName>, i: int, name: OptionName) -> bool {
    exists|j: int| 0 <= j < i && #[trigger] names[j] == name
}

/// Whether a mode stands before position `i`.
pub open spec fn mode_before(names: Seq<OptionName>, i: int) -> bool {
    exists|j: int| 0 <= j < i && is_mode(#[trigger] names[j])
}

/// What is wrong with the option at position `i`, seeing what stands before it.
pub open spec fn mistake_at(names: Seq<OptionName>, i: int) -> Option<UsageError> {
    if names[i] == OptionName::Bound {
        if named_before(names, i, OptionName::Bound) {
            Some(UsageError::MultipleBounds)
        } else {
            None
        }
    } else if names[i] == OptionName::GcLifetime {
        if named_before(names, i, OptionName::GcLifetime) {
            Some(UsageError::MultipleLifetimes)
        } else {
            None
        }
    } else if mode_before(names, i) {
        Some(UsageError::MultipleModes)
    } else if names[i] == OptionName::Unknown {
        Some(UsageError::UnknownOption)
    } else {
        None
    }
}

/// Whether `e` is the first thing that is wrong with the first `n` options.
pub open spec fn first_mistake(names: Seq<OptionName>, n: int, e: UsageError) -> bool {
    exists|i: int|
        0 <= i < n && #[trigger] mistake_at(names, i) == Some(e) && forall|j: int|
            0 <= j < i ==> #[trigger] mistake_at(names, j) is None
}

/// Whether nothing is wrong with the first `n` options.
pub open spec fn no_mistake(names: Seq<OptionName>, n: int) -> bool {
    forall|i: int| 0 <= i < n ==> #[trigger] mistake_at(names, i) is None
}

/// Whether `at` is where the option stands among the first `n`, if it does.
pub open spec fn stands_at(
    names: Seq<OptionName>,
    n: int,
    name: OptionName,
    at: Option<usize>,
) -> bool {
    match at {
        Some(k) => k < n && names[k as int] == name,
        None => !named_before(names, n, name),
    }
}

/// Whether options say what the first `n` names say.
pub open spec fn says(options: Options, names: Seq<OptionName>, n: int) -> bool {
    &&& options.mode == Some(Mode::RequireStatic) <==> named_before(names, n, OptionName::Static)
    &&& options.mode == Some(Mode::NoDrop) <==> named_before(names, n, OptionName::NoDrop)
    &&& options.mode == Some(Mode::UnsafeDrop) <==> named_before(names, n, OptionName::UnsafeDrop)
    &&& options.is_ref <==> named_before(names, n, OptionName::Ref)
    &&& stands_at(names, n, OptionName::Bound, options.bound)
    &&& stands_at(names, n, OptionName::GcLifetime, options.gc_lifetime)
}

/// There are three modes.
proof fn lemma_modes(options: Options)
    ensures
        options.mode is Some <==> options.mode == Some(Mode::RequireStatic) || options.mode == Some(
            Mode::NoDrop,
        ) || options.mode == Some(Mode::UnsafeDrop),
{
    match options.mode {
        Some(Mode::RequireStatic) => {},
        Some(Mode::NoDrop) => {},
        Some(Mode::UnsafeDrop) => {},
        None => {},
    }
}

proof fn lemma_parsed(names: Seq<OptionName>, n: nat)
    requires
        n <= names.len() <= usize::MAX,
    ensures
        match collect::spec_parse_options(names, n) {
            Ok(options) => no_mistake(names, n as int) && says(options, names, n as int),
            Err(e) => first_mistake(names, n as int, e),
        },
    decreases n,
{
    if n > 0 {
        let m = (n - 1) as nat;
        let name = names[m as int];
        lemma_parsed(names, m);
        assert forall|x: OptionName|
            named_before(names, n as int, x) <==> named_before(names, m as int, x) || name == x by {
            if named_before(names, m as int, x) {
                let j = choose|j: int| 0 <= j < m && #[trigger] names[j] == x;
                assert(names[j] == x);
            }
            if name == x {
                assert(names[m as int] == x);
            }
        }
        match collect::spec_parse_options(names, m) {
            Ok(options) => {
                lemma_modes(options);
                assert(mode_before(names, m as int) <==> options.mode is Some) by {
                    if mode_before(names, m as int) {
                        let j = choose|j: int| 0 <= j < m && is_mode(#[trigger] names[j]);
                        assert(named_before(names, m as int, names[j]));
                    }
                    if named_before(names, m as int, OptionName::Static) {
                        let j = choose|j: int|
                            0 <= j < m && #[trigger] names[j] == OptionName::Static;
                        assert(is_mode(names[j]));
                    }
                    if named_before(names, m as int, OptionName::NoDrop) {
                        let j = choose|j: int|
                            0 <= j < m && #[trigger] names[j] == OptionName::NoDrop;
                        assert(is_mode(names[j]));
                    }
                    if named_before(names, m as int, OptionName::UnsafeDrop) {
                        let j = choose|j: int|
                            0 <= j < m && #[trigger] names[j] == OptionName::UnsafeDrop;
                        assert(is_mode(names[j]));
                    }
                }
                if options.bound is Some {
                    let k = options.bound->0 as int;
                    assert(names[k] == OptionName::Bound);
                }
                if options.gc_lifetime is Some {
                    let k = options.gc_lifetime->0 as int;
                    assert(names[k] == OptionName::GcLifetime);
                }
                match collect::spec_parse_options(names, n) {
                    Ok(_) => {
                        assert(mistake_at(names, m as int) is None);
                    },
                    Err(e) => {
                        assert(mistake_at(names, m as int) == Some(e));
                    },
                }
            },
            Err(e) => {
                let i = choose|i: int|
                    0 <= i < m && #[trigger] mistake_at(names, i) == Some(e) && forall|j: int|
                        0 <= j < i ==> #[trigger] mistake_at(names, j) is None;
                assert(mistake_at(names, i) == Some(e));
            },
        }
    }
}

/// The options of an attribute say what is named in it: the mode is the one that is named, or none if
/// none is; `ref` counts if it is named; a bound and a lifetime are found where they stand.
pub proof fn options_say_what_is_named(names: Seq<OptionName>, options: Options)
    requires
        names.len() <= usize::MAX,
        collect::spec_parse_options(names, names.len()) == Ok::<Options, UsageError>(options),
    ensures
        options.mode == Some(Mode::RequireStatic) <==> names.contains(OptionName::Static),
        options.mode == Some(Mode::NoDrop) <==> names.contains(OptionName::NoDrop),
        options.mode == Some(Mode::UnsafeDrop) <==> names.contains(OptionName::UnsafeDrop),
        options.mode is None <==> !names.contains(OptionName::Static) && !names.contains(
            OptionName::NoDrop,
        ) && !names.contains(OptionName::UnsafeDrop),
        options.is_ref <==> names.contains(OptionName::Ref),
        forall|k: usize|
            options.bound == Some(k) <==> k < names.len() && #[trigger] names[k as int]
                == OptionName::Bound,
        options.bound is None <==> !names.contains(OptionName::Bound),
        forall|k: usize|
            options.gc_lifetime == Some(k) <==> k < names.len() && #[trigger] names[k as int]
                == OptionName::GcLifetime,
        options.gc_lifetime is None <==> !names.contains(OptionName::GcLifetime),
        !names.contains(OptionName::Unknown),
{
    let n = names.len() as int;
    lemma_parsed(names, names.len());
    lemma_modes(options);
    assert forall|x: OptionName| named_before(names, n, x) <==> #[trigger] names.contains(x) by {
        if names.contains(x) {
            let j = choose|j: int| 0 <= j < n && names[j] == x;
            assert(names[j] == x);
        }
    }
    assert(named_before(names, n, OptionName::Static) == names.contains(OptionName::Static));
    assert(named_before(names, n, OptionName::NoDrop) == names.contains(OptionName::NoDrop));
    assert(named_before(names, n, OptionName::UnsafeDrop) == names.contains(OptionName::UnsafeDrop));
    assert(named_before(names, n, OptionName::Ref) == names.contains(OptionName::Ref));
    assert(named_before(names, n, OptionName::Bound) == names.contains(OptionName::Bound));
    assert(named_before(names, n, OptionName::GcLifetime) == names.contains(OptionName::GcLifetime));
    assert forall|k: usize, x: OptionName, at: Option<usize>|
        #![trigger stands_at(names, n, x, at), names[k as int]]
        (x == OptionName::Bound || x == OptionName::GcLifetime) && stands_at(names, n, x, at)
            implies (at == Some(k) <==> k < n && names[k as int] == x) by {
        if k < n && names[k as int] == x {
            assert(named_before(names, n, x));
            let j = at->0;
            if j < k {
                assert(names[j as int] == x);
                assert(named_before(names, k as int, x));
                assert(mistake_at(names, k as int) is None);
            } else if k < j {
                assert(named_before(names, j as int, x));
                assert(mistake_at(names, j as int) is None);
            }
        }
    }
    assert(stands_at(names, n, OptionName::Bound, options.bound));
    assert(stands_at(names, n, OptionName::GcLifetime, options.gc_lifetime));
    if names.contains(OptionName::Unknown) {
        let j = choose|j: int| 0 <= j < n && names[j] == OptionName::Unknown;
        assert(mistake_at(names, j) is None);
    }
}

/// Reading the options of an attribute fails exactly if one of them is wrong, with the first thing
/// that is.
pub proof fn first_mistake_is_reported(names: Seq<OptionName>)
    requires
        names.len() <= usize::MAX,
    ensures
        match collect::spec_parse_options(names, names.len()) {
            Ok(_) => forall|i: int|
                0 <= i < names.len() ==> #[trigger] mistake_at(names, i) is None,
            Err(e) => first_mistake(names, names.len() as int, e),
        },
{
    lemma_parsed(names, names.len());
}

/// Taking an option changes what it asks for and nothing else, and a refused one is refused for what
/// stood before it.
pub proof fn accepted_option_changes_what_it_names(options: Options, i: usize, name: OptionName)
    ensures
        match options.spec_accept(i, name) {
            Ok(next) => {
                &&& next.mode == (if name == OptionName::Static {
                    Some(Mode::RequireStatic)
                } else if name == OptionName::NoDrop {
                    Some(Mode::NoDrop)
                } else if name == OptionName::UnsafeDrop {
                    Some(Mode::UnsafeDrop)
                } else {
                    options.mode
                })
                &&& next.is_ref == (options.is_ref || name == OptionName::Ref)
                &&& next.bound == (if name == OptionName::Bound {
                    Some(i)
                } else {
                    options.bound
                })
                &&& next.gc_lifetime == (if name == OptionName::GcLifetime {
                    Some(i)
                } else {
                    options.gc_lifetime
                })
                &&& name != OptionName::Unknown
                &&& name == OptionName::Bound ==> options.bound is None
                &&& name == OptionName::GcLifetime ==> options.gc_lifetime is None
                &&& is_mode(name) || name == OptionName::Ref ==> options.mode is None
            },
            Err(e) => {
                ||| e == UsageError::MultipleBounds && name == OptionName::Bound
                    && options.bound is Some
                ||| e == UsageError::MultipleLifetimes && name == OptionName::GcLifetime
                    && options.gc_lifetime is Some
                ||| e == UsageError::MultipleModes && options.mode is Some && name
                    != OptionName::Bound && name != OptionName::GcLifetime
                ||| e == UsageError::UnknownOption && options.mode is None && name
                    == OptionName::Unknown
            },
        },
{
}

/// Each option has its own name, and every other name is unknown.
pub proof fn option_names_are_told_apart(name: Seq<char>)
    ensures
        collect::spec_option_name(name) == OptionName::Bound <==> name == "bound"@,
        collect::spec_option_name(name) == OptionName::GcLifetime <==> name == "gc_lifetime"@,
        collect::spec_option_name(name) == OptionName::Static <==> name == "static"@,
        collect::spec_option_name(name) == OptionName::NoDrop <==> name == "no_drop"@,
        collect::spec_option_name(name) == OptionName::UnsafeDrop <==> name == "unsafe_drop"@,
        collect::spec_option_name(name) == OptionName::Ref <==> name == "ref"@,
{
    reveal_strlit("bound");
    reveal_strlit("gc_lifetime");
    reveal_strlit("static");
    reveal_strlit("no_drop");
    reveal_strlit("unsafe_drop");
    reveal_strlit("ref");
    assert("bound"@.len() == 5);
    assert("gc_lifetime"@.len() == 11);
    assert("static"@.len() == 6);
    assert("no_drop"@.len() == 7);
    assert("unsafe_drop"@.len() == 11);
    assert("ref"@.len() == 3);
    assert("gc_lifetime"@[0] == 'g');
    assert("unsafe_drop"@[0] == 'u');
}

/// Whether an option on a field is a lone `static`.
pub open spec fn lone_static(option: FieldOption) -> bool {
    option.is_static && option.alone
}

/// Whether the attributes on a field ask for it not to be traced.
pub open spec fn asks_static(attrs: Seq<Seq<FieldOption>>) -> bool {
    attrs.len() == 1 && attrs[0].len() > 0 && lone_static(attrs[0][0])
}

/// Whether an attribute on a field holds anything but lone `static`s.
pub open spec fn holds_other(attr: Seq<FieldOption>) -> bool {
    exists|k: int| 0 <= k < attr.len() && !lone_static(#[trigger] attr[k])
}

/// A field is not traced exactly if its only attribute begins with a lone `static`. It is wrong to
/// have several attributes, or anything else in the only one.
pub proof fn field_is_traced_unless_static(i: usize, attrs: Seq<Seq<FieldOption>>)
    ensures
        !collect::spec_plan_field(i, attrs).traced <==> asks_static(attrs),
        collect::spec_plan_field(i, attrs).error == Some(FieldError::MultipleAttributes(i))
            <==> attrs.len() > 1,
        collect::spec_plan_field(i, attrs).error == Some(FieldError::OnlyStatic(i))
            <==> attrs.len() == 1 && holds_other(attrs[0]),
        collect::spec_plan_field(i, attrs).error is None <==> attrs.len() == 0 || attrs.len() == 1
            && !holds_other(attrs[0]),
{
    if attrs.len() == 1 {
        let attr = attrs[0];
        if collect::all_allowed(attr) {
            assert forall|k: int| 0 <= k < attr.len() implies lone_static(#[trigger] attr[k]) by {
                assert(attr[k].allowed());
            }
        } else {
            let k = choose|k: int| 0 <= k < attr.len() && !(#[trigger] attr[k]).allowed();
            assert(!lone_static(attr[k]));
        }
    }
}

/// The attributes of the field at position `i`.
pub open spec fn attrs_of(input: Input, i: int) -> Seq<Seq<FieldOption>> {
    Seq::new(input.fields@[i]@.len(), |k: int| input.fields@[i]@[k]@)
}

/// Whether an option is named in the attributes on the type.
pub open spec fn is_named(input: Input, name: OptionName) -> bool {
    input.attrs@.len() == 1 && input.attrs@[0]@.contains(name)
}

/// A type is refused exactly for more than one attribute, else for the first mistake in the
/// attribute, else for asking to be static and by reference, else for several lifetimes with none
/// given.
pub proof fn types_are_refused_for_what_is_wrong(input: Input)
    ensures
        collect::usage_error(input) == Some(UsageError::MultipleAttributes) <==> input.attrs@.len()
            > 1,
        input.attrs@.len() == 0 && collect::usage_error(input) is Some ==> collect::usage_error(input)
            == Some(UsageError::AmbiguousLifetime),
        input.attrs@.len() == 1 ==> {
            let names = input.attrs@[0]@;
            if no_mistake(names, names.len() as int) {
                collect::usage_error(input) is Some ==> collect::usage_error(input) == Some(
                    UsageError::StaticRef,
                ) || collect::usage_error(input) == Some(UsageError::AmbiguousLifetime)
            } else {
                collect::usage_error(input) matches Some(e) && first_mistake(
                    names,
                    names.len() as int,
                    e,
                )
            }
        },
        input.attrs@.len() == 0 || input.attrs@.len() == 1 && no_mistake(
            input.attrs@[0]@,
            input.attrs@[0]@.len() as int,
        ) ==> {
            &&& collect::usage_error(input) == Some(UsageError::StaticRef) <==> is_named(
                input,
                OptionName::Static,
            ) && is_named(input, OptionName::Ref)
            &&& collect::usage_error(input) == Some(UsageError::AmbiguousLifetime) <==> !is_named(
                input,
                OptionName::Static,
            ) && !is_named(input, OptionName::GcLifetime) && input.lifetimes >= 2
        },
{
    if input.attrs@.len() == 1 {
        let names = input.attrs@[0]@;
        let n = names.len() as int;
        assert(names.len() <= usize::MAX) by {
            assert(input.attrs@[0].len() == names.len());
        }
        lemma_parsed(names, names.len());
        match collect::spec_parse_options(names, names.len()) {
            Ok(options) => {
                options_say_what_is_named(names, options);
            },
            Err(e) => {
                let i = choose|i: int|
                    0 <= i < n && #[trigger] mistake_at(names, i) == Some(e) && forall|j: int|
                        0 <= j < i ==> #[trigger] mistake_at(names, j) is None;
                assert(mistake_at(names, i) is Some);
            },
        }
    }
}

/// Where an error stands among others: those on fields first, then those on variants.
pub open spec fn error_place(e: FieldError) -> (int, int, int) {
    match e {
        FieldError::MultipleAttributes(i) => (0, i as int, 0),
        FieldError::OnlyStatic(i) => (0, i as int, 0),
        FieldError::OnVariant(v, k) => (1, v as int, k as int),
    }
}

/// Whether a place comes before another.
pub open spec fn comes_before(a: (int, int, int), b: (int, int, int)) -> bool {
    a.0 < b.0 || a.0 == b.0 && (a.1 < b.1 || a.1 == b.1 && a.2 < b.2)
}

/// What is derived for a type is what its attributes ask for.
///
/// The mode is the one that is named, or else that the type may not implement `Drop`. The lifetime is
/// the given one, or else the only one, or else every one. A bound is found where it stands.
pub proof fn plan_is_what_is_asked_for(input: Input, plan: Plan)
    requires
        collect::usage_error(input) is None,
        plan.is_for(input, collect::spec_options(input.attrs@)->Ok_0),
    ensures
        input.attrs@.len() <= 1,
        plan.mode == Mode::RequireStatic <==> is_named(input, OptionName::Static),
        plan.mode == Mode::UnsafeDrop <==> is_named(input, OptionName::UnsafeDrop),
        is_named(input, OptionName::NoDrop) ==> plan.mode == Mode::NoDrop,
        plan.is_ref <==> is_named(input, OptionName::Ref),
        match plan.bound {
            Some(k) => input.attrs@.len() == 1 && k < input.attrs@[0]@.len()
                && input.attrs@[0]@[k as int] == OptionName::Bound,
            None => !is_named(input, OptionName::Bound),
        },
        plan.lifetime is None <==> is_named(input, OptionName::Static),
        plan.lifetime matches Some(Lifetime::Given(k)) ==> input.attrs@.len() == 1 && k
            < input.attrs@[0]@.len() && input.attrs@[0]@[k as int] == OptionName::GcLifetime,
        plan.lifetime == Some(Lifetime::Only) ==> input.lifetimes == 1 && !is_named(
            input,
            OptionName::GcLifetime,
        ),
        plan.lifetime == Some(Lifetime::Every) ==> input.lifetimes == 0 && !is_named(
            input,
            OptionName::GcLifetime,
        ),
{
    if input.attrs@.len() == 1 {
        let names = input.attrs@[0]@;
        assert(names.len() <= usize::MAX) by {
            assert(input.attrs@[0].len() == names.len());
        }
        let options = collect::spec_options(input.attrs@)->Ok_0;
        options_say_what_is_named(names, options);
        if plan.bound is Some {
            let k = plan.bound->0;
            assert(names[k as int] == OptionName::Bound);
        }
        if options.gc_lifetime is Some {
            let k = options.gc_lifetime->0;
            assert(names[k as int] == OptionName::GcLifetime);
            assert(names.contains(OptionName::GcLifetime));
        }
    }
}

/// Unless the type is static, each of its fields is traced or required to be static, as its attributes
/// ask; both in the order of the fields.
pub proof fn fields_are_planned_as_asked(input: Input, plan: Plan)
    requires
        collect::usage_error(input) is None,
        plan.is_for(input, collect::spec_options(input.attrs@)->Ok_0),
    ensures
        plan.mode == Mode::RequireStatic ==> plan.traced@.len() == 0 && plan.static_fields@.len()
            == 0,
        plan.mode != Mode::RequireStatic ==> forall|i: usize|
            #![trigger plan.traced@.contains(i)]
            #![trigger plan.static_fields@.contains(i)]
            {
                &&& plan.traced@.contains(i) <==> i < input.fields@.len() && !asks_static(
                    attrs_of(input, i as int),
                )
                &&& plan.static_fields@.contains(i) <==> i < input.fields@.len() && asks_static(
                    attrs_of(input, i as int),
                )
            },
        forall|a: int, b: int|
            0 <= a < b < plan.traced@.len() ==> (#[trigger] plan.traced@[a]) < (
            #[trigger] plan.traced@[b]),
        forall|a: int, b: int|
            0 <= a < b < plan.static_fields@.len() ==> (#[trigger] plan.static_fields@[a]) < (
            #[trigger] plan.static_fields@[b]),
{
    let fields = input.fields@;
    let n = fields.len();
    assert(n <= usize::MAX) by {
        assert(input.fields.len() == n);
    }
    if plan.mode != Mode::RequireStatic {
        lemma_fields_in_order(fields, n, true);
        lemma_fields_in_order(fields, n, false);
        assert forall|i: usize|
            #![trigger plan.traced@.contains(i)]
            #![trigger plan.static_fields@.contains(i)]
            {
                &&& plan.traced@.contains(i) <==> i < n && !asks_static(
                    attrs_of(input, i as int),
                )
                &&& plan.static_fields@.contains(i) <==> i < n && asks_static(
                    attrs_of(input, i as int),
                )
            } by {
            lemma_fields_contain(fields, n, true, i);
            lemma_fields_contain(fields, n, false, i);
            if i < n {
                assert(collect::field_view(fields[i as int]) =~= attrs_of(input, i as int));
                field_is_traced_unless_static(i, attrs_of(input, i as int));
            }
        }
    }
}

proof fn lemma_fields_contain(
    fields: Seq<Vec<Vec<FieldOption>>>,
    n: nat,
    traced: bool,
    i: usize,
)
    requires
        n <= fields.len() <= usize::MAX,
    ensures
        collect::fields_with(fields, n, traced).contains(i) <==> i < n && collect::field_plan(
            fields,
            i as int,
        ).traced == traced,
    decreases n,
{
    if n > 0 {
        let m = (n - 1) as nat;
        let before = collect::fields_with(fields, m, traced);
        let all = collect::fields_with(fields, n, traced);
        lemma_fields_contain(fields, m, traced, i);
        if before.contains(i) {
            let k = choose|k: int| 0 <= k < before.len() && before[k] == i;
            assert(all[k] == i);
        }
        if i == m && collect::field_plan(fields, m as int).traced == traced {
            assert(all[before.len() as int] == i);
        }
        if all.contains(i) && !before.contains(i) {
            let k = choose|k: int| 0 <= k < all.len() && all[k] == i;
            if k < before.len() {
                assert(before[k] == i);
            }
        }
    }
}

proof fn lemma_fields_in_order(fields: Seq<Vec<Vec<FieldOption>>>, n: nat, traced: bool)
    requires
        n <= fields.len() <= usize::MAX,
    ensures
        ({
            let all = collect::fields_with(fields, n, traced);
            &&& forall|a: int| 0 <= a < all.len() ==> (#[trigger] all[a]) < n
            &&& forall|a: int, b: int|
                0 <= a < b < all.len() ==> (#[trigger] all[a]) < (#[trigger] all[b])
        }),
    decreases n,
{
    if n > 0 {
        let before = collect::fields_with(fields, (n - 1) as nat, traced);
        let all = collect::fields_with(fields, n, traced);
        lemma_fields_in_order(fields, (n - 1) as nat, traced);
        assert(all == before || all == before.push((n - 1) as usize));
    }
}

/// What is wrong with the fields is reported, and for an enum every attribute on a variant, in the
/// order in which they stand.
pub proof fn mistakes_on_fields_and_variants_are_reported(input: Input, plan: Plan, e: FieldError)
    requires
        collect::usage_error(input) is None,
        plan.is_for(input, collect::spec_options(input.attrs@)->Ok_0),
    ensures
        plan.mode == Mode::RequireStatic ==> plan.errors@.len() == 0,
        plan.mode != Mode::RequireStatic ==> (plan.errors@.contains(e) <==> match e {
            FieldError::MultipleAttributes(i) => i < input.fields@.len() && input.fields@[i as int]@.len()
                > 1,
            FieldError::OnlyStatic(i) => i < input.fields@.len() && input.fields@[i as int]@.len()
                == 1 && holds_other(input.fields@[i as int]@[0]@),
            FieldError::OnVariant(v, k) => input.is_enum && v < input.variants@.len() && k
                < input.variants@[v as int],
        }),
        forall|a: int, b: int|
            0 <= a < b < plan.errors@.len() ==> comes_before(
                error_place(#[trigger] plan.errors@[a]),
                error_place(#[trigger] plan.errors@[b]),
            ),
{
    if plan.mode != Mode::RequireStatic {
        let fields = input.fields@;
        let variants = input.variants@;
        assert(fields.len() <= usize::MAX) by {
            assert(input.fields.len() == fields.len());
        }
        assert(variants.len() <= usize::MAX) by {
            assert(input.variants.len() == variants.len());
        }
        lemma_field_errors(fields, fields.len(), e);
        lemma_variant_errors(variants, variants.len(), e);
        let a = collect::field_errors(fields, fields.len());
        let b = if input.is_enum {
            collect::variant_errors(variants, variants.len())
        } else {
            Seq::empty()
        };
        let all = a + b;
        assert(plan.errors@ == all);
        if all.contains(e) {
            let k = choose|k: int| 0 <= k < all.len() && all[k] == e;
            if k < a.len() {
                assert(a[k] == e);
            } else {
                assert(b[k - a.len()] == e);
            }
        }
        if a.contains(e) {
            let k = choose|k: int| 0 <= k < a.len() && a[k] == e;
            assert(all[k] == e);
        }
        if b.contains(e) {
            let k = choose|k: int| 0 <= k < b.len() && b[k] == e;
            assert(all[a.len() + k] == e);
        }
        match e {
            FieldError::MultipleAttributes(i) => if i < fields.len() {
                assert(collect::field_view(fields[i as int]).len() == fields[i as int]@.len());
            },
            FieldError::OnlyStatic(i) => if i < fields.len() {
                assert(collect::field_view(fields[i as int]).len() == fields[i as int]@.len());
            },
            _ => {},
        }
    }
}

proof fn lemma_field_errors(fields: Seq<Vec<Vec<FieldOption>>>, n: nat, e: FieldError)
    requires
        n <= fields.len() <= usize::MAX,
    ensures
        ({
            let all = collect::field_errors(fields, n);
            &&& all.contains(e) <==> match e {
                FieldError::MultipleAttributes(i) => i < n && collect::field_view(
                    fields[i as int],
                ).len() > 1,
                FieldError::OnlyStatic(i) => i < n && collect::field_view(fields[i as int]).len()
                    == 1 && holds_other(collect::field_view(fields[i as int])[0]),
                FieldError::OnVariant(_, _) => false,
            }
            &&& forall|a: int|
                0 <= a < all.len() ==> error_place(#[trigger] all[a]).0 == 0 && error_place(all[a]).1
                    < n
            &&& forall|a: int, b: int|
                0 <= a < b < all.len() ==> comes_before(
                    error_place(#[trigger] all[a]),
                    error_place(#[trigger] all[b]),
                )
        }),
    decreases n,
{
    if n > 0 {
        let m = (n - 1) as nat;
        let before = collect::field_errors(fields, m);
        let all = collect::field_errors(fields, n);
        lemma_field_errors(fields, m, e);
        field_is_traced_unless_static(m as usize, collect::field_view(fields[m as int]));
        if before.contains(e) {
            let k = choose|k: int| 0 <= k < before.len() && before[k] == e;
            assert(all[k] == e);
        }
        if collect::field_plan(fields, m as int).error == Some(e) {
            assert(all[before.len() as int] == e);
        }
        if all.contains(e) && !before.contains(e) {
            let k = choose|k: int| 0 <= k < all.len() && all[k] == e;
            if k < before.len() {
                assert(before[k] == e);
            }
        }
    }
}

proof fn lemma_variant_errors(variants: Seq<usize>, n: nat, e: FieldError)
    requires
        n <= variants.len() <= usize::MAX,
    ensures
        ({
            let all = collect::variant_errors(variants, n);
            &&& all.contains(e) <==> (e matches FieldError::OnVariant(v, k) && v < n && k
                < variants[v as int])
            &&& forall|a: int|
                0 <= a < all.len() ==> error_place(#[trigger] all[a]).0 == 1 && error_place(all[a]).1
                    < n
            &&& forall|a: int, b: int|
                0 <= a < b < all.len() ==> comes_before(
                    error_place(#[trigger] all[a]),
                    error_place(#[trigger] all[b]),
                )
        }),
    decreases n,
{
    if n > 0 {
        let m = (n - 1) as nat;
        let before = collect::variant_errors(variants, m);
        let all = collect::variant_errors(variants, n);
        lemma_variant_errors(variants, m, e);
        assert(all.len() == before.len() + variants[m as int]);
        assert forall|k: int| 0 <= k < variants[m as int] implies #[trigger] all[before.len() + k]
            == FieldError::OnVariant(m as usize, k as usize) by {}
        if before.contains(e) {
            let k = choose|k: int| 0 <= k < before.len() && before[k] == e;
            assert(all[k] == e);
        }
        if let FieldError::OnVariant(v, k) = e {
            if v == m && k < variants[m as int] {
                assert(all[before.len() + k] == e);
            }
        }
        if all.contains(e) && !before.contains(e) {
            let k = choose|k: int| 0 <= k < all.len() && all[k] == e;
            if k < before.len() {
                assert(before[k] == e);
            } else {
                assert(all[before.len() + (k - before.len())] == e);
            }
        }
        assert forall|a: int| 0 <= a < all.len() implies error_place(#[trigger] all[a]).0 == 1
            && error_place(all[a]).1 < n by {
            if a < before.len() {
                assert(all[a] == before[a]);
            } else {
                assert(all[before.len() + (a - before.len())] == all[a]);
            }
        }
        assert forall|a: int, b: int| 0 <= a < b < all.len() implies comes_before(
            error_place(#[trigger] all[a]),
            error_place(#[trigger] all[b]),
        ) by {
            if a < before.len() {
                assert(all[a] == before[a]);
            } else {
                assert(all[before.len() + (a - before.len())] == all[a]);
            }
            if b < before.len() {
                assert(all[b] == before[b]);
            } else {
                assert(all[before.len() + (b - before.len())] == all[b]);
            }
        }
    }
}

} // verus!
