use gc_arena::derive::collect::{
    option_name, parse_options, plan_field, FieldError, FieldOption, FieldPlan, Input, Lifetime,
    Mode, OptionName, UsageError,
};
use gc_arena::derive::lifetimes::{unelide, unelide_lifetimes};
use gc_arena::derive::ptr_metadata;
use gc_arena::derive::ptr_metadata::{Item, UnsafeOption};

const STATIC: FieldOption = FieldOption { is_static: true, alone: true };
const OTHER: FieldOption = FieldOption { is_static: false, alone: true };

fn input(options: Vec<OptionName>) -> Input {
    Input {
        attrs: vec![options],
        lifetimes: 1,
        is_enum: false,
        variants: vec![0],
        fields: vec![vec![], vec![vec![STATIC]], vec![]],
    }
}

#[test]
fn options_are_recognized() {
    assert_eq!(option_name("bound"), OptionName::Bound);
    assert_eq!(option_name("gc_lifetime"), OptionName::GcLifetime);
    assert_eq!(option_name("static"), OptionName::Static);
    assert_eq!(option_name("no_drop"), OptionName::NoDrop);
    assert_eq!(option_name("unsafe_drop"), OptionName::UnsafeDrop);
    assert_eq!(option_name("ref"), OptionName::Ref);
    assert_eq!(option_name("nodrop"), OptionName::Unknown);
}

#[test]
fn mistakes_in_the_options() {
    assert_eq!(
        parse_options(&vec![OptionName::Bound, OptionName::NoDrop, OptionName::Bound]),
        Err(UsageError::MultipleBounds)
    );
    assert_eq!(
        parse_options(&vec![OptionName::GcLifetime, OptionName::GcLifetime]),
        Err(UsageError::MultipleLifetimes)
    );
    assert_eq!(
        parse_options(&vec![OptionName::NoDrop, OptionName::Static]),
        Err(UsageError::MultipleModes)
    );
    assert_eq!(
        parse_options(&vec![OptionName::NoDrop, OptionName::Ref]),
        Err(UsageError::MultipleModes)
    );
    assert_eq!(parse_options(&vec![OptionName::Unknown]), Err(UsageError::UnknownOption));
}

#[test]
fn options_are_collected() {
    let options = parse_options(&vec![
        OptionName::Ref,
        OptionName::UnsafeDrop,
        OptionName::Bound,
        OptionName::GcLifetime,
    ])
    .unwrap();
    assert_eq!(options.mode, Some(Mode::UnsafeDrop));
    assert!(options.is_ref);
    assert_eq!(options.bound, Some(2));
    assert_eq!(options.gc_lifetime, Some(3));
}

#[test]
fn types_are_planned() {
    let plan = gc_arena::derive::collect::derive(&input(vec![])).ok().unwrap();
    assert_eq!(plan.mode, Mode::NoDrop);
    assert_eq!(plan.lifetime, Some(Lifetime::Only));
    assert_eq!(plan.traced, vec![0, 2]);
    assert_eq!(plan.static_fields, vec![1]);
    assert!(plan.errors.is_empty());

    let plan = gc_arena::derive::collect::derive(&input(vec![OptionName::GcLifetime])).ok().unwrap();
    assert_eq!(plan.lifetime, Some(Lifetime::Given(0)));

    let mut free = input(vec![OptionName::UnsafeDrop]);
    free.lifetimes = 0;
    let plan = gc_arena::derive::collect::derive(&free).ok().unwrap();
    assert_eq!(plan.mode, Mode::UnsafeDrop);
    assert_eq!(plan.lifetime, Some(Lifetime::Every));

    let mut bare = input(vec![]);
    bare.attrs.clear();
    assert_eq!(gc_arena::derive::collect::derive(&bare).ok().unwrap().mode, Mode::NoDrop);
}

#[test]
fn static_types_trace_nothing() {
    let mut two = input(vec![OptionName::Static]);
    two.lifetimes = 2;
    let plan = gc_arena::derive::collect::derive(&two).ok().unwrap();
    assert_eq!(plan.mode, Mode::RequireStatic);
    assert_eq!(plan.lifetime, None);
    assert!(plan.traced.is_empty());
}

#[test]
fn mistakes_on_the_type() {
    let mut twice = input(vec![]);
    twice.attrs.push(vec![]);
    assert_eq!(gc_arena::derive::collect::derive(&twice).err(), Some(UsageError::MultipleAttributes));
    assert_eq!(
        gc_arena::derive::collect::derive(&input(vec![OptionName::Ref, OptionName::Static])).err(),
        Some(UsageError::StaticRef)
    );
    let mut many = input(vec![]);
    many.lifetimes = 2;
    assert_eq!(gc_arena::derive::collect::derive(&many).err(), Some(UsageError::AmbiguousLifetime));
}

#[test]
fn fields_are_planned() {
    assert_eq!(plan_field(3, &vec![]), FieldPlan { traced: true, error: None });
    assert_eq!(plan_field(3, &vec![vec![]]), FieldPlan { traced: true, error: None });
    assert_eq!(plan_field(3, &vec![vec![STATIC]]), FieldPlan { traced: false, error: None });
    assert_eq!(
        plan_field(3, &vec![vec![OTHER]]),
        FieldPlan { traced: true, error: Some(FieldError::OnlyStatic(3)) }
    );
    assert_eq!(
        plan_field(3, &vec![vec![STATIC], vec![STATIC]]),
        FieldPlan { traced: true, error: Some(FieldError::MultipleAttributes(3)) }
    );
}

#[test]
fn attributes_on_variants_are_reported() {
    let mut variants = input(vec![OptionName::NoDrop]);
    variants.variants = vec![0, 2];
    variants.fields = vec![vec![vec![OTHER]]];
    assert_eq!(gc_arena::derive::collect::derive(&variants).ok().unwrap().errors, vec![FieldError::OnlyStatic(0)]);
    variants.is_enum = true;
    assert_eq!(
        gc_arena::derive::collect::derive(&variants).ok().unwrap().errors,
        vec![
            FieldError::OnlyStatic(0),
            FieldError::OnVariant(1, 0),
            FieldError::OnVariant(1, 1)
        ]
    );
}

fn metadata(attrs: Vec<Vec<Item>>) -> ptr_metadata::Input {
    ptr_metadata::Input { attrs, is_enum: false, variants: vec![false], fields: vec![false] }
}

fn items(options: Vec<UnsafeOption>) -> Vec<Item> {
    vec![Item::Type, Item::Unsafe(options)]
}

#[test]
fn metadata_is_planned() {
    assert_eq!(ptr_metadata::unsafe_option("via"), UnsafeOption::Via);
    assert_eq!(ptr_metadata::unsafe_option("bound"), UnsafeOption::Bound);
    assert_eq!(ptr_metadata::unsafe_option("other"), UnsafeOption::Unknown);
    let plan = ptr_metadata::derive(&metadata(vec![
        items(vec![UnsafeOption::Via, UnsafeOption::Bound]),
        vec![Item::Type],
    ]))
    .ok()
    .unwrap();
    assert_eq!(plan.len(), 2);
    assert_eq!((plan[0].ty, plan[0].via, plan[0].bound), (Some(0), Some(0), Some(1)));
    assert_eq!((plan[1].ty, plan[1].via, plan[1].bound), (Some(0), None, None));
    assert_eq!(ptr_metadata::derive(&metadata(vec![])), Ok(vec![]));
}

#[test]
fn mistakes_in_metadata() {
    let first = |items| ptr_metadata::derive(&metadata(vec![items])).err().unwrap()[0];
    assert_eq!(
        first(vec![Item::Unsafe(vec![]), Item::Unsafe(vec![])]),
        ptr_metadata::Error::MultipleUnsafe
    );
    assert_eq!(
        first(items(vec![UnsafeOption::Via, UnsafeOption::Via])),
        ptr_metadata::Error::MultipleVia
    );
    assert_eq!(
        first(items(vec![UnsafeOption::Bound, UnsafeOption::Bound])),
        ptr_metadata::Error::MultipleBounds
    );
    assert_eq!(
        first(items(vec![UnsafeOption::Unknown])),
        ptr_metadata::Error::UnknownOption
    );
    assert_eq!(first(vec![Item::Type, Item::Type]), ptr_metadata::Error::MultipleTypes);
    assert_eq!(first(vec![Item::Unsafe(vec![])]), ptr_metadata::Error::TypeRequired);
}

#[test]
fn misplaced_metadata_attributes() {
    let mut placed = metadata(vec![vec![Item::Type]]);
    placed.fields = vec![false, true];
    placed.variants = vec![true];
    assert_eq!(ptr_metadata::derive(&placed), Err(vec![ptr_metadata::Error::OnField(1)]));
    placed.is_enum = true;
    assert_eq!(
        ptr_metadata::derive(&placed),
        Err(vec![ptr_metadata::Error::OnField(1), ptr_metadata::Error::OnVariant(0)])
    );
}

#[test]
fn lifetimes_are_named() {
    assert_eq!(unelide("_", "gc"), "gc");
    assert_eq!(unelide("a", "gc"), "a");
    assert_eq!(
        unelide_lifetimes(&vec!["_".to_string(), "static".to_string()], "gc"),
        vec!["gc".to_string(), "static".to_string()]
    );
}
