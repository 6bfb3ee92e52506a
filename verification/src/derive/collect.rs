//! Deriving `Collect`.

use vstd::prelude::*;

verus! {

/// How the derived implementation keeps `Drop` from reaching collected pointers.
#[derive(Clone, Copy, Debug, PartialEq, Eq, Structural)]
pub enum Mode {
    /// The type must be `'static`, so that it cannot hold pointers.
    RequireStatic,
    /// The type must not implement `Drop`.
    NoDrop,
    /// The type may implement `Drop`, which must not touch collected pointers.
    UnsafeDrop,
}

/// What an option in `#[collect(...)]` is called.
#[derive(Clone, Copy, Debug, PartialEq, Eq, Structural)]
pub enum OptionName {
    /// `bound(...)`
    Bound,
    /// `gc_lifetime = ...`
    GcLifetime,
    /// `static`
    Static,
    /// `no_drop`
    NoDrop,
    /// `unsafe_drop`
    UnsafeDrop,
    /// `ref`
    Ref,
    /// Anything else.
    Unknown,
}

/// A mistake in the attributes on the type.
#[derive(Clone, Copy, Debug, PartialEq, Eq, Structural)]
pub enum UsageError {
    /// More than one `#[collect]` attribute.
    MultipleAttributes,
    /// More than one `bound(...)`.
    MultipleBounds,
    /// More than one `gc_lifetime = ...`.
    MultipleLifetimes,
    /// More than one mode, or `ref` after a mode.
    MultipleModes,
    /// An option that there is not.
    UnknownOption,
    /// Both `static` and `ref`.
    StaticRef,
    /// Several lifetime parameters and no `gc_lifetime = ...`.
    AmbiguousLifetime,
}

/// The name of an option.
pub open spec fn spec_option_name(name: Seq<char>) -> OptionName {
    if name == "bound"@ {
        OptionName::Bound
    } else if name == "gc_lifetime"@ {
        OptionName::GcLifetime
    } else if name == "static"@ {
        OptionName::Static
    } else if name == "no_drop"@ {
        OptionName::NoDrop
    } else if name == "unsafe_drop"@ {
        OptionName::UnsafeDrop
    } else if name == "ref"@ {
        OptionName::Ref
    } else {
        OptionName::Unknown
    }
}

/// Recognizes the name of an option.
pub fn option_name(name: &str) -> (r: OptionName)
    ensures
        r == spec_option_name(name@),
{
    let name = name.to_owned();
    if name == "bound".to_owned() {
        OptionName::Bound
    } else if name == "gc_lifetime".to_owned() {
        OptionName::GcLifetime
    } else if name == "static".to_owned() {
        OptionName::Static
    } else if name == "no_drop".to_owned() {
        OptionName::NoDrop
    } else if name == "unsafe_drop".to_owned() {
        OptionName::UnsafeDrop
    } else if name == "ref".to_owned() {
        OptionName::Ref
    } else {
        OptionName::Unknown
    }
}

/// What the options of a `#[collect(...)]` attribute ask for.
#[derive(Clone, Copy, Debug, PartialEq, Eq, Structural)]
pub struct Options {
    pub mode: Option<Mode>,
    pub is_ref: bool,
    /// The position of `bound(...)` among the options.
    pub bound: Option<usize>,
    /// The position of `gc_lifetime = ...` among the options.
    pub gc_lifetime: Option<usize>,
}

impl Options {
    pub open spec fn none() -> Options {
        Options { mode: None, is_ref: false, bound: None, gc_lifetime: None }
    }

    /// The options after the one at position `i`, or what is wrong with it.
    pub open spec fn spec_accept(self, i: usize, name: OptionName) -> Result<Options, UsageError> {
        match name {
            OptionName::Bound => if self.bound is Some {
                Err(UsageError::MultipleBounds)
            } else {
                Ok(Options { bound: Some(i), ..self })
            },
            OptionName::GcLifetime => if self.gc_lifetime is Some {
                Err(UsageError::MultipleLifetimes)
            } else {
                Ok(Options { gc_lifetime: Some(i), ..self })
            },
            _ => if self.mode is Some {
                Err(UsageError::MultipleModes)
            } else {
                match name {
                    OptionName::Static => Ok(Options { mode: Some(Mode::RequireStatic), ..self }),
                    OptionName::NoDrop => Ok(Options { mode: Some(Mode::NoDrop), ..self }),
                    OptionName::UnsafeDrop => Ok(Options { mode: Some(Mode::UnsafeDrop), ..self }),
                    OptionName::Ref => Ok(Options { is_ref: true, ..self }),
                    _ => Err(UsageError::UnknownOption),
                }
            },
        }
    }

    /// Takes the option at position `i`.
    pub fn accept(self, i: usize, name: OptionName) -> (r: Result<Options, UsageError>)
        ensures
            r == self.spec_accept(i, name),
    {
        match name {
            OptionName::Bound => {
                if self.bound.is_some() {
                    return Err(UsageError::MultipleBounds);
                }
                Ok(Options { bound: Some(i), ..self })
            },
            OptionName::GcLifetime => {
                if self.gc_lifetime.is_some() {
                    return Err(UsageError::MultipleLifetimes);
                }
                Ok(Options { gc_lifetime: Some(i), ..self })
            },
            _ => {
                if self.mode.is_some() {
                    return Err(UsageError::MultipleModes);
                }
                match name {
                    OptionName::Static => Ok(Options { mode: Some(Mode::RequireStatic), ..self }),
                    OptionName::NoDrop => Ok(Options { mode: Some(Mode::NoDrop), ..self }),
                    OptionName::UnsafeDrop => Ok(Options { mode: Some(Mode::UnsafeDrop), ..self }),
                    OptionName::Ref => Ok(Options { is_ref: true, ..self }),
                    _ => Err(UsageError::UnknownOption),
                }
            },
        }
    }
}

/// What the first `n` options ask for, or the first thing that is wrong.
pub open spec fn spec_parse_options(names: Seq<OptionName>, n: nat) -> Result<Options, UsageError>
    decreases n,
{
    if n == 0 {
        Ok(Options::none())
    } else {
        match spec_parse_options(names, (n - 1) as nat) {
            Ok(options) => options.spec_accept((n - 1) as usize, names[n - 1]),
            Err(e) => Err(e),
        }
    }
}

/// Reads the options of a `#[collect(...)]` attribute.
pub fn parse_options(names: &Vec<OptionName>) -> (r: Result<Options, UsageError>)
    ensures
        r == spec_parse_options(names@, names@.len()),
{
    let mut options = Options { mode: None, is_ref: false, bound: None, gc_lifetime: None };
    let mut i: usize = 0;
    while i < names.len()
        invariant
            i <= names@.len(),
            spec_parse_options(names@, i as nat) == Ok::<Options, UsageError>(options),
        decreases names@.len() - i,
    {
        match options.accept(i, names[i]) {
            Ok(next) => {
                options = next;
            },
            Err(e) => {
                proof {
                    lemma_error_stays(names@, (i + 1) as nat, names@.len());
                }
                return Err(e);
            },
        }
        i += 1;
    }
    Ok(options)
}

/// The first thing that is wrong is reported, whatever follows.
pub proof fn lemma_error_stays(names: Seq<OptionName>, i: nat, n: nat)
    requires
        i <= n,
        spec_parse_options(names, i) is Err,
    ensures
        spec_parse_options(names, n) == spec_parse_options(names, i),
    decreases n - i,
{
    if i < n {
        lemma_error_stays(names, i, (n - 1) as nat);
    }
}

/// An option in a `#[collect(...)]` attribute on a field.
#[derive(Clone, Copy, Debug, PartialEq, Eq, Structural)]
pub struct FieldOption {
    pub is_static: bool,
    /// Whether nothing follows the name of the option.
    pub alone: bool,
}

impl FieldOption {
    /// Only a lone `static` is allowed on a field.
    pub open spec fn allowed(self) -> bool {
        self.is_static && self.alone
    }
}

/// A mistake in the attributes on a field or a variant.
#[derive(Clone, Copy, Debug, PartialEq, Eq, Structural)]
pub enum FieldError {
    /// More than one `#[collect]` attribute on the field at this position.
    MultipleAttributes(usize),
    /// Something other than `static` on the field at this position.
    OnlyStatic(usize),
    /// A `#[collect]` attribute on the variant at the first position, the one at the second among
    /// those.
    OnVariant(usize, usize),
}

/// What becomes of a field.
#[derive(Clone, Copy, Debug, PartialEq, Eq, Structural)]
pub struct FieldPlan {
    /// Whether the field is traced. One that is not must be `'static`.
    pub traced: bool,
    pub error: Option<FieldError>,
}

/// Whether all options on a field are allowed.
pub open spec fn all_allowed(options: Seq<FieldOption>) -> bool {
    forall|i: int| 0 <= i < options.len() ==> (#[trigger] options[i]).allowed()
}

/// What becomes of the field at position `i` with these `#[collect]` attributes.
pub open spec fn spec_plan_field(i: usize, attrs: Seq<Seq<FieldOption>>) -> FieldPlan {
    if attrs.len() == 0 {
        FieldPlan { traced: true, error: None }
    } else if attrs.len() > 1 {
        FieldPlan { traced: true, error: Some(FieldError::MultipleAttributes(i)) }
    } else {
        FieldPlan {
            traced: !(attrs[0].len() > 0 && attrs[0][0].allowed()),
            error: if all_allowed(attrs[0]) {
                None
            } else {
                Some(FieldError::OnlyStatic(i))
            },
        }
    }
}

/// The attributes of a field.
pub open spec fn field_view(attrs: Vec<Vec<FieldOption>>) -> Seq<Seq<FieldOption>> {
    Seq::new(attrs@.len(), |i: int| attrs@[i]@)
}

/// Decides what becomes of a field.
pub fn plan_field(i: usize, attrs: &Vec<Vec<FieldOption>>) -> (plan: FieldPlan)
    ensures
        plan == spec_plan_field(i, field_view(*attrs)),
{
    if attrs.len() == 0 {
        return FieldPlan { traced: true, error: None };
    }
    if attrs.len() > 1 {
        return FieldPlan { traced: true, error: Some(FieldError::MultipleAttributes(i)) };
    }
    let options = &attrs[0];
    assert(field_view(*attrs)[0] == options@);
    let mut is_static: bool = false;
    let mut j: usize = 0;
    while j < options.len()
        invariant
            j <= options@.len(),
            forall|k: int| 0 <= k < j ==> (#[trigger] options@[k]).allowed(),
            is_static == (j > 0),
            field_view(*attrs).len() == 1,
            field_view(*attrs)[0] == options@,
        decreases options@.len() - j,
    {
        if options[j].is_static && options[j].alone {
            is_static = true;
        } else {
            assert(!options@[j as int].allowed());
            return FieldPlan { traced: !is_static, error: Some(FieldError::OnlyStatic(i)) };
        }
        j += 1;
    }
    FieldPlan { traced: !is_static, error: None }
}

/// What a type looks like to the derive macro.
pub struct Input {
    /// The options of each `#[collect]` attribute on the type.
    pub attrs: Vec<Vec<OptionName>>,
    /// The number of lifetime parameters.
    pub lifetimes: usize,
    pub is_enum: bool,
    /// The number of `#[collect]` attributes on each variant.
    pub variants: Vec<usize>,
    /// The `#[collect]` attributes on each field, variant after variant.
    pub fields: Vec<Vec<Vec<FieldOption>>>,
}

/// Which lifetime stands for the arena.
#[derive(Clone, Copy, Debug, PartialEq, Eq, Structural)]
pub enum Lifetime {
    /// The one given by the option at this position.
    Given(usize),
    /// The only lifetime parameter of the type.
    Only,
    /// Every lifetime.
    Every,
}

/// What the derived implementation looks like.
pub struct Plan {
    pub mode: Mode,
    pub is_ref: bool,
    /// The position of the bound that replaces the default one.
    pub bound: Option<usize>,
    /// The lifetime, unless the type is `'static`.
    pub lifetime: Option<Lifetime>,
    /// The fields that are traced.
    pub traced: Vec<usize>,
    /// The fields that must be `'static`.
    pub static_fields: Vec<usize>,
    pub errors: Vec<FieldError>,
}

/// What the attributes on the type ask for, or the first thing that is wrong.
pub open spec fn spec_options(attrs: Seq<Vec<OptionName>>) -> Result<Options, UsageError> {
    if attrs.len() == 0 {
        Ok(Options::none())
    } else if attrs.len() > 1 {
        Err(UsageError::MultipleAttributes)
    } else {
        spec_parse_options(attrs[0]@, attrs[0]@.len())
    }
}

/// The mode that is used if none is given.
pub open spec fn mode_of(options: Options) -> Mode {
    match options.mode {
        Some(mode) => mode,
        None => Mode::NoDrop,
    }
}

/// The lifetime of the derived implementation.
pub open spec fn spec_lifetime(options: Options, lifetimes: usize) -> Result<Lifetime, UsageError> {
    match options.gc_lifetime {
        Some(i) => Ok(Lifetime::Given(i)),
        None => if lifetimes == 0 {
            Ok(Lifetime::Every)
        } else if lifetimes == 1 {
            Ok(Lifetime::Only)
        } else {
            Err(UsageError::AmbiguousLifetime)
        },
    }
}

/// What becomes of the field at position `i`.
pub open spec fn field_plan(fields: Seq<Vec<Vec<FieldOption>>>, i: int) -> FieldPlan {
    spec_plan_field(i as usize, field_view(fields[i]))
}

/// The positions among the first `n` fields that are traced, or that are not.
pub open spec fn fields_with(fields: Seq<Vec<Vec<FieldOption>>>, n: nat, traced: bool) -> Seq<usize>
    decreases n,
{
    if n == 0 {
        Seq::empty()
    } else {
        let before = fields_with(fields, (n - 1) as nat, traced);
        if field_plan(fields, n - 1).traced == traced {
            before.push((n - 1) as usize)
        } else {
            before
        }
    }
}

/// What is wrong with the first `n` fields.
pub open spec fn field_errors(fields: Seq<Vec<Vec<FieldOption>>>, n: nat) -> Seq<FieldError>
    decreases n,
{
    if n == 0 {
        Seq::empty()
    } else {
        let before = field_errors(fields, (n - 1) as nat);
        match field_plan(fields, n - 1).error {
            Some(e) => before.push(e),
            None => before,
        }
    }
}

/// One error for each attribute on the first `n` variants.
pub open spec fn variant_errors(variants: Seq<usize>, n: nat) -> Seq<FieldError>
    decreases n,
{
    if n == 0 {
        Seq::empty()
    } else {
        variant_errors(variants, (n - 1) as nat) + Seq::new(
            variants[n - 1] as nat,
            |i: int| FieldError::OnVariant((n - 1) as usize, i as usize),
        )
    }
}

impl Plan {
    /// Whether this is the plan for a type.
    pub open spec fn is_for(self, input: Input, options: Options) -> bool {
        &&& self.mode == mode_of(options)
        &&& self.is_ref == options.is_ref
        &&& self.bound == options.bound
        &&& if self.mode == Mode::RequireStatic {
            &&& self.lifetime is None
            &&& self.traced@.len() == 0
            &&& self.static_fields@.len() == 0
            &&& self.errors@.len() == 0
        } else {
            &&& spec_lifetime(options, input.lifetimes) is Ok
            &&& self.lifetime == Some(spec_lifetime(options, input.lifetimes)->Ok_0)
            &&& self.traced@ == fields_with(input.fields@, input.fields@.len(), true)
            &&& self.static_fields@ == fields_with(input.fields@, input.fields@.len(), false)
            &&& self.errors@ == field_errors(input.fields@, input.fields@.len()) + if input.is_enum {
                variant_errors(input.variants@, input.variants@.len())
            } else {
                Seq::empty()
            }
        }
    }
}

/// What is wrong with the type as a whole, if anything is.
pub open spec fn usage_error(input: Input) -> Option<UsageError> {
    match spec_options(input.attrs@) {
        Err(e) => Some(e),
        Ok(options) => if mode_of(options) == Mode::RequireStatic {
            if options.is_ref {
                Some(UsageError::StaticRef)
            } else {
                None
            }
        } else {
            match spec_lifetime(options, input.lifetimes) {
                Err(e) => Some(e),
                Ok(_) => None,
            }
        },
    }
}

/// Plans the derived implementation.
pub fn derive(input: &Input) -> (r: Result<Plan, UsageError>)
    ensures
        match r {
            Err(e) => usage_error(*input) == Some(e),
            Ok(plan) => {
                &&& usage_error(*input) is None
                &&& plan.is_for(*input, spec_options(input.attrs@)->Ok_0)
            },
        },
{
    let options = if input.attrs.len() == 0 {
        Options { mode: None, is_ref: false, bound: None, gc_lifetime: None }
    } else if input.attrs.len() > 1 {
        return Err(UsageError::MultipleAttributes);
    } else {
        match parse_options(&input.attrs[0]) {
            Ok(options) => options,
            Err(e) => {
                return Err(e);
            },
        }
    };
    let mode = match options.mode {
        Some(mode) => mode,
        None => Mode::NoDrop,
    };
    if options.is_ref && matches!(mode, Mode::RequireStatic) {
        return Err(UsageError::StaticRef);
    }
    let mut plan = Plan {
        mode,
        is_ref: options.is_ref,
        bound: options.bound,
        lifetime: None,
        traced: Vec::new(),
        static_fields: Vec::new(),
        errors: Vec::new(),
    };
    if matches!(mode, Mode::RequireStatic) {
        return Ok(plan);
    }
    plan_fields(&mut plan, &input.fields);
    if input.is_enum {
        plan_variants(&mut plan, &input.variants);
    } else {
        assert(plan.errors@ + Seq::<FieldError>::empty() =~= plan.errors@);
    }
    let lifetime = match options.gc_lifetime {
        Some(i) => Lifetime::Given(i),
        None => if input.lifetimes == 0 {
            Lifetime::Every
        } else if input.lifetimes == 1 {
            Lifetime::Only
        } else {
            return Err(UsageError::AmbiguousLifetime);
        },
    };
    plan.lifetime = Some(lifetime);
    Ok(plan)
}

/// Decides what becomes of each field.
fn plan_fields(plan: &mut Plan, fields: &Vec<Vec<Vec<FieldOption>>>)
    requires
        old(plan).traced@.len() == 0,
        old(plan).static_fields@.len() == 0,
        old(plan).errors@.len() == 0,
    ensures
        final(plan).mode == old(plan).mode,
        final(plan).is_ref == old(plan).is_ref,
        final(plan).bound == old(plan).bound,
        final(plan).lifetime == old(plan).lifetime,
        final(plan).traced@ == fields_with(fields@, fields@.len(), true),
        final(plan).static_fields@ == fields_with(fields@, fields@.len(), false),
        final(plan).errors@ == field_errors(fields@, fields@.len()),
{
    let mut i: usize = 0;
    while i < fields.len()
        invariant
            i <= fields@.len(),
            plan.mode == old(plan).mode,
            plan.is_ref == old(plan).is_ref,
            plan.bound == old(plan).bound,
            plan.lifetime == old(plan).lifetime,
            plan.traced@ == fields_with(fields@, i as nat, true),
            plan.static_fields@ == fields_with(fields@, i as nat, false),
            plan.errors@ == field_errors(fields@, i as nat),
        decreases fields@.len() - i,
    {
        let field = plan_field(i, &fields[i]);
        assert(field == field_plan(fields@, i as int));
        if field.traced {
            plan.traced.push(i);
        } else {
            plan.static_fields.push(i);
        }
        if let Some(e) = field.error {
            plan.errors.push(e);
        }
        i += 1;
    }
}

/// Reports every attribute on a variant.
fn plan_variants(plan: &mut Plan, variants: &Vec<usize>)
    ensures
        final(plan).mode == old(plan).mode,
        final(plan).is_ref == old(plan).is_ref,
        final(plan).bound == old(plan).bound,
        final(plan).lifetime == old(plan).lifetime,
        final(plan).traced@ == old(plan).traced@,
        final(plan).static_fields@ == old(plan).static_fields@,
        final(plan).errors@ == old(plan).errors@ + variant_errors(variants@, variants@.len()),
{
    let mut i: usize = 0;
    assert(plan.errors@ =~= old(plan).errors@ + variant_errors(variants@, 0));
    while i < variants.len()
        invariant
            i <= variants@.len(),
            plan.mode == old(plan).mode,
            plan.is_ref == old(plan).is_ref,
            plan.bound == old(plan).bound,
            plan.lifetime == old(plan).lifetime,
            plan.traced@ == old(plan).traced@,
            plan.static_fields@ == old(plan).static_fields@,
            plan.errors@ == old(plan).errors@ + variant_errors(variants@, i as nat),
        decreases variants@.len() - i,
    {
        let ghost before = plan.errors@;
        let mut j: usize = 0;
        while j < variants[i as usize]
            invariant
                i < variants@.len(),
                j <= variants@[i as int],
                plan.mode == old(plan).mode,
                plan.is_ref == old(plan).is_ref,
                plan.bound == old(plan).bound,
                plan.lifetime == old(plan).lifetime,
                plan.traced@ == old(plan).traced@,
                plan.static_fields@ == old(plan).static_fields@,
                plan.errors@ == before + Seq::new(
                    j as nat,
                    |k: int| FieldError::OnVariant(i, k as usize),
                ),
            decreases variants@[i as int] - j,
        {
            plan.errors.push(FieldError::OnVariant(i, j));
            j += 1;
            assert(plan.errors@ =~= before + Seq::new(
                j as nat,
                |k: int| FieldError::OnVariant(i, k as usize),
            ));
        }
        i += 1;
        assert(plan.errors@ =~= old(plan).errors@ + variant_errors(variants@, i as nat));
    }
}

/// Every field is either traced or required to be `'static`.
pub proof fn every_field_is_planned(fields: Seq<Vec<Vec<FieldOption>>>, n: nat, i: usize)
    requires
        i < n <= fields.len() <= usize::MAX,
    ensures
        fields_with(fields, n, true).contains(i) <==> field_plan(fields, i as int).traced,
        fields_with(fields, n, false).contains(i) <==> !field_plan(fields, i as int).traced,
    decreases n,
{
    lemma_contains(fields, n, true, i);
    lemma_contains(fields, n, false, i);
}

proof fn lemma_contains(fields: Seq<Vec<Vec<FieldOption>>>, n: nat, traced: bool, i: usize)
    requires
        n <= fields.len() <= usize::MAX,
    ensures
        fields_with(fields, n, traced).contains(i) <==> i < n && field_plan(fields, i as int).traced
            == traced,
    decreases n,
{
    if n > 0 {
        let m = (n - 1) as nat;
        let before = fields_with(fields, m, traced);
        let all = fields_with(fields, n, traced);
        lemma_contains(fields, m, traced, i);
        if before.contains(i) {
            let k = choose|k: int| 0 <= k < before.len() && before[k] == i;
            assert(all[k] == i);
        }
        if i == m && field_plan(fields, m as int).traced == traced {
            assert(all[before.len() as int] == i);
        }
        if all.contains(i) && !before.contains(i) {
            let k = choose|k: int| 0 <= k < all.len() && all[k] == i;
            if k < before.len() {
                assert(before[k] == i);
            }
        }
    }
}

} // verus!
