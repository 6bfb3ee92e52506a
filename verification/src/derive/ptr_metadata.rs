//! Deriving `PtrMetadata`.

use vstd::prelude::*;

verus! {

/// An item of a `#[ptr_metadata(...)]` attribute.
pub enum Item {
    /// `unsafe(...)` with its options.
    Unsafe(Vec<UnsafeOption>),
    /// A type.
    Type,
}

/// An option in `unsafe(...)`.
#[derive(Clone, Copy, Debug, PartialEq, Eq, Structural)]
pub enum UnsafeOption {
    /// `via(...)`
    Via,
    /// `bound(...)`
    Bound,
    /// Anything else.
    Unknown,
}

/// The name of an option in `unsafe(...)`.
pub open spec fn spec_unsafe_option(name: Seq<char>) -> UnsafeOption {
    if name == "via"@ {
        UnsafeOption::Via
    } else if name == "bound"@ {
        UnsafeOption::Bound
    } else {
        UnsafeOption::Unknown
    }
}

/// Recognizes the name of an option in `unsafe(...)`.
pub fn unsafe_option(name: &str) -> (r: UnsafeOption)
    ensures
        r == spec_unsafe_option(name@),
{
    let name = name.to_owned();
    if name == "via".to_owned() {
        UnsafeOption::Via
    } else if name == "bound".to_owned() {
        UnsafeOption::Bound
    } else {
        UnsafeOption::Unknown
    }
}

/// A mistake in the attributes.
#[derive(Clone, Copy, Debug, PartialEq, Eq, Structural)]
pub enum Error {
    /// More than one `unsafe(...)` in an attribute.
    MultipleUnsafe,
    /// More than one `via(...)`.
    MultipleVia,
    /// More than one `bound(...)`.
    MultipleBounds,
    /// An option that there is not.
    UnknownOption,
    /// More than one type in an attribute.
    MultipleTypes,
    /// No type in an attribute.
    TypeRequired,
    /// An attribute on the field at this position.
    OnField(usize),
    /// An attribute on the variant at this position.
    OnVariant(usize),
}

/// What one attribute asks for.
#[derive(Clone, Copy, Debug, PartialEq, Eq, Structural)]
pub struct Request {
    pub is_unsafe: bool,
    /// The position of the type among the items.
    pub ty: Option<usize>,
    /// The position of `via(...)` among the options of `unsafe(...)`; without it the metadata is
    /// used as it is.
    pub via: Option<usize>,
    /// The position of `bound(...)` among the options of `unsafe(...)`.
    pub bound: Option<usize>,
}

impl Request {
    pub open spec fn none() -> Request {
        Request { is_unsafe: false, ty: None, via: None, bound: None }
    }

    /// The request after an option in `unsafe(...)`, or what is wrong with it.
    pub open spec fn spec_accept_option(self, i: usize, option: UnsafeOption) -> Result<
        Request,
        Error,
    > {
        match option {
            UnsafeOption::Via => if self.via is Some {
                Err(Error::MultipleVia)
            } else {
                Ok(Request { via: Some(i), ..self })
            },
            UnsafeOption::Bound => if self.bound is Some {
                Err(Error::MultipleBounds)
            } else {
                Ok(Request { bound: Some(i), ..self })
            },
            UnsafeOption::Unknown => Err(Error::UnknownOption),
        }
    }

    /// Takes the option at position `i` in `unsafe(...)`.
    pub fn accept_option(self, i: usize, option: UnsafeOption) -> (r: Result<Request, Error>)
        ensures
            r == self.spec_accept_option(i, option),
    {
        match option {
            UnsafeOption::Via => {
                if self.via.is_some() {
                    return Err(Error::MultipleVia);
                }
                Ok(Request { via: Some(i), ..self })
            },
            UnsafeOption::Bound => {
                if self.bound.is_some() {
                    return Err(Error::MultipleBounds);
                }
                Ok(Request { bound: Some(i), ..self })
            },
            UnsafeOption::Unknown => Err(Error::UnknownOption),
        }
    }

    /// The request after the first `n` options in `unsafe(...)`.
    pub open spec fn spec_accept_options(self, options: Seq<UnsafeOption>, n: nat) -> Result<
        Request,
        Error,
    >
        decreases n,
    {
        if n == 0 {
            Ok(self)
        } else {
            match self.spec_accept_options(options, (n - 1) as nat) {
                Ok(request) => request.spec_accept_option((n - 1) as usize, options[n - 1]),
                Err(e) => Err(e),
            }
        }
    }

    fn accept_options(self, options: &Vec<UnsafeOption>) -> (r: Result<Request, Error>)
        ensures
            r == self.spec_accept_options(options@, options@.len()),
    {
        let mut request = self;
        let mut i: usize = 0;
        while i < options.len()
            invariant
                i <= options@.len(),
                self.spec_accept_options(options@, i as nat) == Ok::<Request, Error>(request),
            decreases options@.len() - i,
        {
            match request.accept_option(i, options[i]) {
                Ok(next) => {
                    request = next;
                },
                Err(e) => {
                    proof {
                        lemma_option_error_stays(self, options@, (i + 1) as nat, options@.len());
                    }
                    return Err(e);
                },
            }
            i += 1;
        }
        Ok(request)
    }

    /// The request after the item at position `i`, or what is wrong with it.
    pub open spec fn spec_accept(self, i: usize, item: Item) -> Result<Request, Error> {
        match item {
            Item::Unsafe(options) => if self.is_unsafe {
                Err(Error::MultipleUnsafe)
            } else {
                (Request { is_unsafe: true, ..self }).spec_accept_options(
                    options@,
                    options@.len(),
                )
            },
            Item::Type => if self.ty is Some {
                Err(Error::MultipleTypes)
            } else {
                Ok(Request { ty: Some(i), ..self })
            },
        }
    }

    /// Takes the item at position `i`.
    pub fn accept(self, i: usize, item: &Item) -> (r: Result<Request, Error>)
        ensures
            r == self.spec_accept(i, *item),
    {
        match item {
            Item::Unsafe(options) => {
                if self.is_unsafe {
                    return Err(Error::MultipleUnsafe);
                }
                let request = Request { is_unsafe: true, ..self };
                request.accept_options(options)
            },
            Item::Type => {
                if self.ty.is_some() {
                    return Err(Error::MultipleTypes);
                }
                Ok(Request { ty: Some(i), ..self })
            },
        }
    }
}

proof fn lemma_option_error_stays(request: Request, options: Seq<UnsafeOption>, i: nat, n: nat)
    requires
        i <= n,
        request.spec_accept_options(options, i) is Err,
    ensures
        request.spec_accept_options(options, n) == request.spec_accept_options(options, i),
    decreases n - i,
{
    if i < n {
        lemma_option_error_stays(request, options, i, (n - 1) as nat);
    }
}

/// What the first `n` items of an attribute ask for.
pub open spec fn spec_parse_items(items: Seq<Item>, n: nat) -> Result<Request, Error>
    decreases n,
{
    if n == 0 {
        Ok(Request::none())
    } else {
        match spec_parse_items(items, (n - 1) as nat) {
            Ok(request) => request.spec_accept((n - 1) as usize, items[n - 1]),
            Err(e) => Err(e),
        }
    }
}

proof fn lemma_item_error_stays(items: Seq<Item>, i: nat, n: nat)
    requires
        i <= n,
        spec_parse_items(items, i) is Err,
    ensures
        spec_parse_items(items, n) == spec_parse_items(items, i),
    decreases n - i,
{
    if i < n {
        lemma_item_error_stays(items, i, (n - 1) as nat);
    }
}

/// What an attribute asks for: it must name a type.
pub open spec fn spec_parse_attribute(items: Seq<Item>) -> Result<Request, Error> {
    match spec_parse_items(items, items.len()) {
        Ok(request) => if request.ty is Some {
            Ok(request)
        } else {
            Err(Error::TypeRequired)
        },
        Err(e) => Err(e),
    }
}

/// Reads a `#[ptr_metadata(...)]` attribute.
pub fn parse_attribute(items: &Vec<Item>) -> (r: Result<Request, Error>)
    ensures
        r == spec_parse_attribute(items@),
{
    let mut request = Request { is_unsafe: false, ty: None, via: None, bound: None };
    let mut i: usize = 0;
    while i < items.len()
        invariant
            i <= items@.len(),
            spec_parse_items(items@, i as nat) == Ok::<Request, Error>(request),
        decreases items@.len() - i,
    {
        match request.accept(i, &items[i]) {
            Ok(next) => {
                request = next;
            },
            Err(e) => {
                proof {
                    lemma_item_error_stays(items@, (i + 1) as nat, items@.len());
                }
                return Err(e);
            },
        }
        i += 1;
    }
    if request.ty.is_none() {
        return Err(Error::TypeRequired);
    }
    Ok(request)
}

/// The positions among the first `n` that carry an attribute, each as an error.
pub open spec fn misplaced(marked: Seq<bool>, n: nat, on_field: bool) -> Seq<Error>
    decreases n,
{
    if n == 0 {
        Seq::empty()
    } else {
        let before = misplaced(marked, (n - 1) as nat, on_field);
        if marked[n - 1] {
            before.push(
                if on_field {
                    Error::OnField((n - 1) as usize)
                } else {
                    Error::OnVariant((n - 1) as usize)
                },
            )
        } else {
            before
        }
    }
}

/// What a type looks like to the derive macro.
pub struct Input {
    /// The items of each `#[ptr_metadata]` attribute on the type.
    pub attrs: Vec<Vec<Item>>,
    pub is_enum: bool,
    /// Which variants carry a `#[ptr_metadata]` attribute.
    pub variants: Vec<bool>,
    /// Which fields carry a `#[ptr_metadata]` attribute, variant after variant.
    pub fields: Vec<bool>,
}

/// The attributes that are in the wrong place.
pub open spec fn all_misplaced(input: Input) -> Seq<Error> {
    misplaced(input.fields@, input.fields@.len(), true) + if input.is_enum {
        misplaced(input.variants@, input.variants@.len(), false)
    } else {
        Seq::empty()
    }
}

/// What the first `n` attributes ask for. The first attribute that is wrong is reported alone; one
/// that is right brings up the attributes in the wrong place, all at once.
pub open spec fn spec_derive(input: Input, n: nat) -> Result<Seq<Request>, Seq<Error>>
    decreases n,
{
    if n == 0 {
        Ok(Seq::empty())
    } else {
        match spec_derive(input, (n - 1) as nat) {
            Err(e) => Err(e),
            Ok(requests) => match spec_parse_attribute(input.attrs@[n - 1]@) {
                Err(e) => Err(seq![e]),
                Ok(request) => if all_misplaced(input).len() > 0 {
                    Err(all_misplaced(input))
                } else {
                    Ok(requests.push(request))
                },
            },
        }
    }
}

proof fn lemma_derive_error_stays(input: Input, i: nat, n: nat)
    requires
        i <= n,
        spec_derive(input, i) is Err,
    ensures
        spec_derive(input, n) == spec_derive(input, i),
    decreases n - i,
{
    if i < n {
        lemma_derive_error_stays(input, i, (n - 1) as nat);
    }
}

/// Lists the places that carry an attribute.
fn find_misplaced(errors: &mut Vec<Error>, marked: &Vec<bool>, on_field: bool)
    ensures
        final(errors)@ == old(errors)@ + misplaced(marked@, marked@.len(), on_field),
{
    let mut i: usize = 0;
    assert(errors@ =~= old(errors)@ + misplaced(marked@, 0, on_field));
    while i < marked.len()
        invariant
            i <= marked@.len(),
            errors@ == old(errors)@ + misplaced(marked@, i as nat, on_field),
        decreases marked@.len() - i,
    {
        if marked[i] {
            errors.push(
                if on_field {
                    Error::OnField(i)
                } else {
                    Error::OnVariant(i)
                },
            );
        }
        i += 1;
        assert(errors@ =~= old(errors)@ + misplaced(marked@, i as nat, on_field));
    }
}

/// Plans the derived implementations, one for each attribute.
pub fn derive(input: &Input) -> (r: Result<Vec<Request>, Vec<Error>>)
    ensures
        match r {
            Ok(requests) => spec_derive(*input, input.attrs@.len()) == Ok::<
                Seq<Request>,
                Seq<Error>,
            >(requests@),
            Err(errors) => spec_derive(*input, input.attrs@.len()) == Err::<
                Seq<Request>,
                Seq<Error>,
            >(errors@),
        },
{
    let mut requests: Vec<Request> = Vec::new();
    let mut i: usize = 0;
    while i < input.attrs.len()
        invariant
            i <= input.attrs@.len(),
            spec_derive(*input, i as nat) == Ok::<Seq<Request>, Seq<Error>>(requests@),
        decreases input.attrs@.len() - i,
    {
        match parse_attribute(&input.attrs[i]) {
            Err(e) => {
                let mut errors: Vec<Error> = Vec::new();
                errors.push(e);
                proof {
                    assert(errors@ =~= seq![e]);
                    lemma_derive_error_stays(*input, (i + 1) as nat, input.attrs@.len());
                }
                return Err(errors);
            },
            Ok(request) => {
                let mut errors: Vec<Error> = Vec::new();
                find_misplaced(&mut errors, &input.fields, true);
                if input.is_enum {
                    find_misplaced(&mut errors, &input.variants, false);
                }
                assert(errors@ =~= all_misplaced(*input));
                if errors.len() > 0 {
                    proof {
                        lemma_derive_error_stays(*input, (i + 1) as nat, input.attrs@.len());
                    }
                    return Err(errors);
                }
                requests.push(request);
            },
        }
        i += 1;
    }
    Ok(requests)
}

} // verus!
