//! The error model: per-element failure records ("line errors") carrying an
//! error kind, structured context and a structural location path, and the
//! aggregate outcome type that distinguishes success, aggregated input errors
//! and unrecoverable internal failures.

use vstd::prelude::*;

use crate::value::Value;

verus! {

/// The outcome of one validate call: a validated output value, or a failure.
pub type ValResult = Result<Value, ValError>;

/// The kinds of validation failure this crate produces.
#[derive(Clone, Copy, Debug, PartialEq, Eq, Structural)]
pub enum ErrorKind {
    /// The input could not be read as a mapping at all.
    DictType,
    /// The mapping has fewer entries than `min_items`.
    DictTooShort,
    /// The mapping has more entries than `max_items`.
    DictTooLong,
    /// The input is not a string.
    StrType,
    /// The input is not an integer.
    IntType,
}

/// One segment of a structural location path: a key name or an index.
#[derive(Debug, PartialEq)]
pub enum LocItem {
    Str(String),
    Int(i64),
}

/// Mathematical model of a `LocItem`.
pub enum LocView {
    Str(Seq<char>),
    Int(int),
}

pub open spec fn loc_view(l: LocItem) -> LocView {
    match l {
        LocItem::Str(s) => LocView::Str(s@),
        LocItem::Int(i) => LocView::Int(i as int),
    }
}

impl View for LocItem {
    type V = LocView;

    open spec fn view(&self) -> LocView {
        loc_view(*self)
    }
}

impl Clone for LocItem {
    fn clone(&self) -> (res: Self)
        ensures
            res@ == self@,
    {
        match self {
            LocItem::Str(s) => LocItem::Str(s.clone()),
            LocItem::Int(i) => LocItem::Int(*i),
        }
    }
}

/// One structured validation failure: what went wrong, numeric context for
/// rendering a message, and where in the input it happened.
#[derive(Debug, PartialEq)]
pub struct LineError {
    pub kind: ErrorKind,
    pub context: Vec<(String, usize)>,
    pub location: Vec<LocItem>,
}

/// Mathematical model of a `LineError`.
pub struct LineErrorView {
    pub kind: ErrorKind,
    pub context: Seq<(Seq<char>, int)>,
    pub location: Seq<LocView>,
}

pub open spec fn line_error_view(e: LineError) -> LineErrorView {
    LineErrorView {
        kind: e.kind,
        context: e.context@.map_values(|p: (String, usize)| (p.0@, p.1 as int)),
        location: e.location@.map_values(|l: LocItem| loc_view(l)),
    }
}

impl View for LineError {
    type V = LineErrorView;

    open spec fn view(&self) -> LineErrorView {
        line_error_view(*self)
    }
}

/// The outcome of a failed validate call: either the complete ordered list of
/// line errors, or a host-level failure unrelated to the input's validity.
#[derive(Debug, PartialEq)]
pub enum ValError {
    LineErrors(Vec<LineError>),
    InternalError,
}

/// Mathematical model of a `ValError`.
pub enum ValErrorView {
    LineErrors(Seq<LineErrorView>),
    InternalError,
}

pub open spec fn errors_views(es: Seq<LineError>) -> Seq<LineErrorView> {
    es.map_values(|e: LineError| line_error_view(e))
}

impl View for ValError {
    type V = ValErrorView;

    open spec fn view(&self) -> ValErrorView {
        match *self {
            ValError::LineErrors(es) => ValErrorView::LineErrors(errors_views(es@)),
            ValError::InternalError => ValErrorView::InternalError,
        }
    }
}

/// The error record for an input that is not a valid mapping: empty location,
/// because the whole input failed rather than one entry.
pub open spec fn spec_dict_type_error() -> LineErrorView {
    LineErrorView { kind: ErrorKind::DictType, context: Seq::empty(), location: Seq::empty() }
}

pub open spec fn spec_too_short_error(min_length: int) -> LineErrorView {
    LineErrorView {
        kind: ErrorKind::DictTooShort,
        context: seq![("min_length"@, min_length)],
        location: Seq::empty(),
    }
}

pub open spec fn spec_too_long_error(max_length: int) -> LineErrorView {
    LineErrorView {
        kind: ErrorKind::DictTooLong,
        context: seq![("max_length"@, max_length)],
        location: Seq::empty(),
    }
}

pub open spec fn spec_str_type_error() -> LineErrorView {
    LineErrorView { kind: ErrorKind::StrType, context: Seq::empty(), location: Seq::empty() }
}

pub open spec fn spec_int_type_error() -> LineErrorView {
    LineErrorView { kind: ErrorKind::IntType, context: Seq::empty(), location: Seq::empty() }
}

pub fn dict_type_error() -> (e: LineError)
    ensures
        e@ == spec_dict_type_error(),
{
    let e = LineError { kind: ErrorKind::DictType, context: Vec::new(), location: Vec::new() };
    proof {
        assert(e@.context =~= spec_dict_type_error().context);
        assert(e@.location =~= spec_dict_type_error().location);
    }
    e
}

pub fn too_short_error(min_length: usize) -> (e: LineError)
    ensures
        e@ == spec_too_short_error(min_length as int),
{
    let mut context: Vec<(String, usize)> = Vec::new();
    context.push(("min_length".to_owned(), min_length));
    let e = LineError { kind: ErrorKind::DictTooShort, context, location: Vec::new() };
    proof {
        assert(e@.context =~= spec_too_short_error(min_length as int).context);
        assert(e@.location =~= spec_too_short_error(min_length as int).location);
    }
    e
}

pub fn too_long_error(max_length: usize) -> (e: LineError)
    ensures
        e@ == spec_too_long_error(max_length as int),
{
    let mut context: Vec<(String, usize)> = Vec::new();
    context.push(("max_length".to_owned(), max_length));
    let e = LineError { kind: ErrorKind::DictTooLong, context, location: Vec::new() };
    proof {
        assert(e@.context =~= spec_too_long_error(max_length as int).context);
        assert(e@.location =~= spec_too_long_error(max_length as int).location);
    }
    e
}

pub fn str_type_error() -> (e: LineError)
    ensures
        e@ == spec_str_type_error(),
{
    let e = LineError { kind: ErrorKind::StrType, context: Vec::new(), location: Vec::new() };
    proof {
        assert(e@.context =~= spec_str_type_error().context);
        assert(e@.location =~= spec_str_type_error().location);
    }
    e
}

pub fn int_type_error() -> (e: LineError)
    ensures
        e@ == spec_int_type_error(),
{
    let e = LineError { kind: ErrorKind::IntType, context: Vec::new(), location: Vec::new() };
    proof {
        assert(e@.context =~= spec_int_type_error().context);
        assert(e@.location =~= spec_int_type_error().location);
    }
    e
}

/// A line error relocated under a container entry: the entry's location
/// segments are prepended to the error's own path.
pub open spec fn spec_with_prefix(e: LineErrorView, prefix: Seq<LocView>) -> LineErrorView {
    LineErrorView { kind: e.kind, context: e.context, location: prefix + e.location }
}

impl LineError {
    /// Returns this error with `prefix` prepended to its location path.
    pub fn with_prefix_location(self, prefix: &Vec<LocItem>) -> (r: LineError)
        ensures
            r@ == spec_with_prefix(self@, prefix@.map_values(|l: LocItem| loc_view(l))),
    {
        let ghost prefix_views = prefix@.map_values(|l: LocItem| loc_view(l));
        let mut location: Vec<LocItem> = Vec::new();
        let mut i: usize = 0;
        while i < prefix.len()
            invariant
                i <= prefix.len(),
                location@.len() == i,
                forall|j: int| 0 <= j < i ==> location@[j]@ == prefix@[j]@,
            decreases prefix.len() - i,
        {
            location.push(prefix[i].clone());
            i += 1;
        }
        let mut rest = self.location;
        let ghost rest0 = rest@;
        let mut k: usize = 0;
        while k < rest.len()
            invariant
                k <= rest.len(),
                rest@ == rest0,
                location@.len() == prefix@.len() + k,
                forall|j: int| 0 <= j < prefix@.len() ==> location@[j]@ == prefix@[j]@,
                forall|j: int| 0 <= j < k ==> location@[prefix@.len() + j]@ == rest0[j]@,
            decreases rest.len() - k,
        {
            location.push(rest[k].clone());
            k += 1;
        }
        let r = LineError { kind: self.kind, context: self.context, location };
        proof {
            assert(r@.location =~= prefix_views + self@.location);
        }
        r
    }
}

} // verus!
