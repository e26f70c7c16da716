//! The host-value model: the shapes of input that the validators can read,
//! together with their mathematical view, a structural depth measure used for
//! termination, and the conversion of a value to a location-path segment.

use vstd::prelude::*;

use crate::errors::{LocItem, LocView};

verus! {

/// A host input value. `Dict` is the canonical mapping shape; `List` can act
/// as a mapping in lax extraction when its elements are two-element lists;
/// `Instance` stands for a non-mapping object that exposes mapping-like read
/// access, accepted only when duck typing is allowed.
#[derive(Debug, PartialEq)]
pub enum Value {
    Bool(bool),
    Int(i64),
    Str(String),
    List(Vec<Value>),
    Dict(Vec<(Value, Value)>),
    Instance(Vec<(Value, Value)>),
}

/// Mathematical model of a `Value`.
pub enum ValueView {
    Bool(bool),
    Int(int),
    Str(Seq<char>),
    List(Seq<ValueView>),
    Dict(Seq<(ValueView, ValueView)>),
    Instance(Seq<(ValueView, ValueView)>),
}

pub open spec fn view_of(v: Value) -> ValueView
    decreases v,
{
    match v {
        Value::Bool(b) => ValueView::Bool(b),
        Value::Int(i) => ValueView::Int(i as int),
        Value::Str(s) => ValueView::Str(s@),
        Value::List(vs) => ValueView::List(view_of_list(vs@)),
        Value::Dict(es) => ValueView::Dict(view_of_entries(es@)),
        Value::Instance(es) => ValueView::Instance(view_of_entries(es@)),
    }
}

pub open spec fn view_of_list(s: Seq<Value>) -> Seq<ValueView>
    decreases s,
{
    if s.len() == 0 {
        Seq::empty()
    } else {
        seq![view_of(s[0])] + view_of_list(s.drop_first())
    }
}

pub open spec fn view_of_entries(s: Seq<(Value, Value)>) -> Seq<(ValueView, ValueView)>
    decreases s,
{
    if s.len() == 0 {
        Seq::empty()
    } else {
        seq![(view_of(s[0].0), view_of(s[0].1))] + view_of_entries(s.drop_first())
    }
}

impl View for Value {
    type V = ValueView;

    open spec fn view(&self) -> ValueView {
        view_of(*self)
    }
}

pub proof fn lemma_view_of_list_props(s: Seq<Value>)
    ensures
        view_of_list(s).len() == s.len(),
        forall|i: int| 0 <= i < s.len() ==> view_of_list(s)[i] == view_of(s[i]),
    decreases s,
{
    if s.len() > 0 {
        lemma_view_of_list_props(s.drop_first());
    }
}

pub proof fn lemma_view_of_entries_props(s: Seq<(Value, Value)>)
    ensures
        view_of_entries(s).len() == s.len(),
        forall|i: int| 0 <= i < s.len() ==> view_of_entries(s)[i] == (
        view_of(s[i].0),
        view_of(s[i].1),
        ),
    decreases s,
{
    if s.len() > 0 {
        lemma_view_of_entries_props(s.drop_first());
    }
}

pub open spec fn nat_max(a: nat, b: nat) -> nat {
    if a >= b {
        a
    } else {
        b
    }
}

/// Structural nesting depth of a value; recursive validation of a container's
/// elements always descends to strictly smaller depth.
pub open spec fn depth(v: ValueView) -> nat
    decreases v,
{
    match v {
        ValueView::Bool(_) => 0,
        ValueView::Int(_) => 0,
        ValueView::Str(_) => 0,
        ValueView::List(vs) => 1 + list_depth(vs),
        ValueView::Dict(es) => 1 + entries_depth(es),
        ValueView::Instance(es) => 1 + entries_depth(es),
    }
}

pub open spec fn list_depth(s: Seq<ValueView>) -> nat
    decreases s,
{
    if s.len() == 0 {
        0
    } else {
        nat_max(depth(s[0]), list_depth(s.drop_first()))
    }
}

pub open spec fn entries_depth(s: Seq<(ValueView, ValueView)>) -> nat
    decreases s,
{
    if s.len() == 0 {
        0
    } else {
        nat_max(nat_max(depth(s[0].0), depth(s[0].1)), entries_depth(s.drop_first()))
    }
}

pub proof fn lemma_list_depth_le(s: Seq<ValueView>, i: int)
    requires
        0 <= i < s.len(),
    ensures
        depth(s[i]) <= list_depth(s),
    decreases i,
{
    if i > 0 {
        lemma_list_depth_le(s.drop_first(), i - 1);
        assert(s.drop_first()[i - 1] == s[i]);
    }
}

pub proof fn lemma_entries_depth_le(s: Seq<(ValueView, ValueView)>, i: int)
    requires
        0 <= i < s.len(),
    ensures
        depth(s[i].0) <= entries_depth(s),
        depth(s[i].1) <= entries_depth(s),
    decreases i,
{
    if i > 0 {
        lemma_entries_depth_le(s.drop_first(), i - 1);
        assert(s.drop_first()[i - 1] == s[i]);
    }
}

impl Clone for Value {
    /// An independent deep copy with the same mathematical view.
    fn clone(&self) -> (res: Self)
        ensures
            res@ == self@,
        decreases *self,
    {
        match self {
            Value::Bool(b) => Value::Bool(*b),
            Value::Int(i) => Value::Int(*i),
            Value::Str(s) => Value::Str(s.clone()),
            Value::List(vs) => Value::List(clone_list(vs)),
            Value::Dict(es) => Value::Dict(clone_entries(es)),
            Value::Instance(es) => Value::Instance(clone_entries(es)),
        }
    }
}

/// Deep-copies a list of values, preserving the mathematical view.
fn clone_list(vs: &Vec<Value>) -> (out: Vec<Value>)
    ensures
        view_of_list(out@) == view_of_list(vs@),
    decreases vs@,
{
    let mut out: Vec<Value> = Vec::new();
    let mut i: usize = 0;
    while i < vs.len()
        invariant
            i <= vs.len(),
            out@.len() == i,
            forall|j: int| 0 <= j < i ==> view_of(#[trigger] out@[j]) == view_of(vs@[j]),
        decreases vs.len() - i,
    {
        out.push(vs[i].clone());
        i += 1;
    }
    proof {
        lemma_view_of_list_props(out@);
        lemma_view_of_list_props(vs@);
        assert(view_of_list(out@) =~= view_of_list(vs@));
    }
    out
}

/// Deep-copies a list of mapping entries, preserving the mathematical view.
pub(crate) fn clone_entries(es: &Vec<(Value, Value)>) -> (out: Vec<(Value, Value)>)
    ensures
        view_of_entries(out@) == view_of_entries(es@),
    decreases es@,
{
    let mut out: Vec<(Value, Value)> = Vec::new();
    let mut i: usize = 0;
    while i < es.len()
        invariant
            i <= es.len(),
            out@.len() == i,
            forall|j: int| 0 <= j < i ==> view_of(#[trigger] out@[j].0) == view_of(es@[j].0)
                && view_of(out@[j].1) == view_of(es@[j].1),
        decreases es.len() - i,
    {
        let k = es[i].0.clone();
        let v = es[i].1.clone();
        out.push((k, v));
        i += 1;
    }
    proof {
        lemma_view_of_entries_props(out@);
        lemma_view_of_entries_props(es@);
        assert(view_of_entries(out@) =~= view_of_entries(es@));
    }
    out
}

/// The location-path segment that names a container entry whose key is this
/// value: string and integer keys name themselves, any other key is named by
/// its shape.
pub open spec fn spec_loc(v: ValueView) -> LocView {
    match v {
        ValueView::Str(s) => LocView::Str(s),
        ValueView::Int(i) => LocView::Int(i),
        ValueView::Bool(b) => LocView::Str(
            if b {
                "true"@
            } else {
                "false"@
            },
        ),
        ValueView::List(_) => LocView::Str("list"@),
        ValueView::Dict(_) => LocView::Str("dict"@),
        ValueView::Instance(_) => LocView::Str("instance"@),
    }
}

impl Value {
    pub fn to_loc(&self) -> (r: LocItem)
        ensures
            r@ == spec_loc(self@),
    {
        match self {
            Value::Str(s) => LocItem::Str(s.clone()),
            Value::Int(i) => LocItem::Int(*i),
            Value::Bool(b) => LocItem::Str(
                if *b {
                    "true".to_owned()
                } else {
                    "false".to_owned()
                },
            ),
            Value::List(_) => LocItem::Str("list".to_owned()),
            Value::Dict(_) => LocItem::Str("dict".to_owned()),
            Value::Instance(_) => LocItem::Str("instance".to_owned()),
        }
    }
}

} // verus!
