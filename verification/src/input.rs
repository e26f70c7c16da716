//! The input abstraction: reading a host value as a mapping. Strict
//! extraction accepts only the canonical mapping shape; lax extraction also
//! accepts a sequence of key/value pairs and, when duck typing is allowed, a
//! mapping-like instance.

use vstd::prelude::*;

use crate::errors::{dict_type_error, spec_dict_type_error, ValError, ValErrorView};
use crate::value::{
    clone_entries, depth, entries_depth, lemma_list_depth_le, lemma_view_of_entries_props,
    lemma_view_of_list_props, list_depth, nat_max, view_of, view_of_entries, view_of_list, Value,
    ValueView,
};

verus! {

/// Strict extraction: only a canonical mapping yields entries.
pub open spec fn spec_strict_entries(v: ValueView) -> Option<Seq<(ValueView, ValueView)>> {
    match v {
        ValueView::Dict(es) => Some(es),
        _ => None,
    }
}

/// A two-element list, usable as a key/value pair in lax extraction.
pub open spec fn is_pair(v: ValueView) -> bool {
    &&& v is List
    &&& v->List_0.len() == 2
}

pub open spec fn all_pairs(s: Seq<ValueView>) -> bool {
    forall|i: int| 0 <= i < s.len() ==> is_pair(#[trigger] s[i])
}

pub open spec fn pair_entries(s: Seq<ValueView>) -> Seq<(ValueView, ValueView)>
    recommends
        all_pairs(s),
{
    Seq::new(s.len(), |i: int| (s[i]->List_0[0], s[i]->List_0[1]))
}

/// Lax extraction: a canonical mapping, a sequence of pairs, or (when duck
/// typing is allowed) a mapping-like instance yields entries.
pub open spec fn spec_lax_entries(v: ValueView, try_instance_as_dict: bool) -> Option<
    Seq<(ValueView, ValueView)>,
> {
    match v {
        ValueView::Dict(es) => Some(es),
        ValueView::List(vs) => if all_pairs(vs) {
            Some(pair_entries(vs))
        } else {
            None
        },
        ValueView::Instance(es) => if try_instance_as_dict {
            Some(es)
        } else {
            None
        },
        _ => None,
    }
}

/// Extraction in either mode; strict mode ignores duck typing.
pub open spec fn spec_extract(v: ValueView, strict: bool, try_instance_as_dict: bool) -> Option<
    Seq<(ValueView, ValueView)>,
> {
    if strict {
        spec_strict_entries(v)
    } else {
        spec_lax_entries(v, try_instance_as_dict)
    }
}

pub proof fn lemma_pair_entries_depth(vs: Seq<ValueView>)
    requires
        all_pairs(vs),
    ensures
        entries_depth(pair_entries(vs)) <= list_depth(vs),
    decreases vs,
{
    if vs.len() > 0 {
        assert forall|i: int| 0 <= i < vs.drop_first().len() implies is_pair(
            #[trigger] vs.drop_first()[i],
        ) by {
            assert(vs.drop_first()[i] == vs[i + 1]);
        }
        lemma_pair_entries_depth(vs.drop_first());
        assert(pair_entries(vs).drop_first() =~= pair_entries(vs.drop_first()));
        let p = vs[0]->List_0;
        lemma_list_depth_le(p, 0);
        lemma_list_depth_le(p, 1);
        lemma_list_depth_le(vs, 0);
        assert(entries_depth(pair_entries(vs)) == nat_max(
            nat_max(depth(p[0]), depth(p[1])),
            entries_depth(pair_entries(vs).drop_first()),
        ));
    }
}

/// Whatever extraction yields, the entries sit strictly below the input in
/// structural depth; per-entry validation therefore always descends.
pub proof fn lemma_extract_depth(
    v: ValueView,
    strict: bool,
    try_instance_as_dict: bool,
    es: Seq<(ValueView, ValueView)>,
)
    requires
        spec_extract(v, strict, try_instance_as_dict) == Some(es),
    ensures
        entries_depth(es) < depth(v),
{
    match v {
        ValueView::List(vs) => {
            lemma_pair_entries_depth(vs);
        },
        _ => {},
    }
}

/// Reads the input as a canonical mapping, failing with the "not a valid
/// mapping" record otherwise.
pub fn strict_dict(input: &Value) -> (r: Result<Vec<(Value, Value)>, ValError>)
    ensures
        match r {
            Ok(es) => spec_strict_entries(input@) == Some(view_of_entries(es@)),
            Err(e) => spec_strict_entries(input@) is None && e@ == ValErrorView::LineErrors(
                seq![spec_dict_type_error()],
            ),
        },
{
    match input {
        Value::Dict(es) => Ok(clone_entries(es)),
        _ => {
            let e = ValError::LineErrors(vec![dict_type_error()]);
            proof {
                assert(e@->LineErrors_0 =~= seq![spec_dict_type_error()]);
            }
            Err(e)
        },
    }
}

/// Reads the input as a mapping under lax extraction, failing with the "not a
/// valid mapping" record when no accepted shape matches.
pub fn lax_dict(input: &Value, try_instance_as_dict: bool) -> (r: Result<
    Vec<(Value, Value)>,
    ValError,
>)
    ensures
        match r {
            Ok(es) => spec_lax_entries(input@, try_instance_as_dict) == Some(
                view_of_entries(es@),
            ),
            Err(e) => spec_lax_entries(input@, try_instance_as_dict) is None && e@
                == ValErrorView::LineErrors(seq![spec_dict_type_error()]),
        },
{
    match input {
        Value::Dict(es) => Ok(clone_entries(es)),
        Value::Instance(es) => {
            if try_instance_as_dict {
                Ok(clone_entries(es))
            } else {
                let e = ValError::LineErrors(vec![dict_type_error()]);
                proof {
                    assert(e@->LineErrors_0 =~= seq![spec_dict_type_error()]);
                }
                Err(e)
            }
        },
        Value::List(vs) => lax_pairs(vs),
        _ => {
            let e = ValError::LineErrors(vec![dict_type_error()]);
            proof {
                assert(e@->LineErrors_0 =~= seq![spec_dict_type_error()]);
            }
            Err(e)
        },
    }
}

/// Reads a sequence of two-element lists as mapping entries.
fn lax_pairs(vs: &Vec<Value>) -> (r: Result<Vec<(Value, Value)>, ValError>)
    ensures
        match r {
            Ok(es) => all_pairs(view_of_list(vs@)) && pair_entries(view_of_list(vs@))
                == view_of_entries(es@),
            Err(e) => !all_pairs(view_of_list(vs@)) && e@ == ValErrorView::LineErrors(
                seq![spec_dict_type_error()],
            ),
        },
{
    let ghost viewl = view_of_list(vs@);
    proof {
        lemma_view_of_list_props(vs@);
    }
    let mut out: Vec<(Value, Value)> = Vec::new();
    let mut i: usize = 0;
    while i < vs.len()
        invariant
            i <= vs.len(),
            out@.len() == i,
            viewl == view_of_list(vs@),
            viewl.len() == vs@.len(),
            forall|j: int| 0 <= j < vs@.len() ==> viewl[j] == view_of(vs@[j]),
            forall|j: int| 0 <= j < i ==> is_pair(#[trigger] viewl[j]),
            forall|j: int|
                0 <= j < i ==> view_of(#[trigger] out@[j].0) == viewl[j]->List_0[0] && view_of(
                    out@[j].1,
                ) == viewl[j]->List_0[1],
        decreases vs.len() - i,
    {
        match &vs[i] {
            Value::List(p) => {
                if p.len() == 2 {
                    proof {
                        lemma_view_of_list_props(p@);
                    }
                    let k = p[0].clone();
                    let v = p[1].clone();
                    out.push((k, v));
                } else {
                    proof {
                        lemma_view_of_list_props(p@);
                        assert(!is_pair(viewl[i as int]));
                    }
                    let e = ValError::LineErrors(vec![dict_type_error()]);
                    proof {
                        assert(e@->LineErrors_0 =~= seq![spec_dict_type_error()]);
                    }
                    return Err(e);
                }
            },
            _ => {
                proof {
                    assert(!is_pair(viewl[i as int]));
                }
                let e = ValError::LineErrors(vec![dict_type_error()]);
                proof {
                    assert(e@->LineErrors_0 =~= seq![spec_dict_type_error()]);
                }
                return Err(e);
            },
        }
        i += 1;
    }
    proof {
        lemma_view_of_entries_props(out@);
        assert(pair_entries(viewl) =~= view_of_entries(out@));
    }
    Ok(out)
}

} // verus!
