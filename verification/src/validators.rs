//! The validator contract: the closed set of validator variants, the
//! mathematical model of a validate call, dispatch over the variants, the
//! schema factory, and late binding of forward references.

pub mod dict;

use vstd::prelude::*;

use crate::errors::{
    int_type_error, spec_dict_type_error, spec_int_type_error, spec_str_type_error,
    spec_with_prefix, str_type_error, LineErrorView, LocView, ValError, ValErrorView, ValResult,
};
use crate::input::{lemma_extract_depth, spec_extract};
use crate::schema::{opt_config_view, spec_lookup, BuildError};
use crate::validators::dict::{
    dict_validator_view, spec_build_dict, spec_logic, DictValidator, DictValidatorView,
};
use crate::value::{
    depth, entries_depth, lemma_entries_depth_le, spec_loc, view_of, Value, ValueView,
};

verus! {

/// Ambient validation context threaded through every recursive validate call;
/// read-only during a single invocation.
pub struct Extra {
    pub data: Option<Value>,
    pub field: Option<String>,
}

/// Accepts exactly the string values.
#[derive(Debug)]
pub struct StrValidator {}

/// Accepts exactly the integer values.
#[derive(Debug)]
pub struct IntValidator {}

/// A forward reference to a validator that may not exist yet at build time;
/// `set_ref` resolves it to a slot of the validator arena before first use.
#[derive(Debug)]
pub struct RefValidator {
    pub name: String,
    pub slot: Option<usize>,
}

/// A schema-compiled unit of validation: one variant per supported schema
/// shape, dispatched structurally.
#[derive(Debug)]
pub enum Validator {
    Dict(DictValidator),
    Str(StrValidator),
    Int(IntValidator),
    Ref(RefValidator),
}

/// Mathematical model of a `Validator`.
pub enum ValidatorView {
    Dict(DictValidatorView),
    Str,
    Int,
    Ref(Seq<char>, Option<int>),
}

pub open spec fn validator_view(v: Validator) -> ValidatorView
    decreases v,
{
    match v {
        Validator::Dict(d) => ValidatorView::Dict(dict_validator_view(d)),
        Validator::Str(_) => ValidatorView::Str,
        Validator::Int(_) => ValidatorView::Int,
        Validator::Ref(r) => ValidatorView::Ref(
            r.name@,
            match r.slot {
                Some(i) => Some(i as int),
                None => None,
            },
        ),
    }
}

pub open spec fn opt_validator_view(ov: Option<Box<Validator>>) -> Option<Box<ValidatorView>>
    decreases ov,
{
    match ov {
        Some(b) => Some(Box::new(validator_view(*b))),
        None => None,
    }
}

impl View for Validator {
    type V = ValidatorView;

    open spec fn view(&self) -> ValidatorView {
        validator_view(*self)
    }
}

/// References defer to another validator without consuming input; everything
/// else consumes input before recursing.
pub open spec fn spec_rank(v: ValidatorView) -> nat {
    match v {
        ValidatorView::Ref(_, _) => 1,
        _ => 0,
    }
}

pub open spec fn arena_views(a: Seq<Validator>) -> Seq<ValidatorView> {
    a.map_values(|v: Validator| validator_view(v))
}

pub open spec fn val_res_view(r: Result<Value, ValError>) -> Result<ValueView, ValErrorView> {
    match r {
        Ok(v) => Ok(view_of(v)),
        Err(e) => Err(e@),
    }
}

pub open spec fn opt_value_view(o: Option<Value>) -> Option<ValueView> {
    match o {
        Some(v) => Some(view_of(v)),
        None => None,
    }
}

pub open spec fn build_res_view(r: Result<Validator, BuildError>) -> Result<
    ValidatorView,
    BuildError,
> {
    match r {
        Ok(v) => Ok(validator_view(v)),
        Err(e) => Err(e),
    }
}

/// The location segments under which a failing entry's errors are filed: the
/// entry's key, followed by the key marker when the key itself failed.
pub open spec fn spec_entry_loc(key: ValueView, key_loc: bool) -> Seq<LocView> {
    if key_loc {
        seq![spec_loc(key), LocView::Str("[key]"@)]
    } else {
        seq![spec_loc(key)]
    }
}

/// The outcome of one validate call. A reference must be resolved to an
/// in-range slot holding a non-reference validator; anything else is an
/// internal error, never an input error.
pub open spec fn spec_validate(
    arena: Seq<ValidatorView>,
    v: ValidatorView,
    input: ValueView,
    force_strict: bool,
) -> Result<ValueView, ValErrorView>
    decreases depth(input), spec_rank(v), 4int,
{
    match v {
        ValidatorView::Str => match input {
            ValueView::Str(_) => Ok(input),
            _ => Err(ValErrorView::LineErrors(seq![spec_str_type_error()])),
        },
        ValidatorView::Int => match input {
            ValueView::Int(_) => Ok(input),
            _ => Err(ValErrorView::LineErrors(seq![spec_int_type_error()])),
        },
        ValidatorView::Ref(_, slot) => match slot {
            Some(i) => if 0 <= i < arena.len() && spec_rank(arena[i]) == 0 {
                spec_validate(arena, arena[i], input, force_strict)
            } else {
                Err(ValErrorView::InternalError)
            },
            None => Err(ValErrorView::InternalError),
        },
        ValidatorView::Dict(cfg) => {
            let use_strict = force_strict || cfg.strict;
            match spec_extract(input, use_strict, cfg.try_instance_as_dict) {
                None => Err(ValErrorView::LineErrors(seq![spec_dict_type_error()])),
                Some(es) => {
                    proof {
                        lemma_extract_depth(input, use_strict, cfg.try_instance_as_dict, es);
                    }
                    spec_logic(arena, cfg, es)
                },
            }
        },
    }
}

/// One side of one entry, put through an optional child validator: absent
/// children pass the value through unchanged; a child failure contributes the
/// child's errors, each filed under this entry's location.
pub open spec fn spec_apply(
    arena: Seq<ValidatorView>,
    ov: Option<Box<ValidatorView>>,
    input: ValueView,
    key: ValueView,
    key_loc: bool,
) -> Option<(Option<ValueView>, Seq<LineErrorView>)>
    decreases depth(input), 2int, 0int,
{
    match ov {
        None => Some((Some(input), Seq::empty())),
        Some(v) => match spec_validate(arena, *v, input, false) {
            Ok(out) => Some((Some(out), Seq::empty())),
            Err(e) => match e {
                ValErrorView::LineErrors(errs) => Some(
                    (
                        None,
                        errs.map_values(
                            |le: LineErrorView| spec_with_prefix(le, spec_entry_loc(key, key_loc)),
                        ),
                    ),
                ),
                ValErrorView::InternalError => None,
            },
        },
    }
}

/// All entries, each validated independently: an entry reaches the output only
/// when both its key and its value validated, and every error of every entry
/// is kept, in entry order, keys before values.
pub open spec fn spec_entries(
    arena: Seq<ValidatorView>,
    kv: Option<Box<ValidatorView>>,
    vv: Option<Box<ValidatorView>>,
    es: Seq<(ValueView, ValueView)>,
) -> Option<(Seq<(ValueView, ValueView)>, Seq<LineErrorView>)>
    decreases entries_depth(es), 2int, es.len(),
{
    if es.len() == 0 {
        Some((Seq::empty(), Seq::empty()))
    } else {
        let k = es[0].0;
        let v = es[0].1;
        proof {
            lemma_entries_depth_le(es, 0);
        }
        match spec_apply(arena, kv, k, k, true) {
            None => None,
            Some((ko, kerrs)) => match spec_apply(arena, vv, v, k, false) {
                None => None,
                Some((vo, verrs)) => match spec_entries(arena, kv, vv, es.drop_first()) {
                    None => None,
                    Some((outs, errs)) => {
                        let here = match (ko, vo) {
                            (Some(k2), Some(v2)) => seq![(k2, v2)],
                            _ => Seq::empty(),
                        };
                        Some((here + outs, kerrs + verrs + errs))
                    },
                },
            },
        }
    }
}

impl StrValidator {
    pub fn validate(&self, input: &Value) -> (r: ValResult)
        ensures
            input@ is Str ==> (r matches Ok(v) && v@ == input@),
            !(input@ is Str) ==> (r matches Err(e) && e@ == ValErrorView::LineErrors(
                seq![spec_str_type_error()],
            )),
    {
        match input {
            Value::Str(s) => Ok(Value::Str(s.clone())),
            _ => {
                let e = ValError::LineErrors(vec![str_type_error()]);
                proof {
                    assert(e@->LineErrors_0 =~= seq![spec_str_type_error()]);
                }
                Err(e)
            },
        }
    }
}

impl IntValidator {
    pub fn validate(&self, input: &Value) -> (r: ValResult)
        ensures
            input@ is Int ==> (r matches Ok(v) && v@ == input@),
            !(input@ is Int) ==> (r matches Err(e) && e@ == ValErrorView::LineErrors(
                seq![spec_int_type_error()],
            )),
    {
        match input {
            Value::Int(i) => Ok(Value::Int(*i)),
            _ => {
                let e = ValError::LineErrors(vec![int_type_error()]);
                proof {
                    assert(e@->LineErrors_0 =~= seq![spec_int_type_error()]);
                }
                Err(e)
            },
        }
    }
}

pub open spec fn spec_validator_name(v: ValidatorView) -> Seq<char> {
    match v {
        ValidatorView::Dict(_) => "dict"@,
        ValidatorView::Str => "str"@,
        ValidatorView::Int => "int"@,
        ValidatorView::Ref(_, _) => "ref"@,
    }
}

/// Rebinds every forward reference named `name` in the subtree to `target`;
/// a structural no-op on nodes holding no such reference.
pub open spec fn spec_bind_ref(v: ValidatorView, name: Seq<char>, target: int) -> ValidatorView
    decreases v,
{
    match v {
        ValidatorView::Ref(n, slot) => if n == name {
            ValidatorView::Ref(n, Some(target))
        } else {
            ValidatorView::Ref(n, slot)
        },
        ValidatorView::Dict(cfg) => ValidatorView::Dict(
            DictValidatorView {
                strict: cfg.strict,
                key_validator: match cfg.key_validator {
                    Some(b) => Some(Box::new(spec_bind_ref(*b, name, target))),
                    None => None,
                },
                value_validator: match cfg.value_validator {
                    Some(b) => Some(Box::new(spec_bind_ref(*b, name, target))),
                    None => None,
                },
                min_items: cfg.min_items,
                max_items: cfg.max_items,
                try_instance_as_dict: cfg.try_instance_as_dict,
            },
        ),
        ValidatorView::Str => ValidatorView::Str,
        ValidatorView::Int => ValidatorView::Int,
    }
}

impl Validator {
    /// Lax-mode entry point: honors each node's configured extraction mode.
    pub fn validate(&self, arena: &Vec<Validator>, input: &Value, extra: &Extra) -> (r: ValResult)
        ensures
            val_res_view(r) == spec_validate(arena_views(arena@), self@, input@, false),
        decreases depth(input@), spec_rank(self@), 2int,
    {
        match self {
            Validator::Dict(d) => d.validate(arena, input, extra),
            Validator::Str(s) => s.validate(input),
            Validator::Int(iv) => iv.validate(input),
            Validator::Ref(rv) => match rv.slot {
                Some(i) => {
                    if i < arena.len() {
                        let target = &arena[i];
                        proof {
                            assert(arena_views(arena@)[i as int] == validator_view(arena@[i as int]));
                        }
                        match target {
                            Validator::Ref(_) => Err(ValError::InternalError),
                            _ => target.validate(arena, input, extra),
                        }
                    } else {
                        Err(ValError::InternalError)
                    }
                },
                None => Err(ValError::InternalError),
            },
        }
    }

    /// Strict entry point: forces strict extraction for this node, whatever
    /// its configured default.
    pub fn validate_strict(&self, arena: &Vec<Validator>, input: &Value, extra: &Extra) -> (r:
        ValResult)
        ensures
            val_res_view(r) == spec_validate(arena_views(arena@), self@, input@, true),
        decreases depth(input@), spec_rank(self@), 2int,
    {
        match self {
            Validator::Dict(d) => d.validate_strict(arena, input, extra),
            Validator::Str(s) => s.validate(input),
            Validator::Int(iv) => iv.validate(input),
            Validator::Ref(rv) => match rv.slot {
                Some(i) => {
                    if i < arena.len() {
                        let target = &arena[i];
                        proof {
                            assert(arena_views(arena@)[i as int] == validator_view(arena@[i as int]));
                        }
                        match target {
                            Validator::Ref(_) => Err(ValError::InternalError),
                            _ => target.validate_strict(arena, input, extra),
                        }
                    } else {
                        Err(ValError::InternalError)
                    }
                },
                None => Err(ValError::InternalError),
            },
        }
    }

    /// Binds the forward reference named `name` to arena slot `target`
    /// everywhere in this validator's subtree.
    pub fn set_ref(&mut self, name: &str, target: usize)
        ensures
            final(self)@ == spec_bind_ref(old(self)@, name@, target as int),
    {
        let mut tmp = Validator::Str(StrValidator {});
        core::mem::swap(self, &mut tmp);
        *self = tmp.bind_refs(name, target);
    }

    fn bind_refs(self, name: &str, target: usize) -> (r: Validator)
        ensures
            r@ == spec_bind_ref(self@, name@, target as int),
        decreases self,
    {
        match self {
            Validator::Ref(rv) => {
                let name_string = name.to_owned();
                if rv.name == name_string {
                    Validator::Ref(RefValidator { name: rv.name, slot: Some(target) })
                } else {
                    Validator::Ref(rv)
                }
            },
            Validator::Dict(d) => Validator::Dict(d.bind_refs(name, target)),
            Validator::Str(s) => Validator::Str(s),
            Validator::Int(iv) => Validator::Int(iv),
        }
    }

    /// Stable diagnostic identifier of this node's variant.
    pub fn get_name(&self) -> (r: String)
        ensures
            r@ == spec_validator_name(self@),
    {
        match self {
            Validator::Dict(d) => d.get_name(),
            Validator::Str(_) => "str".to_owned(),
            Validator::Int(_) => "int".to_owned(),
            Validator::Ref(_) => "ref".to_owned(),
        }
    }

    /// An independent deep copy, boxed as the polymorphic dispatch type.
    pub fn clone_dyn(&self) -> (r: Box<Validator>)
        ensures
            r@ == self@,
    {
        Box::new(self.clone())
    }
}

impl Clone for Validator {
    /// An independent deep copy with the same mathematical view.
    fn clone(&self) -> (res: Self)
        ensures
            res@ == self@,
        decreases *self,
    {
        match self {
            Validator::Dict(d) => Validator::Dict(d.clone()),
            Validator::Str(_) => Validator::Str(StrValidator {}),
            Validator::Int(_) => Validator::Int(IntValidator {}),
            Validator::Ref(rv) => Validator::Ref(
                RefValidator { name: rv.name.clone(), slot: rv.slot },
            ),
        }
    }
}

/// The outcome of compiling one schema node: the validator the `type` field
/// selects, configured from the node's remaining fields.
pub open spec fn spec_build(schema: ValueView, config: Option<ValueView>) -> Result<
    ValidatorView,
    BuildError,
>
    decreases depth(schema), 0int, 0int,
{
    match schema {
        ValueView::Dict(es) => match spec_lookup(es, "type"@) {
            None => Err(BuildError::MissingType),
            Some(t) => match t {
                ValueView::Str(tname) => if tname == "str"@ {
                    Ok(ValidatorView::Str)
                } else if tname == "int"@ {
                    Ok(ValidatorView::Int)
                } else if tname == "ref"@ {
                    match spec_lookup(es, "name"@) {
                        None => Err(BuildError::MissingName),
                        Some(nv) => match nv {
                            ValueView::Str(n) => Ok(ValidatorView::Ref(n, None)),
                            _ => Err(BuildError::WrongFieldType),
                        },
                    }
                } else if tname == "dict"@ {
                    spec_build_dict(es, config)
                } else {
                    Err(BuildError::UnknownType)
                },
                _ => Err(BuildError::WrongFieldType),
            },
        },
        _ => Err(BuildError::NotADict),
    }
}

/// Compiles a schema node to a validator: the factory the container validator
/// calls for each of its child schemas.
pub fn build_validator(schema: &Value, config: Option<&Value>) -> (r: Result<
    Validator,
    BuildError,
>)
    ensures
        build_res_view(r) == spec_build(schema@, opt_config_view(config)),
    decreases depth(schema@), 1int, 0int,
{
    match schema {
        Value::Dict(es) => {
            proof {
                crate::value::lemma_view_of_entries_props(es@);
            }
            match crate::schema::get_item(es, "type") {
                None => Err(BuildError::MissingType),
                Some(t) => match t {
                    Value::Str(tname) => {
                        if string_is(&tname, "str") {
                            Ok(Validator::Str(StrValidator {}))
                        } else if string_is(&tname, "int") {
                            Ok(Validator::Int(IntValidator {}))
                        } else if string_is(&tname, "ref") {
                            match crate::schema::get_item(es, "name") {
                                None => Err(BuildError::MissingName),
                                Some(nv) => match nv {
                                    Value::Str(n) => Ok(
                                        Validator::Ref(RefValidator { name: n, slot: None }),
                                    ),
                                    _ => Err(BuildError::WrongFieldType),
                                },
                            }
                        } else if string_is(&tname, "dict") {
                            DictValidator::build(schema, config)
                        } else {
                            Err(BuildError::UnknownType)
                        }
                    },
                    _ => Err(BuildError::WrongFieldType),
                },
            }
        },
        _ => Err(BuildError::NotADict),
    }
}

/// Whether a string holds exactly the given literal.
fn string_is(s: &String, lit: &str) -> (r: bool)
    ensures
        r == (s@ == lit@),
{
    let other = lit.to_owned();
    *s == other
}

} // verus!
