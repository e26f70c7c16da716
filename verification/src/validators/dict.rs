//! The mapping (container) validator: extraction of a mapping view from the
//! input, size-bound checks, independent recursive validation of every
//! entry's key and value through optional child validators, aggregation of
//! all failures with location prefixing, and output assembly.

use vstd::prelude::*;

use crate::errors::{
    errors_views, line_error_view, loc_view, spec_dict_type_error, spec_too_long_error,
    spec_too_short_error, spec_with_prefix, too_long_error, too_short_error, LineError,
    LineErrorView, LocItem, ValError, ValErrorView, ValResult,
};
use crate::input::{all_pairs, lax_dict, lemma_extract_depth, pair_entries, spec_extract, strict_dict};
use crate::schema::{
    get_bool, get_item, get_usize, is_strict, lemma_lookup_depth, opt_config_view, spec_get_bool,
    spec_get_usize, spec_is_strict, spec_lookup, BuildError,
};
use crate::validators::{
    arena_views, build_res_view, build_validator, opt_validator_view, opt_value_view, spec_apply,
    spec_bind_ref, spec_build, spec_entries, spec_entry_loc, spec_validate, val_res_view,
    validator_view, Extra, Validator, ValidatorView,
};
use crate::value::{
    depth, entries_depth, lemma_entries_depth_le, lemma_view_of_entries_props, view_of,
    view_of_entries, Value, ValueView,
};

verus! {

/// Mathematical model of a `DictValidator`.
pub struct DictValidatorView {
    pub strict: bool,
    pub key_validator: Option<Box<ValidatorView>>,
    pub value_validator: Option<Box<ValidatorView>>,
    pub min_items: Option<int>,
    pub max_items: Option<int>,
    pub try_instance_as_dict: bool,
}

/// The mapping validator: immutable once built; child validators for keys and
/// values are optional, absent meaning "pass through unchanged".
#[derive(Debug)]
pub struct DictValidator {
    pub strict: bool,
    pub key_validator: Option<Box<Validator>>,
    pub value_validator: Option<Box<Validator>>,
    pub min_items: Option<usize>,
    pub max_items: Option<usize>,
    pub try_instance_as_dict: bool,
}

pub open spec fn dict_validator_view(d: DictValidator) -> DictValidatorView
    decreases d,
{
    DictValidatorView {
        strict: d.strict,
        key_validator: match d.key_validator {
            Some(b) => Some(Box::new(validator_view(*b))),
            None => None,
        },
        value_validator: match d.value_validator {
            Some(b) => Some(Box::new(validator_view(*b))),
            None => None,
        },
        min_items: match d.min_items {
            Some(n) => Some(n as int),
            None => None,
        },
        max_items: match d.max_items {
            Some(n) => Some(n as int),
            None => None,
        },
        try_instance_as_dict: d.try_instance_as_dict,
    }
}

impl View for DictValidator {
    type V = DictValidatorView;

    open spec fn view(&self) -> DictValidatorView {
        dict_validator_view(*self)
    }
}

impl DictValidator {
    /// The schema `type` tag this validator answers to.
    pub const EXPECTED_TYPE: &'static str = "dict";
}

/// The mapping has fewer entries than the configured minimum.
pub open spec fn below_min(cfg: DictValidatorView, n: nat) -> bool {
    match cfg.min_items {
        Some(min) => n < min,
        None => false,
    }
}

/// The mapping has more entries than the configured maximum.
pub open spec fn above_max(cfg: DictValidatorView, n: nat) -> bool {
    match cfg.max_items {
        Some(max) => n > max,
        None => false,
    }
}

/// What the mapping validator does once a mapping view is extracted: a size
/// violation is the sole error and short-circuits per-entry validation;
/// otherwise every entry is validated and either the assembled output or the
/// complete error list is returned.
pub open spec fn spec_logic(
    arena: Seq<ValidatorView>,
    cfg: DictValidatorView,
    es: Seq<(ValueView, ValueView)>,
) -> Result<ValueView, ValErrorView>
    decreases entries_depth(es), 3int, 0int,
{
    if below_min(cfg, es.len()) {
        Err(ValErrorView::LineErrors(seq![spec_too_short_error(cfg.min_items->0)]))
    } else if above_max(cfg, es.len()) {
        Err(ValErrorView::LineErrors(seq![spec_too_long_error(cfg.max_items->0)]))
    } else {
        match spec_entries(arena, cfg.key_validator, cfg.value_validator, es) {
            None => Err(ValErrorView::InternalError),
            Some((outs, errs)) => if errs.len() == 0 {
                Ok(ValueView::Dict(outs))
            } else {
                Err(ValErrorView::LineErrors(errs))
            },
        }
    }
}

/// The outcome of compiling a mapping schema node.
pub open spec fn spec_build_dict(
    es: Seq<(ValueView, ValueView)>,
    config: Option<ValueView>,
) -> Result<ValidatorView, BuildError>
    decreases entries_depth(es), 2int, 0int,
{
    match spec_is_strict(es, config) {
        Err(e) => Err(e),
        Ok(strict) => match spec_sub_build(es, "keys"@, config) {
            Err(e) => Err(e),
            Ok(kv) => match spec_sub_build(es, "values"@, config) {
                Err(e) => Err(e),
                Ok(vv) => match spec_get_usize(es, "min_items"@) {
                    Err(e) => Err(e),
                    Ok(mini) => match spec_get_usize(es, "max_items"@) {
                        Err(e) => Err(e),
                        Ok(maxi) => match spec_get_bool(es, "try_instance_as_dict"@) {
                            Err(e) => Err(e),
                            Ok(ti) => Ok(
                                ValidatorView::Dict(
                                    DictValidatorView {
                                        strict,
                                        key_validator: kv,
                                        value_validator: vv,
                                        min_items: mini,
                                        max_items: maxi,
                                        try_instance_as_dict: match ti {
                                            Some(b) => b,
                                            None => false,
                                        },
                                    },
                                ),
                            ),
                        },
                    },
                },
            },
        },
    }
}

/// The child validator an optional sub-schema field compiles to.
pub open spec fn spec_sub_build(
    es: Seq<(ValueView, ValueView)>,
    key: Seq<char>,
    config: Option<ValueView>,
) -> Result<Option<Box<ValidatorView>>, BuildError>
    decreases entries_depth(es), 1int, 0int,
{
    match spec_lookup(es, key) {
        None => Ok(None),
        Some(sub) => {
            proof {
                lemma_lookup_depth(es, key, sub);
            }
            match spec_build(sub, config) {
                Ok(v) => Ok(Some(Box::new(v))),
                Err(e) => Err(e),
            }
        },
    }
}

/// What a mapping schema node compiles to, including the refusal of
/// non-mapping nodes.
pub open spec fn spec_build_dict_of(schema: ValueView, config: Option<ValueView>) -> Result<
    ValidatorView,
    BuildError,
> {
    match schema {
        ValueView::Dict(es) => spec_build_dict(es, config),
        _ => Err(BuildError::NotADict),
    }
}

fn build_sub(es: &Vec<(Value, Value)>, key: &str, config: Option<&Value>) -> (r: Result<
    Option<Box<Validator>>,
    BuildError,
>)
    ensures
        match r {
            Ok(ov) => spec_sub_build(view_of_entries(es@), key@, opt_config_view(config)) == Ok::<
                Option<Box<ValidatorView>>,
                BuildError,
            >(opt_validator_view(ov)),
            Err(e) => spec_sub_build(view_of_entries(es@), key@, opt_config_view(config)) == Err::<
                Option<Box<ValidatorView>>,
                BuildError,
            >(e),
        },
    decreases entries_depth(view_of_entries(es@)), 2int, 0int,
{
    match get_item(es, key) {
        None => Ok(None),
        Some(sub) => {
            proof {
                lemma_lookup_depth(view_of_entries(es@), key@, sub@);
            }
            match build_validator(&sub, config) {
                Ok(v) => Ok(Some(Box::new(v))),
                Err(e) => Err(e),
            }
        },
    }
}

impl DictValidator {
    /// Compiles a mapping schema node: strictness from schema and
    /// configuration, optional child validators for keys and values, optional
    /// inclusive size bounds, and the duck-typing flag.
    pub fn build(schema: &Value, config: Option<&Value>) -> (r: Result<Validator, BuildError>)
        ensures
            build_res_view(r) == spec_build_dict_of(schema@, opt_config_view(config)),
        decreases depth(schema@), 0int, 0int,
    {
        match schema {
            Value::Dict(es) => {
                proof {
                    lemma_view_of_entries_props(es@);
                }
                let strict = match is_strict(es, config) {
                    Ok(b) => b,
                    Err(e) => return Err(e),
                };
                let key_validator = match build_sub(es, "keys", config) {
                    Ok(kv) => kv,
                    Err(e) => return Err(e),
                };
                let value_validator = match build_sub(es, "values", config) {
                    Ok(vv) => vv,
                    Err(e) => return Err(e),
                };
                let min_items = match get_usize(es, "min_items") {
                    Ok(m) => m,
                    Err(e) => return Err(e),
                };
                let max_items = match get_usize(es, "max_items") {
                    Ok(m) => m,
                    Err(e) => return Err(e),
                };
                let try_instance_as_dict = match get_bool(es, "try_instance_as_dict") {
                    Ok(Some(b)) => b,
                    Ok(None) => false,
                    Err(e) => return Err(e),
                };
                Ok(
                    Validator::Dict(
                        DictValidator {
                            strict,
                            key_validator,
                            value_validator,
                            min_items,
                            max_items,
                            try_instance_as_dict,
                        },
                    ),
                )
            },
            _ => Err(BuildError::NotADict),
        }
    }

    /// Lax-mode validation: extraction honors the configured mode.
    pub fn validate(&self, arena: &Vec<Validator>, input: &Value, extra: &Extra) -> (r: ValResult)
        ensures
            val_res_view(r) == spec_validate(
                arena_views(arena@),
                ValidatorView::Dict(self@),
                input@,
                false,
            ),
        decreases depth(input@), 0int, 1int,
    {
        let extracted = if self.strict {
            strict_dict(input)
        } else {
            lax_dict(input, self.try_instance_as_dict)
        };
        match extracted {
            Ok(entries) => {
                proof {
                    lemma_extract_depth(
                        input@,
                        self.strict,
                        self.try_instance_as_dict,
                        view_of_entries(entries@),
                    );
                }
                self._validation_logic(arena, entries, extra)
            },
            Err(e) => Err(e),
        }
    }

    /// Strict validation: extraction is strict whatever the configured mode.
    pub fn validate_strict(&self, arena: &Vec<Validator>, input: &Value, extra: &Extra) -> (r:
        ValResult)
        ensures
            val_res_view(r) == spec_validate(
                arena_views(arena@),
                ValidatorView::Dict(self@),
                input@,
                true,
            ),
        decreases depth(input@), 0int, 1int,
    {
        match strict_dict(input) {
            Ok(entries) => {
                proof {
                    lemma_extract_depth(input@, true, self.try_instance_as_dict, view_of_entries(entries@));
                }
                self._validation_logic(arena, entries, extra)
            },
            Err(e) => Err(e),
        }
    }

    /// Binds the forward reference named `name` in the child validators.
    pub fn set_ref(&mut self, name: &str, target: usize)
        ensures
            ValidatorView::Dict(final(self)@) == spec_bind_ref(
                ValidatorView::Dict(old(self)@),
                name@,
                target as int,
            ),
    {
        let mut tmp = DictValidator {
            strict: false,
            key_validator: None,
            value_validator: None,
            min_items: None,
            max_items: None,
            try_instance_as_dict: false,
        };
        core::mem::swap(self, &mut tmp);
        *self = tmp.bind_refs(name, target);
    }

    pub(crate) fn bind_refs(self, name: &str, target: usize) -> (r: DictValidator)
        ensures
            ValidatorView::Dict(r@) == spec_bind_ref(
                ValidatorView::Dict(self@),
                name@,
                target as int,
            ),
        decreases self,
    {
        let key_validator = match self.key_validator {
            Some(b) => Some(Box::new((*b).bind_refs(name, target))),
            None => None,
        };
        let value_validator = match self.value_validator {
            Some(b) => Some(Box::new((*b).bind_refs(name, target))),
            None => None,
        };
        DictValidator {
            strict: self.strict,
            key_validator,
            value_validator,
            min_items: self.min_items,
            max_items: self.max_items,
            try_instance_as_dict: self.try_instance_as_dict,
        }
    }

    /// Stable diagnostic identifier of the mapping validator.
    pub fn get_name(&self) -> (r: String)
        ensures
            r@ == "dict"@,
    {
        Self::EXPECTED_TYPE.to_owned()
    }

    /// An independent deep copy, boxed as the polymorphic dispatch type.
    pub fn clone_dyn(&self) -> (r: Box<Validator>)
        ensures
            r@ == ValidatorView::Dict(self@),
    {
        Box::new(Validator::Dict(self.clone()))
    }

    fn _validation_logic(&self, arena: &Vec<Validator>, entries: Vec<(Value, Value)>, extra: &Extra)
        -> (r: ValResult)
        ensures
            val_res_view(r) == spec_logic(arena_views(arena@), self@, view_of_entries(entries@)),
        decreases entries_depth(view_of_entries(entries@)), 3int, 0int,
    {
        let ghost av = arena_views(arena@);
        let ghost esv = view_of_entries(entries@);
        let ghost kv = opt_validator_view(self.key_validator);
        let ghost vv = opt_validator_view(self.value_validator);
        proof {
            lemma_view_of_entries_props(entries@);
        }
        if let Some(min_length) = self.min_items {
            if entries.len() < min_length {
                let e = ValError::LineErrors(vec![too_short_error(min_length)]);
                proof {
                    assert(e@->LineErrors_0 =~= seq![spec_too_short_error(min_length as int)]);
                }
                return Err(e);
            }
        }
        if let Some(max_length) = self.max_items {
            if entries.len() > max_length {
                let e = ValError::LineErrors(vec![too_long_error(max_length)]);
                proof {
                    assert(e@->LineErrors_0 =~= seq![spec_too_long_error(max_length as int)]);
                }
                return Err(e);
            }
        }
        let mut output: Vec<(Value, Value)> = Vec::new();
        let mut errors: Vec<LineError> = Vec::new();
        let mut i: usize = 0;
        proof {
            assert(esv.skip(0) =~= esv);
            assert(view_of_entries(output@) + Seq::<(ValueView, ValueView)>::empty() =~= view_of_entries(output@));
            assert(errors_views(errors@) + Seq::<LineErrorView>::empty() =~= errors_views(errors@));
            assert forall|j: int| 0 <= j < esv.len() implies depth(#[trigger] esv[j].0)
                <= entries_depth(esv) && depth(esv[j].1) <= entries_depth(esv) by {
                lemma_entries_depth_le(esv, j);
            }
        }
        while i < entries.len()
            invariant
                i <= entries.len(),
                av == arena_views(arena@),
                esv == view_of_entries(entries@),
                kv == opt_validator_view(self.key_validator),
                vv == opt_validator_view(self.value_validator),
                esv.len() == entries@.len(),
                forall|j: int|
                    0 <= j < entries@.len() ==> #[trigger] esv[j] == (
                    view_of(entries@[j].0),
                    view_of(entries@[j].1),
                    ),
                forall|j: int|
                    0 <= j < esv.len() ==> depth(#[trigger] esv[j].0) <= entries_depth(esv)
                        && depth(esv[j].1) <= entries_depth(esv),
                !below_min(self@, esv.len()),
                !above_max(self@, esv.len()),
                match spec_entries(av, kv, vv, esv.skip(i as int)) {
                    Some(rest) => spec_entries(av, kv, vv, esv) == Some(
                        (
                            view_of_entries(output@) + rest.0,
                            errors_views(errors@) + rest.1,
                        ),
                    ),
                    None => spec_entries(av, kv, vv, esv) is None,
                },
            decreases entries.len() - i,
        {
            let ghost errors0 = errors@;
            let ghost outs0 = output@;
            proof {
                assert(esv.skip(i as int)[0] == esv[i as int]);
                assert(esv.skip(i as int).drop_first() =~= esv.skip(i as int + 1));
            }
            let output_key = match apply_validator(
                arena,
                &self.key_validator,
                &mut errors,
                &entries[i].0,
                &entries[i].0,
                extra,
                true,
            ) {
                Ok(o) => o,
                Err(e) => {
                    return Err(e);
                },
            };
            let ghost errors1 = errors@;
            let output_value = match apply_validator(
                arena,
                &self.value_validator,
                &mut errors,
                &entries[i].1,
                &entries[i].0,
                extra,
                false,
            ) {
                Ok(o) => o,
                Err(e) => {
                    return Err(e);
                },
            };
            let ghost kerrs = (spec_apply(av, kv, esv[i as int].0, esv[i as int].0, true)->0).1;
            let ghost verrs = (spec_apply(av, vv, esv[i as int].1, esv[i as int].0, false)->0).1;
            proof {
                assert(errors_views(errors@) =~= errors_views(errors0) + kerrs + verrs);
            }
            match (output_key, output_value) {
                (Some(k2), Some(v2)) => {
                    output.push((k2, v2));
                },
                _ => {},
            }
            proof {
                lemma_view_of_entries_props(output@);
                lemma_view_of_entries_props(outs0);
                match (
                    (spec_apply(av, kv, esv[i as int].0, esv[i as int].0, true)->0).0,
                    (spec_apply(av, vv, esv[i as int].1, esv[i as int].0, false)->0).0,
                ) {
                    (Some(k2), Some(v2)) => {
                        assert(view_of_entries(output@) =~= view_of_entries(outs0) + seq![
                            (k2, v2),
                        ]);
                    },
                    _ => {
                        assert(view_of_entries(output@) =~= view_of_entries(outs0));
                    },
                }
                match spec_entries(av, kv, vv, esv.skip(i as int + 1)) {
                    Some(rest) => {
                        assert(view_of_entries(outs0) + (spec_entries(
                            av,
                            kv,
                            vv,
                            esv.skip(i as int),
                        )->0).0 =~= view_of_entries(output@) + rest.0);
                        assert(errors_views(errors0) + (spec_entries(
                            av,
                            kv,
                            vv,
                            esv.skip(i as int),
                        )->0).1 =~= errors_views(errors@) + rest.1);
                    },
                    None => {},
                }
            }
            i += 1;
        }
        proof {
            assert(esv.skip(entries@.len() as int) =~= Seq::<(ValueView, ValueView)>::empty());
            assert(view_of_entries(output@) + Seq::<(ValueView, ValueView)>::empty()
                =~= view_of_entries(output@));
            assert(errors_views(errors@) + Seq::<LineErrorView>::empty()
                =~= errors_views(errors@));
        }
        if errors.len() == 0 {
            proof {
                assert(errors_views(errors@) =~= Seq::<LineErrorView>::empty());
            }
            Ok(Value::Dict(output))
        } else {
            let e = ValError::LineErrors(errors);
            Err(e)
        }
    }
}

impl Clone for DictValidator {
    /// An independent deep copy with the same mathematical view.
    fn clone(&self) -> (res: Self)
        ensures
            res@ == self@,
        decreases *self,
    {
        DictValidator {
            strict: self.strict,
            key_validator: match &self.key_validator {
                Some(b) => Some(Box::new((**b).clone())),
                None => None,
            },
            value_validator: match &self.value_validator {
                Some(b) => Some(Box::new((**b).clone())),
                None => None,
            },
            min_items: self.min_items,
            max_items: self.max_items,
            try_instance_as_dict: self.try_instance_as_dict,
        }
    }
}

/// One side of one entry through an optional child validator: a child failure
/// appends the child's errors, filed under this entry's key (with the key
/// marker when the key itself failed), and yields no output for this side.
fn apply_validator(
    arena: &Vec<Validator>,
    validator: &Option<Box<Validator>>,
    errors: &mut Vec<LineError>,
    input: &Value,
    key: &Value,
    extra: &Extra,
    key_loc: bool,
) -> (r: Result<Option<Value>, ValError>)
    ensures
        match spec_apply(
            arena_views(arena@),
            opt_validator_view(*validator),
            input@,
            key@,
            key_loc,
        ) {
            Some(ret) => r matches Ok(o) && opt_value_view(o) == ret.0
                && errors_views(final(errors)@) == errors_views(old(errors)@) + ret.1,
            None => r matches Err(e) && e@ == ValErrorView::InternalError && final(errors)@ == old(
                errors,
            )@,
        },
    decreases depth(input@), 2int, 2int,
{
    match validator {
        Some(v) => {
            match v.validate(arena, input, extra) {
                Ok(value) => {
                    proof {
                        assert(errors_views(errors@) + Seq::<LineErrorView>::empty()
                            =~= errors_views(errors@));
                    }
                    Ok(Some(value))
                },
                Err(e) => match e {
                    ValError::LineErrors(line_errors) => {
                        let mut loc: Vec<LocItem> = Vec::new();
                        loc.push(key.to_loc());
                        if key_loc {
                            loc.push(LocItem::Str("[key]".to_owned()));
                        }
                        proof {
                            assert(loc@.map_values(|l: LocItem| loc_view(l))
                                =~= spec_entry_loc(key@, key_loc));
                        }
                        push_prefixed(errors, line_errors, &loc);
                        Ok(None)
                    },
                    ValError::InternalError => Err(ValError::InternalError),
                },
            }
        },
        None => {
            proof {
                assert(errors_views(errors@) + Seq::<LineErrorView>::empty()
                    =~= errors_views(errors@));
            }
            Ok(Some(input.clone()))
        },
    }
}

/// Appends every line error, relocated under `loc`, to the aggregate list.
fn push_prefixed(errors: &mut Vec<LineError>, line_errors: Vec<LineError>, loc: &Vec<LocItem>)
    ensures
        errors_views(final(errors)@) == errors_views(old(errors)@) + errors_views(line_errors@)
            .map_values(
            |le: LineErrorView| spec_with_prefix(
                le,
                loc@.map_values(|l: LocItem| loc_view(l)),
            ),
        ),
{
    let ghost e0 = errors@;
    let ghost les0 = line_errors@;
    let ghost locv = loc@.map_values(|l: LocItem| loc_view(l));
    let mut line_errors = line_errors;
    let count: usize = line_errors.len();
    proof {
        assert(les0.len() == count);
    }
    let mut j: usize = 0;
    while line_errors.len() > 0
        invariant
            j + line_errors@.len() == les0.len(),
            les0.len() <= usize::MAX,
            locv == loc@.map_values(|l: LocItem| loc_view(l)),
            forall|l: int| 0 <= l < line_errors@.len() ==> #[trigger] line_errors@[l] == les0[
                j + l
            ],
            errors@.len() == e0.len() + j,
            forall|l: int| 0 <= l < e0.len() ==> #[trigger] errors@[l] == e0[l],
            forall|l: int|
                0 <= l < j ==> line_error_view(#[trigger] errors@[e0.len() + l])
                    == spec_with_prefix(
                    line_error_view(les0[l]),
                    locv,
                ),
        decreases line_errors.len(),
    {
        let le = line_errors.remove(0);
        proof {
            assert(line_errors@ =~= les0.skip(j as int + 1));
        }
        errors.push(le.with_prefix_location(loc));
        j += 1;
    }
    proof {
        let mapped = errors_views(les0).map_values(
            |le: LineErrorView| spec_with_prefix(le, locv),
        );
        assert(j == les0.len());
        assert forall|l: int| 0 <= l < les0.len() implies errors_views(errors@)[e0.len() + l]
            == mapped[l] by {
            assert(errors_views(errors@)[e0.len() + l] == line_error_view(errors@[e0.len() + l]));
            assert(mapped[l] == spec_with_prefix(line_error_view(les0[l]), locv));
        }
        assert forall|l: int| 0 <= l < e0.len() implies errors_views(errors@)[l] == errors_views(
            e0,
        )[l] by {
            assert(errors@[l] == e0[l]);
        }
        assert(errors_views(errors@) =~= errors_views(e0) + mapped);
    }
}

/// Law: a mapping with fewer entries than `min_items` fails with the
/// too-short record as the sole error, whatever the entries hold; the size
/// check never runs per-entry validation.
pub proof fn lemma_too_short_is_sole_error(
    arena: Seq<ValidatorView>,
    cfg: DictValidatorView,
    es: Seq<(ValueView, ValueView)>,
    min: int,
)
    requires
        cfg.min_items == Some(min),
        es.len() < min,
    ensures
        spec_logic(arena, cfg, es) == Err::<ValueView, ValErrorView>(
            ValErrorView::LineErrors(seq![spec_too_short_error(min)]),
        ),
{
}

/// Law: a mapping with more entries than `max_items` (and not fewer than
/// `min_items`) fails with the too-long record as the sole error, whatever
/// the entries hold; the size check never runs per-entry validation.
pub proof fn lemma_too_long_is_sole_error(
    arena: Seq<ValidatorView>,
    cfg: DictValidatorView,
    es: Seq<(ValueView, ValueView)>,
    max: int,
)
    requires
        cfg.max_items == Some(max),
        es.len() > max,
        !below_min(cfg, es.len()),
    ensures
        spec_logic(arena, cfg, es) == Err::<ValueView, ValErrorView>(
            ValErrorView::LineErrors(seq![spec_too_long_error(max)]),
        ),
{
}

/// With no child validators, every entry passes through unchanged and no
/// error arises.
pub proof fn lemma_entries_pass_through(
    arena: Seq<ValidatorView>,
    es: Seq<(ValueView, ValueView)>,
)
    ensures
        spec_entries(arena, None, None, es) == Some(
            (es, Seq::<LineErrorView>::empty()),
        ),
    decreases es.len(),
{
    if es.len() > 0 {
        lemma_entries_pass_through(arena, es.drop_first());
        let k = es[0].0;
        let v = es[0].1;
        assert(spec_apply(arena, None, k, k, true) == Some(
            (Some(k), Seq::<LineErrorView>::empty()),
        ));
        assert(spec_apply(arena, None, v, k, false) == Some(
            (Some(v), Seq::<LineErrorView>::empty()),
        ));
        assert(spec_entries(arena, None, None, es) == Some(
            (
                seq![(k, v)] + es.drop_first(),
                Seq::<LineErrorView>::empty() + Seq::<LineErrorView>::empty()
                    + Seq::<LineErrorView>::empty(),
            ),
        ));
        assert(seq![(es[0].0, es[0].1)] + es.drop_first() =~= es);
        assert(Seq::<LineErrorView>::empty() + Seq::<LineErrorView>::empty()
            + Seq::<LineErrorView>::empty() =~= Seq::<LineErrorView>::empty());
    }
}

/// Law: a mapping validator with no key or value validators configured is a
/// structural identity on entry order and content (round trip), whenever
/// extraction succeeds and the size bounds hold.
pub proof fn lemma_validate_identity(
    arena: Seq<ValidatorView>,
    cfg: DictValidatorView,
    es: Seq<(ValueView, ValueView)>,
    input: ValueView,
    force_strict: bool,
)
    requires
        cfg.key_validator is None,
        cfg.value_validator is None,
        spec_extract(input, force_strict || cfg.strict, cfg.try_instance_as_dict) == Some(es),
        !below_min(cfg, es.len()),
        !above_max(cfg, es.len()),
    ensures
        spec_validate(arena, ValidatorView::Dict(cfg), input, force_strict) == Ok::<
            ValueView,
            ValErrorView,
        >(ValueView::Dict(es)),
{
    lemma_entries_pass_through(arena, es);
    assert(cfg.key_validator == None::<Box<ValidatorView>>);
    assert(cfg.value_validator == None::<Box<ValidatorView>>);
    assert(spec_entries(arena, cfg.key_validator, cfg.value_validator, es) == Some(
        (es, Seq::<LineErrorView>::empty()),
    ));
    assert(spec_logic(arena, cfg, es) == Ok::<ValueView, ValErrorView>(ValueView::Dict(es)));
}

/// Law: strict mode rejects a sequence of pairs outright as "not a valid
/// mapping", while lax mode accepts the identical content and goes on to
/// validate its entries.
pub proof fn lemma_strict_rejects_pair_sequence(
    arena: Seq<ValidatorView>,
    cfg: DictValidatorView,
    vs: Seq<ValueView>,
    force_strict: bool,
)
    requires
        all_pairs(vs),
    ensures
        force_strict || cfg.strict ==> spec_validate(
            arena,
            ValidatorView::Dict(cfg),
            ValueView::List(vs),
            force_strict,
        ) == Err::<ValueView, ValErrorView>(
            ValErrorView::LineErrors(seq![spec_dict_type_error()]),
        ),
        !force_strict && !cfg.strict ==> spec_validate(
            arena,
            ValidatorView::Dict(cfg),
            ValueView::List(vs),
            force_strict,
        ) == spec_logic(arena, cfg, pair_entries(vs)),
{
}

} // verus!
