//! Schema-reading helpers: looking a field up in a schema mapping, reading it
//! at an expected type, and resolving the strictness flag from schema and
//! configuration.

use vstd::prelude::*;

use crate::value::{depth, entries_depth, view_of_entries, Value, ValueView};

verus! {

/// A schema description that cannot be turned into a validator.
#[derive(Clone, Copy, Debug, PartialEq, Eq, Structural)]
pub enum BuildError {
    /// The schema node is not a mapping.
    NotADict,
    /// The schema node has no `type` field.
    MissingType,
    /// The `type` field names no known validator.
    UnknownType,
    /// A reference schema has no `name` field.
    MissingName,
    /// A schema field is present with a value of the wrong type.
    WrongFieldType,
}

/// First entry of `es` whose key is the string `key`, if any.
pub open spec fn spec_lookup(es: Seq<(ValueView, ValueView)>, key: Seq<char>) -> Option<ValueView>
    decreases es,
{
    if es.len() == 0 {
        None
    } else {
        match es[0].0 {
            ValueView::Str(s) => if s == key {
                Some(es[0].1)
            } else {
                spec_lookup(es.drop_first(), key)
            },
            _ => spec_lookup(es.drop_first(), key),
        }
    }
}

pub proof fn lemma_lookup_depth(es: Seq<(ValueView, ValueView)>, key: Seq<char>, v: ValueView)
    requires
        spec_lookup(es, key) == Some(v),
    ensures
        depth(v) <= entries_depth(es),
    decreases es,
{
    if es.len() > 0 {
        let hit = match es[0].0 {
            ValueView::Str(s) => s == key,
            _ => false,
        };
        if !hit {
            lemma_lookup_depth(es.drop_first(), key, v);
        }
    }
}

/// Looks `key` up in a schema mapping, returning a copy of the value.
pub fn get_item(es: &Vec<(Value, Value)>, key: &str) -> (r: Option<Value>)
    ensures
        match r {
            Some(v) => spec_lookup(view_of_entries(es@), key@) == Some(v@),
            None => spec_lookup(view_of_entries(es@), key@) is None,
        },
{
    let ghost viewe = view_of_entries(es@);
    proof {
        crate::value::lemma_view_of_entries_props(es@);
        assert(viewe.skip(0) =~= viewe);
    }
    let key_string = key.to_owned();
    let mut i: usize = 0;
    while i < es.len()
        invariant
            i <= es.len(),
            key_string@ == key@,
            viewe == view_of_entries(es@),
            viewe.len() == es@.len(),
            forall|j: int|
                0 <= j < es@.len() ==> #[trigger] viewe[j] == (
                crate::value::view_of(es@[j].0),
                crate::value::view_of(es@[j].1),
                ),
            spec_lookup(viewe.skip(i as int), key@) == spec_lookup(viewe, key@),
        decreases es.len() - i,
    {
        proof {
            assert(viewe.skip(i as int).drop_first() =~= viewe.skip(i as int + 1));
            assert(viewe.skip(i as int)[0] == viewe[i as int]);
        }
        match &es[i].0 {
            Value::Str(s) => {
                if *s == key_string {
                    return Some(es[i].1.clone());
                }
            },
            _ => {},
        }
        i += 1;
    }
    proof {
        assert(viewe.skip(es@.len() as int) =~= Seq::<(ValueView, ValueView)>::empty());
    }
    None
}

/// An optional boolean schema field: absent, present as a boolean, or refused.
pub open spec fn spec_get_bool(es: Seq<(ValueView, ValueView)>, key: Seq<char>) -> Result<
    Option<bool>,
    BuildError,
> {
    match spec_lookup(es, key) {
        None => Ok(None),
        Some(v) => match v {
            ValueView::Bool(b) => Ok(Some(b)),
            _ => Err(BuildError::WrongFieldType),
        },
    }
}

pub fn get_bool(es: &Vec<(Value, Value)>, key: &str) -> (r: Result<Option<bool>, BuildError>)
    ensures
        r == spec_get_bool(view_of_entries(es@), key@),
{
    match get_item(es, key) {
        None => Ok(None),
        Some(v) => match v {
            Value::Bool(b) => Ok(Some(b)),
            _ => Err(BuildError::WrongFieldType),
        },
    }
}

/// An optional non-negative size field: absent, present as an integer in the
/// machine's size range, or refused.
pub open spec fn spec_get_usize(es: Seq<(ValueView, ValueView)>, key: Seq<char>) -> Result<
    Option<int>,
    BuildError,
> {
    match spec_lookup(es, key) {
        None => Ok(None),
        Some(v) => match v {
            ValueView::Int(i) => if 0 <= i <= usize::MAX as int {
                Ok(Some(i))
            } else {
                Err(BuildError::WrongFieldType)
            },
            _ => Err(BuildError::WrongFieldType),
        },
    }
}

pub fn get_usize(es: &Vec<(Value, Value)>, key: &str) -> (r: Result<Option<usize>, BuildError>)
    ensures
        match r {
            Ok(Some(n)) => spec_get_usize(view_of_entries(es@), key@) == Ok::<
                Option<int>,
                BuildError,
            >(Some(n as int)),
            Ok(None) => spec_get_usize(view_of_entries(es@), key@) == Ok::<
                Option<int>,
                BuildError,
            >(None),
            Err(e) => spec_get_usize(view_of_entries(es@), key@) == Err::<
                Option<int>,
                BuildError,
            >(e),
        },
{
    match get_item(es, key) {
        None => Ok(None),
        Some(v) => match v {
            Value::Int(i) => {
                if 0 <= i && i as u64 <= usize::MAX as u64 {
                    Ok(Some(i as usize))
                } else {
                    Err(BuildError::WrongFieldType)
                }
            },
            _ => Err(BuildError::WrongFieldType),
        },
    }
}

/// The entries a configuration mapping contributes; anything but a canonical
/// mapping contributes none.
pub open spec fn spec_config_entries(c: Option<ValueView>) -> Seq<(ValueView, ValueView)> {
    match c {
        Some(v) => match v {
            ValueView::Dict(es) => es,
            _ => Seq::empty(),
        },
        None => Seq::empty(),
    }
}

pub open spec fn opt_config_view(c: Option<&Value>) -> Option<ValueView> {
    match c {
        Some(v) => Some(v@),
        None => None,
    }
}

/// The strictness flag: the schema's own `strict` field wins, the
/// configuration's is the fallback, and the default is lax.
pub open spec fn spec_is_strict(
    es: Seq<(ValueView, ValueView)>,
    config: Option<ValueView>,
) -> Result<bool, BuildError> {
    match spec_get_bool(es, "strict"@) {
        Err(e) => Err(e),
        Ok(Some(b)) => Ok(b),
        Ok(None) => match spec_get_bool(spec_config_entries(config), "strict"@) {
            Err(e) => Err(e),
            Ok(Some(b)) => Ok(b),
            Ok(None) => Ok(false),
        },
    }
}

pub fn is_strict(es: &Vec<(Value, Value)>, config: Option<&Value>) -> (r: Result<bool, BuildError>)
    ensures
        r == spec_is_strict(view_of_entries(es@), opt_config_view(config)),
{
    match get_bool(es, "strict") {
        Err(e) => Err(e),
        Ok(Some(b)) => Ok(b),
        Ok(None) => match config {
            Some(c) => match c {
                Value::Dict(ces) => match get_bool(ces, "strict") {
                    Err(e) => Err(e),
                    Ok(Some(b)) => Ok(b),
                    Ok(None) => Ok(false),
                },
                _ => Ok(false),
            },
            None => Ok(false),
        },
    }
}

} // verus!
