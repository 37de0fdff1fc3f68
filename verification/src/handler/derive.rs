//! What a type must be for a configurable handler to be derived for it: a
//! struct of exactly one field, its configuration.
use vstd::prelude::*;

verus! {

broadcast use vstd::string::group_string_axioms;

/// The refusal for a type that is not a struct.
pub open spec fn not_a_struct_message() -> Seq<char> {
    "ConfigurableHandler can only be derived for structs."@
}

/// The refusal for a struct that has not exactly one field.
pub open spec fn not_one_field_message() -> Seq<char> {
    "ConfigurableHandler can only be derived for structs with exactly one field."@
}

/// The refusal for a struct whose one field is not a named field of type
/// `Config<X>`.
pub open spec fn no_config_field_message() -> Seq<char> {
    "The struct must contain a field with type Config<X>."@
}

/// Whether a configurable handler can be derived for a type: `is_struct`
/// tells whether it is a struct, `field_count` how many fields it has (none
/// for a unit struct). A type that is no struct, or a struct with other
/// than one field, is refused with the message that says why.
pub fn check_derive_target(is_struct: bool, field_count: usize) -> (r: Result<(), String>)
    ensures
        r is Ok <==> (is_struct && field_count == 1),
        !is_struct ==> (r matches Err(m) && m@ == not_a_struct_message()),
        is_struct && field_count != 1 ==> (r matches Err(m) && m@ == not_one_field_message()),
{
    if !is_struct {
        return Err("ConfigurableHandler can only be derived for structs.".to_owned());
    }
    if field_count != 1 {
        return Err("ConfigurableHandler can only be derived for structs with exactly one field.".to_owned());
    }
    Ok(())
}

/// Whether the one field of a struct holds its configuration: it must be a
/// named field (not a field of a tuple struct) whose type is a path whose
/// last segment is `Config` with a type as its first angle-bracketed
/// argument. `named` tells whether the field is named; `last_segment` is the
/// last segment of the field's type where that type is a path with
/// segments; `first_argument_is_type` whether that segment's first
/// angle-bracketed argument is a type. Any other field is refused.
pub fn check_config_field(named: bool, last_segment: Option<&str>, first_argument_is_type: bool) -> (r: Result<(), String>)
    ensures
        r is Ok <==> (named && (last_segment matches Some(seg) && seg@ == "Config"@) && first_argument_is_type),
        r is Err ==> (r matches Err(m) && m@ == no_config_field_message()),
{
    let config = "Config".to_owned();
    proof {
        reveal_strlit("Config");
    }
    let found = match last_segment {
        Some(seg) => named && first_argument_is_type && seg.to_owned() == config,
        None => false,
    };
    if found {
        Ok(())
    } else {
        Err("The struct must contain a field with type Config<X>.".to_owned())
    }
}

} // verus!
