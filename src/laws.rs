use vstd::prelude::*;
use vstd::utf8::{encode_utf8, encode_utf8_decode_utf8, encode_utf8_valid_utf8, valid_utf8};
use crate::fake::{lookup, Vars};
use crate::text::{reading_of, VarReading};

verus! {

/// Setting a variable to the UTF-8 bytes of a text and then reading it as
/// text gives back exactly that text.
pub proof fn set_text_then_read(vars: Vars, key: Seq<u8>, text: Seq<char>)
    ensures
        reading_of(lookup(vars.insert(key, encode_utf8(text)), key)) == VarReading::Text(text),
{
    encode_utf8_valid_utf8(text);
    encode_utf8_decode_utf8(text);
}

/// A variable that has no value reads as `NotPresent` as text, and as `None`
/// raw.
pub proof fn unset_reads_not_present(vars: Vars, key: Seq<u8>)
    requires
        !vars.contains_key(key),
    ensures
        lookup(vars, key) == None::<Seq<u8>>,
        reading_of(lookup(vars, key)) == VarReading::NotPresent,
{
}

/// A value that is not well-formed UTF-8 reads as `NotUnicode` carrying that
/// value as text, and reads back unchanged raw.
pub proof fn set_non_text_then_read(vars: Vars, key: Seq<u8>, value: Seq<u8>)
    requires
        !valid_utf8(value),
    ensures
        reading_of(lookup(vars.insert(key, value), key)) == VarReading::NotUnicode(value),
        lookup(vars.insert(key, value), key) == Some(value),
{
}

/// Setting a variable twice leaves the second value, as if the first had
/// never been set; read as text it is the second text.
pub proof fn second_set_wins(vars: Vars, key: Seq<u8>, first: Seq<char>, second: Seq<char>)
    ensures
        vars.insert(key, encode_utf8(first)).insert(key, encode_utf8(second)) == vars.insert(
            key,
            encode_utf8(second),
        ),
        reading_of(lookup(vars.insert(key, encode_utf8(first)).insert(key, encode_utf8(second)), key))
            == VarReading::Text(second),
{
    assert(vars.insert(key, encode_utf8(first)).insert(key, encode_utf8(second)) =~= vars.insert(
        key,
        encode_utf8(second),
    ));
    set_text_then_read(vars, key, second);
}

/// Removing a variable that was set leaves it without a value.
pub proof fn set_then_remove(vars: Vars, key: Seq<u8>, value: Seq<u8>)
    ensures
        lookup(vars.insert(key, value).remove(key), key) == None::<Seq<u8>>,
        reading_of(lookup(vars.insert(key, value).remove(key), key)) == VarReading::NotPresent,
{
}

/// Removing a variable that has no value changes nothing.
pub proof fn remove_unset_is_noop(vars: Vars, key: Seq<u8>)
    requires
        !vars.contains_key(key),
    ensures
        vars.remove(key) == vars,
{
    assert(vars.remove(key) =~= vars);
}

/// A new environment has no variables, whatever was set in any other
/// environment: each one starts empty and only its own calls change it.
pub proof fn new_environment_is_empty(key: Seq<u8>)
    ensures
        reading_of(lookup(Map::empty(), key)) == VarReading::NotPresent,
{
}

} // verus!
