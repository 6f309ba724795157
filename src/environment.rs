use vstd::prelude::*;
use crate::text::{is_valid_key, is_valid_value, raw_view, reading_of, text_value, var_view, VarError};

verus! {

/// A process environment: a set of variables, each a name with a value.
///
/// Code that reads or changes environment variables is written against this
/// trait, and is handed the real environment in production and an isolated
/// one in tests.
pub trait Environment {
    /// Sets the variable `key` to `value`, replacing any earlier value.
    ///
    /// The name must be non-empty and hold no `=` and no NUL byte, and the value
    /// must hold no NUL byte: the operating system refuses anything else.
    fn set_var(&mut self, key: &[u8], value: &[u8])
        requires
            is_valid_key(key@),
            is_valid_value(value@),
    ;

    /// Reads the variable `key` as text.
    ///
    /// Fails with `NotPresent` where it has no value, and with `NotUnicode`
    /// where its value is not well-formed UTF-8.
    fn var(&self, key: &[u8]) -> (r: Result<String, VarError>)
        ensures
            exists|raw: Option<Seq<u8>>| var_view(r) == reading_of(raw),
    ;

    /// Reads the variable `key` as raw bytes, or `None` where it has no value.
    fn var_os(&self, key: &[u8]) -> (r: Option<Vec<u8>>);

    /// Removes the variable `key`; where it has no value, nothing changes.
    fn remove_var(&mut self, key: &[u8])
        requires
            is_valid_key(key@),
    ;
}

/// The primitives of the operating system's process environment.
///
/// The real environment reaches the operating system only through them;
/// whatever they return is taken as it comes.
pub trait ProcessVars {
    /// The raw value of `key`, or `None` where it is unset.
    fn get(&self, key: &[u8]) -> Option<Vec<u8>>;

    /// Sets `key` to `value` for the whole process.
    fn set(&mut self, key: &[u8], value: &[u8])
        requires
            is_valid_key(key@),
            is_valid_value(value@),
    ;

    /// Unsets `key` for the whole process.
    fn remove(&mut self, key: &[u8])
        requires
            is_valid_key(key@),
    ;
}

/// The environment of the running process.
///
/// It holds no variables of its own: every operation goes straight to the
/// process primitives in `os`, so all instances observe and change the same
/// process-wide set of variables. No locking is added: on some platforms the
/// native interface is not thread-safe, and callers that also reach it
/// directly must synchronise with these calls themselves.
pub struct RealEnvironment<P> {
    pub os: P,
}

impl<P: ProcessVars> Environment for RealEnvironment<P> {
    fn set_var(&mut self, key: &[u8], value: &[u8]) {
        self.os.set(key, value);
    }

    fn var(&self, key: &[u8]) -> (r: Result<String, VarError>) {
        let raw = self.os.get(key);
        let r = text_value(raw);
        proof {
            assert(var_view(r) == reading_of(raw_view(raw)));
        }
        r
    }

    fn var_os(&self, key: &[u8]) -> (r: Option<Vec<u8>>) {
        self.os.get(key)
    }

    fn remove_var(&mut self, key: &[u8]) {
        self.os.remove(key);
    }
}

} // verus!
