//! Theme assets: stylesheet and script entries, and option typing.

use vstd::prelude::*;

verus! {

/// A theme stylesheet entry: its path and its loading priority.
pub struct ThemeStylesheet {
    pub path: String,
    pub priority: i32,
}

impl ThemeStylesheet {
    /// A stylesheet entry with the default priority.
    pub fn new(path: String) -> (r: ThemeStylesheet)
        ensures
            r.path@ == path@,
            r.priority == 200,
    {
        ThemeStylesheet { path, priority: 200 }
    }
}

/// A theme script entry: its path, priority and loading attributes.
pub struct ThemeScript {
    pub path: String,
    pub priority: i32,
    pub defer: bool,
    pub async_: bool,
}

impl ThemeScript {
    /// A script entry with the default priority and no attributes.
    pub fn new(path: String) -> (r: ThemeScript)
        ensures
            r.path@ == path@,
            r.priority == 200,
            !r.defer,
            !r.async_,
    {
        ThemeScript { path, priority: 200, defer: false, async_: false }
    }
}

/// The type a theme option is validated against.
pub enum ThemeOptionType {
    Bool,
    Text,
    Integer,
    Decimal,
}

} // verus!
