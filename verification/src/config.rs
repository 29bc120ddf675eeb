//! Credentials the caller needs to open a session.
//!
//! Loading and storing the configuration file is the caller's job; the
//! library only fixes the shape of the data and what a synthesized
//! default looks like (both fields empty, as written back on first run).

use vstd::prelude::*;

verus! {

/// Credential fields of the persisted configuration.
pub struct Config {
    pub email: String,
    pub password: String,
}

impl Default for Config {
    /// The configuration synthesized when no file exists yet.
    fn default() -> (c: Config)
        ensures
            c.email@ == Seq::<char>::empty(),
            c.password@ == Seq::<char>::empty(),
    {
        Config { email: String::new(), password: String::new() }
    }
}

} // verus!
