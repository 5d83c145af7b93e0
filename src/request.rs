//! The operation a caller asks for, and its validation.

use vstd::prelude::*;
use crate::validate::{name_failure, name_ok, ttl_ok, validate_name, validate_ttl, ValidationError};

verus! {

/// The operation to apply to the hosts file.
#[derive(Debug)]
pub enum Subcommand {
    /// Add `name` for 127.0.0.1, expiring after `expire_minutes` minutes.
    Add { name: String, expire_minutes: usize },
    /// Remove every managed entry for `name`.
    Remove { name: String },
    /// Remove only the expired managed entries.
    RemoveExpired,
}

/// A full request: the operation, the hosts file it targets, and whether the
/// new content is to be shown instead of written.
#[derive(Debug)]
pub struct Args {
    pub subcommand: Subcommand,
    pub input_file: String,
    pub test: bool,
}

impl Args {
    /// Checks the request before any file is touched: an added name must pass
    /// the name rules, then its time-to-live must be in range. Removal and
    /// pruning need no check.
    pub fn validate(&self) -> (r: Result<(), ValidationError>)
        ensures
            r is Ok <==> (self.subcommand matches Subcommand::Add { name, expire_minutes } ==> (
            name_ok(name@) && ttl_ok(expire_minutes as int))),
            r matches Err(e) ==> (self.subcommand matches Subcommand::Add { name, expire_minutes }
                && if name_ok(name@) {
                e == ValidationError::TtlOutOfRange && !ttl_ok(expire_minutes as int)
            } else {
                name_failure(name@, e)
            }),
    {
        match &self.subcommand {
            Subcommand::Add { name, expire_minutes } => {
                match validate_name(name.as_str()) {
                    Err(e) => Err(e),
                    Ok(()) => validate_ttl(*expire_minutes),
                }
            },
            Subcommand::Remove { .. } => Ok(()),
            Subcommand::RemoveExpired => Ok(()),
        }
    }
}

} // verus!
