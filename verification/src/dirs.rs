//! Where the machine keeps per-user configuration.

use vstd::prelude::*;

verus! {

/// Relies on dirs2's `config_dir`: the machine's configuration directory,
/// if it has one.  The value depends on the environment, so nothing is
/// promised of it.
#[verifier::external_body]
pub(crate) fn config_dir() -> Option<String> {
    match dirs2::config_dir() {
        Some(p) => Some(p.to_string_lossy().into_owned()),
        None => None,
    }
}

} // verus!
