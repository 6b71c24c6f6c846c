//! The first-run EULA gate: the app is not usable until the user accepts
//! [`EULA_VERSION`]; having agreed to an older text is not enough.
use vstd::prelude::*;

use crate::text::push_str;

verus! {

broadcast use vstd::string::group_string_axioms;

/// The EULA version in force, date-stamped. Bumped on any material change of the agreement so
/// users are asked to accept the new terms.
pub const EULA_VERSION: &'static str = "2026-07-01";

/// What the UI needs to render and gate on the EULA.
#[derive(Debug, Clone)]
pub struct EulaStatus {
    /// The EULA version in force.
    pub version: String,
    /// The full agreement text (markdown).
    pub text: String,
    /// Whether the user has already accepted this exact version.
    pub accepted: bool,
}

/// Whether `accepted` (the recorded acceptance) is of [`EULA_VERSION`].
pub open spec fn accepts_current(accepted: Option<Seq<char>>) -> bool {
    accepted == Some(EULA_VERSION@)
}

/// Whether the recorded acceptance is of [`EULA_VERSION`].
pub fn is_current(accepted: Option<&str>) -> (b: bool)
    ensures
        b == accepts_current(
            match accepted {
                Some(v) => Some(v@),
                None => None,
            },
        ),
{
    match accepted {
        Some(v) => crate::text::same_text(v, EULA_VERSION),
        None => false,
    }
}

/// The EULA status: the agreement `text`, and whether the recorded acceptance is of
/// [`EULA_VERSION`].
pub fn eula_status(accepted: Option<&str>, text: &str) -> (s: EulaStatus)
    ensures
        s.version@ == EULA_VERSION@,
        s.text@ == text@,
        s.accepted == accepts_current(
            match accepted {
                Some(v) => Some(v@),
                None => None,
            },
        ),
{
    let mut version = String::new();
    push_str(&mut version, EULA_VERSION);
    let mut t = String::new();
    push_str(&mut t, text);
    EulaStatus { version, text: t, accepted: is_current(accepted) }
}

/// Law: once the settings record [`EULA_VERSION`] as agreed to, the app is usable, whatever
/// else they hold.
pub proof fn lemma_accepting_current_opens_gate<S>(s: crate::settings::Settings<S>)
    requires
        crate::text::opt_chars(s.accepted_eula_version) == Some(EULA_VERSION@),
    ensures
        accepts_current(crate::text::opt_chars(s.accepted_eula_version)),
{
}

} // verus!
