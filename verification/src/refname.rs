//! Which texts are reference names.

use radicle_surf::radicle_git_ref_format::RefString;
use vstd::prelude::*;

verus! {

/// `radicle_git_ref_format::RefString`, a text that has passed the check of
/// the reference format. Nothing is known of what a value holds.
#[verifier::external_type_specification]
#[verifier::external_body]
pub struct ExRefString(RefString);

/// What `RefString::try_from` makes of a text: the reference name that the
/// text spells, or nothing where the reference format refuses the text.
pub uninterp spec fn ref_string_of(text: Seq<char>) -> Option<RefString>;

/// `RefString::try_from` for a `&str`: checks the text against the reference
/// format and, where it passes, keeps it as a reference name. The outcome
/// depends on the text alone.
#[verifier::external_body]
pub(crate) fn ref_string(text: &str) -> (name: Option<RefString>)
    ensures
        name == ref_string_of(text@),
{
    RefString::try_from(text).ok()
}

/// Whether `text` is a reference name.
pub fn is_ref_name(text: &str) -> (valid: bool)
    ensures
        valid == ref_string_of(text@).is_some(),
{
    ref_string(text).is_some()
}

} // verus!
