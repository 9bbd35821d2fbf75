//! The warning for a plugin that is called from another version of Yarner
//! than the one it was built against.

use vstd::prelude::*;
use vstd::string::StringExecFns;

verus! {

/// The text of the warning for the plugin `name`, built against the version
/// `built_against` and called from the version `called_from`.
pub open spec fn warning_text(
    name: Seq<char>,
    built_against: Seq<char>,
    called_from: Seq<char>,
) -> Seq<char> {
    "  Warning: The "@ + name + " plugin was built against version "@ + built_against
        + " of Yarner, but we're being called from version "@ + called_from
}

/// The warning that is due where the two versions differ; none where they
/// are the same.
pub fn version_warning(name: &str, built_against: &str, called_from: &str) -> (warning: Option<
    String,
>)
    ensures
        match warning {
            Some(text) => built_against@ != called_from@ && text@ == warning_text(
                name@,
                built_against@,
                called_from@,
            ),
            None => built_against@ == called_from@,
        },
{
    if String::from_str(built_against) == String::from_str(called_from) {
        None
    } else {
        let mut text = String::from_str("  Warning: The ");
        text.append(name);
        text.append(" plugin was built against version ");
        text.append(built_against);
        text.append(" of Yarner, but we're being called from version ");
        text.append(called_from);
        Some(text)
    }
}

} // verus!
