//! Names of the files that an update of the application installs.

use vstd::prelude::*;

verus! {

/// The name of a file with `extension` appended on Windows, where the kind
/// of a file shows in its extension; the name unchanged elsewhere.
pub fn win_append_extension(filename: &str, extension: &str, windows: bool) -> (r: String)
    ensures
        r@ == if windows {
            filename@ + extension@
        } else {
            filename@
        },
{
    let link_name = String::from_str(filename);
    if windows {
        link_name.concat(extension)
    } else {
        link_name
    }
}

} // verus!
