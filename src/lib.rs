use vstd::prelude::*;

/// Conditions on the platform and on enabled features.
pub mod feature;
/// The built-in functions of the script language.
pub mod func;
/// What the host reports: platform facts, user directories and the time.
pub mod host;
/// Paths as text. Both `/` and `\` separate components, so a path reads the same on
/// every host; a new separator repeats the one the path already uses, else `/`.
pub mod path;
/// Calling a built-in function by name.
pub mod registry;
/// Searching, replacing and trimming text.
pub mod text;
/// Script values.
pub mod value;

verus! {

} // verus!
