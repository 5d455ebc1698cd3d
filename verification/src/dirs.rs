//! The names under which the launcher's per-user directories are kept. The
//! directories themselves depend on the machine; they are looked up around
//! the library, under these names, and handed to `Config::default`.
use vstd::prelude::*;

verus! {

/// The qualifier, organization and application names of the launcher's
/// project directories.
pub fn project_names() -> (res: (&'static str, &'static str, &'static str))
    ensures
        res.0@ == "org.dystellar"@,
        res.1@ == "mmorpg"@,
        res.2@ == "DystellarLauncher"@,
{
    ("org.dystellar", "mmorpg", "DystellarLauncher")
}

} // verus!
