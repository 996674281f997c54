use vstd::prelude::*;
use vstd::string::StringExecFns;

verus! {

/// Path of the hosts file below a known system root: the root with the fixed
/// relative path appended.
pub open spec fn joined_hosts_path(root: Seq<char>) -> Seq<char> {
    root + "\\System32\\drivers\\etc\\hosts"@
}

/// Conventional absolute location of the hosts file, used when no system root
/// is configured.
pub open spec fn default_hosts_path() -> Seq<char> {
    "C:\\Windows\\System32\\drivers\\etc\\hosts"@
}

/// Resolves the hosts-file location from the optional system-root setting:
/// the root joined with the fixed relative path, or the conventional default
/// when the setting is absent.
pub fn resolve_hosts_path(system_root: Option<String>) -> (r: String)
    ensures
        match system_root {
            Some(root) => r@ == joined_hosts_path(root@),
            None => r@ == default_hosts_path(),
        },
{
    match system_root {
        Some(root) => root.concat("\\System32\\drivers\\etc\\hosts"),
        None => String::from_str("C:\\Windows\\System32\\drivers\\etc\\hosts"),
    }
}

} // verus!
