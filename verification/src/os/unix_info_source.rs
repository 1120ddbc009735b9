use vstd::prelude::*;
use crate::strings::{string_from, to_chars, trim, trimmed};
use vstd::string::StringExecFns;

verus! {

/// Reads the OS summary from a Unix system's files, with the host named from DMI data
/// or else `/etc/hostname`.
pub struct UnixInfoSource;

/// The host line: DMI product name and version, or the name alone, else the trimmed
/// host name, else `Unknown`.
pub open spec fn spec_unix_host(name: Seq<char>, version: Seq<char>, hostname: Option<Seq<char>>) -> Seq<
    char,
> {
    let n = trim(name);
    let v = trim(version);
    if n.len() > 0 && v.len() > 0 {
        n + " "@ + v
    } else if n.len() > 0 {
        n
    } else {
        match hostname {
            Some(h) => trim(h),
            None => "Unknown"@,
        }
    }
}

/// Decides the host line from the DMI product name and version texts (empty when they
/// could not be read) and the host name file, when it could be read.
pub fn unix_host(name: &str, version: &str, hostname: Option<&str>) -> (s: String)
    ensures
        s@ == spec_unix_host(name@, version@, match hostname {
            Some(h) => Some(h@),
            None => None,
        }),
{
    let nv = to_chars(name);
    let n = trimmed(&nv);
    let vv = to_chars(version);
    let v = trimmed(&vv);
    if n.len() > 0 && v.len() > 0 {
        let mut s = string_from(&n);
        s.append(" ");
        let vs = string_from(&v);
        s.append(vs.as_str());
        s
    } else if n.len() > 0 {
        string_from(&n)
    } else {
        match hostname {
            Some(h) => {
                let hv = to_chars(h);
                let t = trimmed(&hv);
                string_from(&t)
            },
            None => String::from_str("Unknown"),
        }
    }
}

} // verus!
