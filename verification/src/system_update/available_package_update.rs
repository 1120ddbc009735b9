use vstd::prelude::*;
use vstd::string::StringExecFns;

verus! {

/// A package with a newer version available.
#[derive(Debug)]
pub struct AvailablePackageUpdate {
    pub name: String,
    pub from_version: String,
    pub to_version: String,
}

impl AvailablePackageUpdate {
    pub open spec fn spec_text(&self) -> Seq<char> {
        self.name@ + " "@ + self.from_version@ + " -> "@ + self.to_version@
    }

    /// `<name> <installed version> -> <new version>`.
    pub fn render(&self) -> (s: String)
        ensures
            s@ == self.spec_text(),
    {
        let mut s = self.name.clone();
        s.append(" ");
        s.append(self.from_version.as_str());
        s.append(" -> ");
        s.append(self.to_version.as_str());
        s
    }
}

} // verus!
