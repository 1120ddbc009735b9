use vstd::prelude::*;
use vstd::string::StringExecFns;

verus! {

/// The OS summary, every field already worded.
#[derive(Debug)]
pub struct OsInfo {
    pub name: String,
    pub host: Option<String>,
    pub kernel: String,
    pub age: String,
    pub uptime: String,
}

impl OsInfo {
    pub open spec fn spec_text(&self) -> Seq<char> {
        let head = match self.host {
            Some(h) => "Host: "@ + h@ + "\n"@,
            None => Seq::empty(),
        };
        head + "OS: "@ + self.name@ + "\nKernel: "@ + self.kernel@ + "\nAge: "@ + self.age@
            + "\nUptime: "@ + self.uptime@
    }

    /// The summary as text: the host when known, then OS, kernel, age and uptime lines.
    pub fn render(&self) -> (s: String)
        ensures
            s@ == self.spec_text(),
    {
        let mut s = String::new();
        match &self.host {
            Some(h) => {
                s.append("Host: ");
                s.append(h.as_str());
                s.append("\n");
            },
            None => {},
        }
        s.append("OS: ");
        s.append(self.name.as_str());
        s.append("\nKernel: ");
        s.append(self.kernel.as_str());
        s.append("\nAge: ");
        s.append(self.age.as_str());
        s.append("\nUptime: ");
        s.append(self.uptime.as_str());
        s
    }
}

} // verus!
