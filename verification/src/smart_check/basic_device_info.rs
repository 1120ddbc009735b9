use vstd::prelude::*;
use crate::strings::to_chars;

verus! {

/// A drive as `smartctl --scan --json` lists it.
#[derive(Debug)]
pub struct BasicDeviceInfo {
    pub name: String,
    pub protocol: DeviceInterface,
}

#[derive(Debug, Clone, Copy, PartialEq, Eq, Structural)]
pub enum DeviceInterface {
    Ata,
    Nvme,
    Unsupported,
}

/// `c` is `w` or, being an ASCII capital, the capital of `w`.
pub open spec fn same_letter(c: char, w: char) -> bool {
    c == w || ('A' <= c <= 'Z' && (c as u32) + 32 == w as u32)
}

/// `s` names `word` (which is in lower-case ASCII) up to the case of its letters.
///
/// This is what `s.to_lowercase() == word` decides for such a `word`: the only
/// characters whose lower case is an ASCII letter other than `k` are the ASCII letters
/// themselves, and `k` appears in no word compared here.
pub open spec fn same_ignoring_case(s: Seq<char>, word: Seq<char>) -> bool {
    s.len() == word.len() && forall|i: int| 0 <= i < s.len() ==> same_letter(#[trigger] s[i], word[i])
}

pub fn eq_ignoring_case(s: &Vec<char>, word: &Vec<char>) -> (b: bool)
    ensures
        b == same_ignoring_case(s@, word@),
{
    if s.len() != word.len() {
        return false;
    }
    let mut i: usize = 0;
    while i < s.len()
        invariant
            s@.len() == word@.len(),
            i <= s@.len(),
            forall|j: int| 0 <= j < i ==> same_letter(#[trigger] s@[j], word@[j]),
        decreases s@.len() - i,
    {
        let c = s[i];
        let w = word[i];
        if !(c == w || ('A' <= c && c <= 'Z' && (c as u32) + 32 == w as u32)) {
            return false;
        }
        i += 1;
    }
    true
}

/// The interface that smartctl's `protocol` value names.
pub open spec fn spec_interface(protocol: Seq<char>) -> DeviceInterface {
    if same_ignoring_case(protocol, "scsi"@) {
        DeviceInterface::Ata
    } else if same_ignoring_case(protocol, "nvme"@) {
        DeviceInterface::Nvme
    } else {
        DeviceInterface::Unsupported
    }
}

impl DeviceInterface {
    /// Reads smartctl's `protocol` value: `scsi` drives are driven through the ATA
    /// self-test path, `nvme` ones through the NVMe path, the case of letters aside.
    pub fn from_protocol(protocol: &str) -> (r: DeviceInterface)
        ensures
            r == spec_interface(protocol@),
    {
        let p = to_chars(protocol);
        let scsi = to_chars("scsi");
        let nvme = to_chars("nvme");
        if eq_ignoring_case(&p, &scsi) {
            DeviceInterface::Ata
        } else if eq_ignoring_case(&p, &nvme) {
            DeviceInterface::Nvme
        } else {
            DeviceInterface::Unsupported
        }
    }
}

} // verus!
