use vstd::prelude::*;
use crate::text_utils::{format_bytes, spec_format_bytes};
use vstd::string::StringExecFns;

verus! {

/// What `smartctl --json -a` reports of a drive, in the shape of the first smart check.
#[derive(Debug)]
pub struct DriveInfo {
    pub model_name: String,
    pub power_on_time: PowerOnTime,
    pub ata_smart_data: Option<AtaSmartData>,
    pub user_capacity: UserCapacity,
    pub device: Device,
}

#[derive(Debug)]
pub struct PowerOnTime {
    pub hours: u32,
}

#[derive(Debug)]
pub struct AtaSmartData {
    pub self_test: SelfTest,
}

#[derive(Debug)]
pub struct SelfTest {
    pub polling_minutes: PollingMinutes,
}

#[derive(Debug)]
pub struct PollingMinutes {
    pub short: u32,
}

#[derive(Debug)]
pub struct Device {
    pub name: String,
    pub drive_type: String,
    pub protocol: String,
}

#[derive(Debug)]
pub struct UserCapacity {
    pub bytes: u64,
}

impl DriveInfo {
    pub open spec fn spec_text(&self, time_to_test: Seq<char>) -> Seq<char> {
        "<b>"@ + self.model_name@ + "</b>\n"@ + spec_format_bytes(self.user_capacity.bytes as nat)
            + " "@ + self.device.protocol@ + " ("@ + self.device.name@ + ")\nTime to test: "@
            + time_to_test + " min"@
    }

    /// The drive as it is shown: model, capacity, interface and name, and the time a short
    /// self-test takes, given in minutes as it is to be shown.
    pub fn render(&self, time_to_test: &str) -> (s: String)
        ensures
            s@ == self.spec_text(time_to_test@),
    {
        let mut s = String::from_str("<b>");
        s.append(self.model_name.as_str());
        s.append("</b>\n");
        let cap = format_bytes(self.user_capacity.bytes);
        s.append(cap.as_str());
        s.append(" ");
        s.append(self.device.protocol.as_str());
        s.append(" (");
        s.append(self.device.name.as_str());
        s.append(")\nTime to test: ");
        s.append(time_to_test);
        s.append(" min");
        s
    }
}

} // verus!
