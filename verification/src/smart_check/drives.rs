use vstd::prelude::*;
use crate::decimal::{decimal, push_decimal};
use crate::smart_check::ata_self_test::ata_drive_info::AtaDriveInfo;
use crate::smart_check::basic_device_info::{BasicDeviceInfo, DeviceInterface};
use crate::smart_check::nvme_self_test::nvme_drive_info::NvmeDriveInfo;
use crate::smart_check::smart_check_error::SmartCheckError;
use vstd::string::StringExecFns;

verus! {

/// The SMART information of every scanned drive, by interface.
pub struct Drives {
    pub ata: Vec<Result<AtaDriveInfo, SmartCheckError>>,
    pub nvme: Vec<Result<NvmeDriveInfo, SmartCheckError>>,
}

/// The block of the drive numbered `number`: its text, or the failure to read it.
pub open spec fn block(number: nat, text: Result<Seq<char>, Seq<char>>) -> Seq<char> {
    match text {
        Ok(t) => decimal(number) + ". "@ + t + "\n"@ + "\n"@,
        Err(m) => decimal(number) + ". Failed: "@ + m + "\n"@ + "\n"@,
    }
}

pub open spec fn ata_text(r: Result<AtaDriveInfo, SmartCheckError>) -> Result<Seq<char>, Seq<char>> {
    match r {
        Ok(i) => Ok(i.spec_text()),
        Err(e) => Err(e.spec_message()),
    }
}

pub open spec fn nvme_text(r: Result<NvmeDriveInfo, SmartCheckError>) -> Result<Seq<char>, Seq<char>> {
    match r {
        Ok(i) => Ok(i.spec_text()),
        Err(e) => Err(e.spec_message()),
    }
}

/// The blocks of the first `n` ATA drives, numbered from 1.
pub open spec fn ata_blocks(a: Seq<Result<AtaDriveInfo, SmartCheckError>>, n: nat) -> Seq<char>
    decreases n,
{
    if n == 0 {
        Seq::empty()
    } else {
        ata_blocks(a, (n - 1) as nat) + block(n, ata_text(a[n - 1]))
    }
}

/// The blocks of the first `n` NVMe drives, numbered on from `offset + 1`.
pub open spec fn nvme_blocks(v: Seq<Result<NvmeDriveInfo, SmartCheckError>>, offset: nat, n: nat) -> Seq<char>
    decreases n,
{
    if n == 0 {
        Seq::empty()
    } else {
        nvme_blocks(v, offset, (n - 1) as nat) + block(offset + n, nvme_text(v[n - 1]))
    }
}

fn push_block(s: &mut String, number: u128, text: Result<String, String>)
    ensures
        final(s)@ == old(s)@ + block(number as nat, match text {
            Ok(t) => Ok(t@),
            Err(m) => Err(m@),
        }),
{
    push_decimal(s, number);
    match text {
        Ok(t) => {
            s.append(". ");
            s.append(t.as_str());
        },
        Err(m) => {
            s.append(". Failed: ");
            s.append(m.as_str());
        },
    }
    s.append("\n");
    s.append("\n");
}

fn ata_entry(r: &Result<AtaDriveInfo, SmartCheckError>) -> (t: Result<String, String>)
    ensures
        match t {
            Ok(x) => Ok(x@),
            Err(m) => Err(m@),
        } == ata_text(*r),
{
    match r {
        Ok(info) => Ok(info.render()),
        Err(err) => Err(err.message()),
    }
}

fn nvme_entry(r: &Result<NvmeDriveInfo, SmartCheckError>) -> (t: Result<String, String>)
    ensures
        match t {
            Ok(x) => Ok(x@),
            Err(m) => Err(m@),
        } == nvme_text(*r),
{
    match r {
        Ok(info) => Ok(info.render()),
        Err(err) => Err(err.message()),
    }
}

impl Drives {
    pub fn is_empty(&self) -> (b: bool)
        ensures
            b == (self.ata@.len() == 0 && self.nvme@.len() == 0),
    {
        self.ata.len() == 0 && self.nvme.len() == 0
    }

    pub fn len(&self) -> (n: usize)
        requires
            self.ata@.len() + self.nvme@.len() <= usize::MAX,
        ensures
            n == self.ata@.len() + self.nvme@.len(),
    {
        self.ata.len() + self.nvme.len()
    }

    /// The drives as they are shown: ATA drives first, then NVMe drives, numbered on.
    pub open spec fn spec_text(&self) -> Seq<char> {
        let none = if self.ata@.len() == 0 && self.nvme@.len() == 0 {
            "No drives found\n"@
        } else {
            Seq::empty()
        };
        none + ata_blocks(self.ata@, self.ata@.len()) + nvme_blocks(
            self.nvme@,
            self.ata@.len(),
            self.nvme@.len(),
        )
    }

    pub fn render(&self) -> (s: String)
        ensures
            s@ == self.spec_text(),
    {
        let mut s = String::new();
        if self.is_empty() {
            s.append("No drives found\n");
        }
        let ghost start = s@;
        let mut i: usize = 0;
        while i < self.ata.len()
            invariant
                i <= self.ata@.len(),
                s@ == start + ata_blocks(self.ata@, i as nat),
            decreases self.ata@.len() - i,
        {
            let t = ata_entry(&self.ata[i]);
            push_block(&mut s, (i as u128) + 1, t);
            i += 1;
            assert(s@ =~= start + ata_blocks(self.ata@, i as nat));
        }
        let ghost mid = s@;
        let mut k: usize = 0;
        while k < self.nvme.len()
            invariant
                k <= self.nvme@.len(),
                i == self.ata@.len(),
                s@ == mid + nvme_blocks(self.nvme@, i as nat, k as nat),
            decreases self.nvme@.len() - k,
        {
            let t = nvme_entry(&self.nvme[k]);
            push_block(&mut s, (i as u128) + (k as u128) + 1, t);
            k += 1;
            assert(s@ =~= mid + nvme_blocks(self.nvme@, i as nat, k as nat));
        }
        s
    }
}

/// The names of the scanned drives of interface `kind`, in scan order.
pub open spec fn names_of(d: Seq<BasicDeviceInfo>, kind: DeviceInterface) -> Seq<Seq<char>>
    decreases d.len(),
{
    if d.len() == 0 {
        Seq::empty()
    } else if d.last().protocol == kind {
        names_of(d.drop_last(), kind).push(d.last().name@)
    } else {
        names_of(d.drop_last(), kind)
    }
}

/// Which scanned drives are read through the ATA path and which through the NVMe path,
/// by name and in scan order; drives of another interface are not read.
pub fn names_by_interface(drives: &Vec<BasicDeviceInfo>) -> (r: (Vec<String>, Vec<String>))
    ensures
        r.0@.map_values(|n: String| n@) == names_of(drives@, DeviceInterface::Ata),
        r.1@.map_values(|n: String| n@) == names_of(drives@, DeviceInterface::Nvme),
{
    let mut ata: Vec<String> = Vec::new();
    let mut nvme: Vec<String> = Vec::new();
    let mut i: usize = 0;
    assert(drives@.take(0) =~= Seq::<BasicDeviceInfo>::empty());
    while i < drives.len()
        invariant
            i <= drives@.len(),
            ata@.map_values(|n: String| n@) == names_of(drives@.take(i as int), DeviceInterface::Ata),
            nvme@.map_values(|n: String| n@) == names_of(
                drives@.take(i as int),
                DeviceInterface::Nvme,
            ),
        decreases drives@.len() - i,
    {
        let ghost t = drives@.take(i + 1);
        assert(t.drop_last() =~= drives@.take(i as int));
        assert(t.last() == drives@[i as int]);
        let ghost a0 = ata@.map_values(|n: String| n@);
        let ghost n0 = nvme@.map_values(|n: String| n@);
        match drives[i].protocol {
            DeviceInterface::Ata => {
                let name = drives[i].name.clone();
                ata.push(name);
                assert(ata@.map_values(|n: String| n@) =~= a0.push(drives@[i as int].name@));
            },
            DeviceInterface::Nvme => {
                let name = drives[i].name.clone();
                nvme.push(name);
                assert(nvme@.map_values(|n: String| n@) =~= n0.push(drives@[i as int].name@));
            },
            DeviceInterface::Unsupported => {},
        }
        i += 1;
    }
    assert(drives@.take(drives@.len() as int) =~= drives@);
    (ata, nvme)
}

} // verus!
