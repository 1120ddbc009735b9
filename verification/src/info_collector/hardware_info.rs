use vstd::prelude::*;

verus! {

/// What the status summary shows of the machine.
#[derive(Debug)]
pub struct HardwareInfo {
    pub cpu: Option<CpuInfo>,
    pub gpu: Vec<GpuInfo>,
    pub swap: Option<MemoryInfo>,
    pub memory: Option<MemoryInfo>,
    pub disks: Vec<DiskInfo>,
    pub network: Vec<NetworkInfo>,
}

#[derive(Debug)]
pub struct CpuInfo {
    pub name: String,
    pub cores: u32,
    pub frequency: String,
    /// The temperature reading as it is shown, with its colour indicator (`🟡 64.0°C`).
    pub temperature: Option<String>,
}

#[derive(Debug, Clone, Copy, PartialEq, Eq, Structural)]
pub enum GpuType {
    Discrete,
    Integrated,
}

#[derive(Debug)]
pub struct GpuInfo {
    pub name: String,
    /// The temperature reading as it is shown, with its colour indicator (`🟢 41.0°C`).
    pub temperature: Option<String>,
    pub gpu_type: Option<GpuType>,
}

#[derive(Debug, Clone, Copy, PartialEq, Eq, Structural)]
pub struct MemoryInfo {
    pub total: u64,
    pub used: u64,
}

#[derive(Debug)]
pub struct DiskInfo {
    /// Mountpoint for a mounted filesystem, or the device name for an unmounted drive.
    pub label: String,
    pub filesystem: String,
    /// Filesystem size when mounted, otherwise the raw device size.
    pub size: u64,
    /// Used bytes when mounted; `None` for an unmounted drive (no usage stats).
    pub used: Option<u64>,
}

#[derive(Debug)]
pub struct NetworkInfo {
    pub name: String,
    pub ip_address: Option<String>,
    pub rx_bytes: u64,
    pub tx_bytes: u64,
}

} // verus!
