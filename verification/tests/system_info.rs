use telemetroid::info_collector::hardware_info::{
    CpuInfo, DiskInfo, GpuInfo, GpuType, HardwareInfo, MemoryInfo, NetworkInfo,
};
use telemetroid::info_collector::info::Info;
use telemetroid::info_collector::os_info::OsInfo as OsSummary;
use telemetroid::info_collector::linux_hardware_info_collector::{
    cpu_core_count, cpu_model_name, default_gpu_name, determine_gpu_type, drm_vendor_listed,
    is_drm_card, lspci_device_name, memory_info, parse_ipv4, parse_meminfo_kb, parse_net_dev,
    simplify_cpu_name, simplify_lspci_name, swap_info,
};
use telemetroid::info_collector::linux_os_info_collector::{
    host_model, is_dmi_placeholder, kernel_release, os_age_text, os_name, uptime_text,
};
use telemetroid::os::age::Age;
use telemetroid::os::os_info::OsInfo;
use telemetroid::os::unix_info_source::unix_host;
use telemetroid::os::uptime::Uptime;
use telemetroid::info_collector::info::can_draw_bars;
use telemetroid::info_collector::linux_hardware_info_collector::{cpuinfo_field, is_cpu_zone, nvidia_smi_row};

#[test]
fn cpu_names_are_simplified() {
    assert_eq!(simplify_cpu_name("AMD Ryzen 7 7840HS with Radeon 780M Graphics"), "AMD Ryzen 7 7840HS with Radeon 780M Graphics");
    assert_eq!(simplify_cpu_name("AMD Ryzen 9 7950X 16-Core Processor"), "AMD Ryzen 9 7950X");
    assert_eq!(simplify_cpu_name("AMD Ryzen 5 5600G with Radeon Graphics"), "AMD Ryzen 5 5600G");
    assert_eq!(simplify_cpu_name("Intel(R) Core(TM) i7-8700K CPU @ 3.70GHz"), "Intel Core i7-8700K");
    assert_eq!(simplify_cpu_name("Intel(R) Xeon(R) CPU E5-2680 v4 @ 2.40GHz"), "Intel Xeon");
    assert_eq!(simplify_cpu_name("  Intel(R)   Celeron(R)  N5105 @ 2.00GHz "), "Intel Celeron N5105");
    assert_eq!(simplify_cpu_name("Processor"), "Processor");
    assert_eq!(simplify_cpu_name("AMD Phenom(tm) II X4 965 Processor"), "AMD Phenom(tm) II X4 965");
    assert_eq!(simplify_cpu_name("AMD EPYC 7B13 64-Core Processor"), "AMD EPYC 7B13");
    assert_eq!(simplify_cpu_name("Quad-Core"), "Quad-Core");
    assert_eq!(simplify_cpu_name(""), "");
}

#[test]
fn lspci_names_are_simplified() {
    assert_eq!(
        simplify_lspci_name("Advanced Micro Devices, Inc. [AMD/ATI] Raphael (rev c1)"),
        "AMD Raphael"
    );
    assert_eq!(
        simplify_lspci_name("Intel Corporation [Intel Graphics] Alder Lake-P GT2"),
        "Intel Alder Lake-P GT2"
    );
    assert_eq!(simplify_lspci_name("NVIDIA Corporation [GeForce] GA104"), "GA104");
    assert_eq!(
        simplify_lspci_name("Intel Corporation UHD Graphics 630 (rev 02)"),
        "UHD Graphics 630"
    );
    assert_eq!(simplify_lspci_name("Advanced Micro Devices, Inc. [AMD/ATI]"), "[AMD/ATI]");
    assert_eq!(simplify_lspci_name("  Matrox G200eR2  "), "Matrox G200eR2");
}

#[test]
fn lspci_output() {
    assert_eq!(
        lspci_device_name(
            "03:00.0 VGA compatible controller: Advanced Micro Devices, Inc. [AMD/ATI] Raphael (rev c1)\n"
        ),
        Some("AMD Raphael".to_string())
    );
    assert_eq!(
        lspci_device_name("00:02.0 VGA compatible controller: Intel Corporation UHD Graphics 620 (rev 07)"),
        Some("UHD Graphics 620".to_string())
    );
    assert_eq!(lspci_device_name(""), None);
    assert_eq!(lspci_device_name("03:00.0"), None);
    assert_eq!(lspci_device_name("03:00.0 no class separator"), None);
}

#[test]
fn gpu_kinds_and_names() {
    assert_eq!(determine_gpu_type("0x8086", None), Some(GpuType::Integrated));
    assert_eq!(determine_gpu_type("0x1002", Some("17163091968\n")), Some(GpuType::Discrete));
    assert_eq!(determine_gpu_type("0x1002", Some("4294967296")), Some(GpuType::Discrete));
    assert_eq!(determine_gpu_type("0x1002", Some("4294967295")), Some(GpuType::Integrated));
    assert_eq!(determine_gpu_type("0x1002", Some("536870912")), Some(GpuType::Integrated));
    assert_eq!(determine_gpu_type("0x1002", Some("lots")), None);
    assert_eq!(determine_gpu_type("0x1002", None), None);
    assert!(is_drm_card("card0"));
    assert!(is_drm_card("card12"));
    assert!(!is_drm_card("card0-DP-1"));
    assert!(!is_drm_card("renderD128"));
    assert!(drm_vendor_listed("0x1002"));
    assert!(drm_vendor_listed("0x8086"));
    assert!(!drm_vendor_listed("0x10de"));
    assert!(!drm_vendor_listed("0x1af4"));
    assert_eq!(default_gpu_name("0x8086"), "Intel GPU");
    assert_eq!(default_gpu_name("0x1002"), "AMD GPU");
}

const MEMINFO: &str = "MemTotal:       32768000 kB
MemFree:         1000000 kB
MemAvailable:   16384000 kB
SwapCached:            0 kB
SwapTotal:       8388604 kB
SwapFree:        8000000 kB
";

#[test]
fn meminfo() {
    assert_eq!(parse_meminfo_kb(MEMINFO, "MemTotal"), Some(32768000));
    assert_eq!(parse_meminfo_kb(MEMINFO, "SwapTotal"), Some(8388604));
    // The first line that starts with the key is read.
    assert_eq!(parse_meminfo_kb(MEMINFO, "Swap"), Some(0));
    assert_eq!(parse_meminfo_kb(MEMINFO, "Hugepagesize"), None);
    assert_eq!(parse_meminfo_kb("MemTotal: lots kB", "MemTotal"), None);
    assert_eq!(
        memory_info(MEMINFO),
        Some(MemoryInfo { total: 32768000 * 1024, used: (32768000 - 16384000) * 1024 })
    );
    assert_eq!(memory_info("MemTotal: 100 kB\nMemAvailable: 200 kB"), Some(MemoryInfo { total: 102400, used: 0 }));
    assert_eq!(memory_info("MemTotal: 100 kB"), None);
    assert_eq!(
        swap_info(MEMINFO),
        Some(MemoryInfo { total: 8388604 * 1024, used: (8388604 - 8000000) * 1024 })
    );
    assert_eq!(swap_info("SwapTotal: 0 kB\nSwapFree: 0 kB"), None);
    assert_eq!(swap_info("SwapTotal: 4 kB"), Some(MemoryInfo { total: 4096, used: 4096 }));
    assert_eq!(swap_info("MemTotal: 4 kB"), None);
}

const CPUINFO: &str = "processor\t: 0
vendor_id\t: GenuineIntel
model name\t: Intel(R) Core(TM) i5-8250U CPU @ 1.60GHz
cpu MHz\t\t: 800.000

processor\t: 1
model name\t: Intel(R) Core(TM) i5-8250U CPU @ 1.60GHz
";

#[test]
fn cpuinfo() {
    assert_eq!(
        cpu_model_name(CPUINFO),
        Some("Intel(R) Core(TM) i5-8250U CPU @ 1.60GHz".to_string())
    );
    assert_eq!(cpu_model_name("model name : a: b"), Some("a".to_string()));
    assert_eq!(cpu_model_name("model name"), None);
    assert_eq!(cpu_model_name("vendor_id : x"), None);
    assert_eq!(cpu_core_count(CPUINFO), 2);
    assert_eq!(cpu_core_count(""), 0);
}

const NET_DEV: &str = "Inter-|   Receive                                                |  Transmit
 face |bytes    packets errs drop fifo frame compressed multicast|bytes    packets errs drop fifo colls carrier compressed
    lo: 1000 10 0 0 0 0 0 0 1000 10 0 0 0 0 0 0
  eth0: 123456 100 0 0 0 0 0 0 654321 90 0 0 0 0 0 0
 wlan0: 5 1 0 0 0 0 0 0
";

#[test]
fn net_dev() {
    assert_eq!(parse_net_dev(NET_DEV), vec![("eth0".to_string(), 123456, 654321)]);
    assert!(parse_net_dev("").is_empty());
}

#[test]
fn ipv4() {
    let out = "2: eth0: <BROADCAST,MULTICAST,UP,LOWER_UP> mtu 1500 state UP group default qlen 1000
    inet 192.168.1.20/24 brd 192.168.1.255 scope global dynamic eth0
       valid_lft 86000sec preferred_lft 86000sec
    inet 10.0.0.2/8 scope global eth0
";
    assert_eq!(parse_ipv4(out), Some("192.168.1.20".to_string()));
    assert_eq!(parse_ipv4("    inet 10.1.2.3 scope global\n"), Some("10.1.2.3".to_string()));
    assert_eq!(parse_ipv4("    inet6 fe80::1/64 scope link\n"), None);
    assert_eq!(parse_ipv4("inet "), None);
}

#[test]
fn os_release_and_kernel() {
    let release = "NAME=\"Void\"\nID=\"void\"\nPRETTY_NAME=\"Void Linux\"\n";
    assert_eq!(os_name(release), Some("Void Linux".to_string()));
    assert_eq!(os_name("PRETTY_NAME=Arch Linux"), Some("Arch Linux".to_string()));
    assert_eq!(os_name("PRETTY_NAME=PRETTY_NAME=\"\"x\"\""), Some("x".to_string()));
    assert_eq!(os_name("NAME=Void"), None);
    assert_eq!(
        kernel_release("Linux version 6.6.30_1 (voidlinux@void) (gcc) #1 SMP"),
        Some("6.6.30_1".to_string())
    );
    assert_eq!(kernel_release("Linux version"), None);
}

#[test]
fn host_lines() {
    assert!(is_dmi_placeholder("To Be Filled By O.E.M."));
    assert!(is_dmi_placeholder("System Product Name"));
    assert!(is_dmi_placeholder("N/A"));
    assert!(is_dmi_placeholder("none"));
    assert!(!is_dmi_placeholder("ThinkPad X1 Carbon"));
    assert!(!is_dmi_placeholder(" none"));
    assert_eq!(
        host_model(Some("20KH006MGE\n"), Some("ThinkPad X1 Carbon 6th\n")),
        Some("20KH006MGE ThinkPad X1 Carbon 6th".to_string())
    );
    assert_eq!(host_model(Some("MS-7C91"), Some("1.0")), Some("MS-7C91 1.0".to_string()));
    assert_eq!(host_model(Some("MS-7C91"), Some("Default string")), Some("MS-7C91".to_string()));
    assert_eq!(host_model(Some("System Product Name"), Some("1.0")), None);
    assert_eq!(host_model(None, Some("1.0")), None);
    assert_eq!(host_model(Some("   "), None), None);
    assert_eq!(unix_host(" Box ", " 2 ", Some("ignored")), "Box 2");
    assert_eq!(unix_host("Box", "", None), "Box");
    assert_eq!(unix_host("", "2", Some("myhost\n")), "myhost");
    assert_eq!(unix_host("", "", None), "Unknown");
}

#[test]
fn ages_and_uptimes() {
    let day = 86400;
    assert_eq!(os_age_text(0), "0 days");
    assert_eq!(os_age_text(29 * day + 86399), "29 days");
    assert_eq!(os_age_text(45 * day), "1 months, 15 days");
    assert_eq!(os_age_text(400 * day), "1 years, 1 months, 10 days");
    assert_eq!(os_age_text(365 * day), "1 years, 0 months, 5 days");
    let a = Age::collect(Some(400 * day)).unwrap();
    assert_eq!(a, Age { years: 1, months: 1, days: 10 });
    assert_eq!(a.render(), os_age_text(400 * day));
    assert_eq!(Age::collect(Some(45 * day)).unwrap().render(), "1 months, 15 days");
    assert_eq!(Age::collect(None), None);
    assert_eq!(Uptime::collect(None), None);

    assert_eq!(uptime_text(59), "0 mins");
    assert_eq!(uptime_text(3599), "59 mins");
    assert_eq!(uptime_text(3600), "1 hours, 0 mins");
    assert_eq!(uptime_text(90061), "1 days, 1 hours, 1 mins");
    let u = Uptime::collect(Some(90061)).unwrap();
    assert_eq!(u, Uptime { days: 1, hours: 1, minutes: 1 });
    assert_eq!(u.render(), uptime_text(90061));
    assert_eq!(Uptime::collect(Some(7200)).unwrap().render(), "2 hours, 0 mins");
}

#[test]
fn os_summary() {
    let info = OsInfo {
        name: "Void Linux".to_string(),
        host: Some("MS-7C91 1.0".to_string()),
        kernel: "6.6.30_1".to_string(),
        age: "2 days".to_string(),
        uptime: "5 mins".to_string(),
    };
    assert_eq!(
        info.render(),
        "Host: MS-7C91 1.0\nOS: Void Linux\nKernel: 6.6.30_1\nAge: 2 days\nUptime: 5 mins"
    );
    let info = OsInfo { host: None, ..info };
    assert_eq!(info.render(), "OS: Void Linux\nKernel: 6.6.30_1\nAge: 2 days\nUptime: 5 mins");
}

fn summary(gpus: usize, with_everything: bool) -> Info {
    let gib = 1u64 << 30;
    Info {
        os: OsSummary {
            name: if with_everything { Some("Void Linux".to_string()) } else { None },
            host: Some("MS-7C91 1.0".to_string()),
            kernel: if with_everything { Some("6.6.30_1".to_string()) } else { None },
            age: Some("1 years, 2 months, 3 days".to_string()),
            uptime: Some("5 hours, 2 mins".to_string()),
            load_percent: if with_everything { Some((12, 8, 5)) } else { None },
        },
        hardware: HardwareInfo {
            cpu: if with_everything {
                Some(CpuInfo {
                    name: "AMD Ryzen 5 5600G".to_string(),
                    cores: 12,
                    frequency: "4.46 GHz".to_string(),
                    temperature: Some("🟢 45.5°C".to_string()),
                })
            } else {
                None
            },
            gpu: (0..gpus)
                .map(|i| GpuInfo {
                    name: format!("GPU model {}", i),
                    temperature: if i == 0 { Some("🟡 65.0°C".to_string()) } else { None },
                    gpu_type: if i == 0 { Some(GpuType::Integrated) } else { Some(GpuType::Discrete) },
                })
                .collect(),
            swap: if with_everything { Some(MemoryInfo { total: 2 * gib, used: 0 }) } else { None },
            memory: if with_everything {
                Some(MemoryInfo { total: 16 * gib, used: 13 * gib })
            } else {
                None
            },
            disks: if with_everything {
                vec![
                    DiskInfo {
                        label: "/".to_string(),
                        filesystem: "ext4".to_string(),
                        size: 100 * gib,
                        used: Some(25 * gib),
                    },
                    DiskInfo {
                        label: "sdb".to_string(),
                        filesystem: "ntfs, not mounted".to_string(),
                        size: 2048 * gib,
                        used: None,
                    },
                ]
            } else {
                Vec::new()
            },
            network: if with_everything {
                vec![
                    NetworkInfo {
                        name: "eth0".to_string(),
                        ip_address: Some("192.168.1.20".to_string()),
                        rx_bytes: 1536,
                        tx_bytes: 10,
                    },
                    NetworkInfo { name: "wg0".to_string(), ip_address: None, rx_bytes: 0, tx_bytes: 0 },
                ]
            } else {
                Vec::new()
            },
        },
    }
}

#[test]
fn status_summary_with_everything() {
    let text = summary(2, true).render();
    let expected = "<b>OS:</b> Void Linux\n\
<b>Host:</b> MS-7C91 1.0\n\
<b>Kernel:</b> 6.6.30_1\n\
<b>Age:</b> 1 years, 2 months, 3 days\n\
<b>Uptime:</b> 5 hours, 2 mins\n\
<b>Load:</b> 12% · 8% · 5%  <i>(1/5/15 min)</i>\n\
\n──────────────────────\n\n\
<b>CPU:</b> AMD Ryzen 5 5600G (12 cores) @ 4.46 GHz  🟢 45.5°C\n\
<b>GPU 1:</b> GPU model 0 [Integrated]  🟡 65.0°C\n\
<b>GPU 2:</b> GPU model 1 [Discrete]\n\
<b>Memory:</b> 13.00 GiB / 16.00 GiB (81%)\n\
🟥🟥🟥🟥🟥🟥🟥🟥⬜⬜\n\
<b>Swap:</b> 0 B / 2.00 GiB (0%)\n\
⬜⬜⬜⬜⬜⬜⬜⬜⬜⬜\n\
\n\
<b>Disk /:</b> 25.00 GiB / 100.00 GiB (25%) — ext4\n\
🟩🟩🟩⬜⬜⬜⬜⬜⬜⬜\n\
<b>Disk sdb:</b> 2.00 TiB — ntfs, not mounted\n\
\n<b>Network:</b>\n\
eth0 192.168.1.20  ↓ 1.50 KiB  ↑ 10 B\n\
wg0 —  ↓ 0 B  ↑ 0 B\n";
    assert_eq!(text, expected);
}

#[test]
fn status_summary_with_little_known() {
    let text = summary(1, false).render();
    let expected = "<b>OS:</b> Unknown\n\
<b>Host:</b> MS-7C91 1.0\n\
<b>Age:</b> 1 years, 2 months, 3 days\n\
<b>Uptime:</b> 5 hours, 2 mins\n\
\n──────────────────────\n\n\
<b>CPU:</b> Unknown\n\
<b>GPU:</b> GPU model 0 [Integrated]  🟡 65.0°C\n\
<b>Memory:</b> Unknown\n\
\n\
<b>Disk:</b> Unknown\n";
    assert_eq!(text, expected);
}

#[test]
fn usage_bars_must_fit() {
    let info = summary(1, true);
    assert!(can_draw_bars(&info.hardware));
    let mut info = summary(1, true);
    info.hardware.memory = Some(MemoryInfo { total: 1, used: u64::MAX });
    assert!(!can_draw_bars(&info.hardware));
    info.hardware.memory = Some(MemoryInfo { total: 1, used: u64::MAX / 100 });
    assert!(!can_draw_bars(&info.hardware));
    info.hardware.memory = Some(MemoryInfo { total: 1, used: 200 });
    assert!(can_draw_bars(&info.hardware));
    info.hardware.disks[0].used = Some(u64::MAX);
    assert!(!can_draw_bars(&info.hardware));
    info.hardware.disks[0].used = None;
    info.hardware.disks[0].size = u64::MAX;
    assert!(can_draw_bars(&info.hardware));
}

#[test]
fn cpuinfo_fields_and_thermal_zones() {
    assert_eq!(cpuinfo_field(CPUINFO, "cpu MHz"), Some("800.000".to_string()));
    assert_eq!(cpuinfo_field(CPUINFO, "vendor_id"), Some("GenuineIntel".to_string()));
    assert_eq!(cpuinfo_field(CPUINFO, "flags"), None);
    assert!(is_cpu_zone("thermal_zone0", "x86_pkg_temp\n"));
    assert!(is_cpu_zone("thermal_zone3", "cpu-thermal"));
    assert!(is_cpu_zone("thermal_zone1", "acpitz-cpu0\n"));
    assert!(!is_cpu_zone("thermal_zone2", "acpitz"));
    assert!(!is_cpu_zone("cooling_device0", "Processor"));
    assert!(!is_cpu_zone("cooling_device1", "cpu"));
}

#[test]
fn nvidia_smi_rows() {
    assert_eq!(
        nvidia_smi_row("NVIDIA GeForce RTX 3080, 45"),
        ("NVIDIA GeForce RTX 3080".to_string(), Some("45".to_string()))
    );
    assert_eq!(nvidia_smi_row(" Tesla T4 ,  [N/A] ,x"), ("Tesla T4".to_string(), Some("[N/A] ,x".to_string())));
    assert_eq!(nvidia_smi_row("Quadro"), ("Quadro".to_string(), None));
}
