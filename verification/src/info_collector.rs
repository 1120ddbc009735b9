pub mod hardware_info;
pub mod info;
pub mod linux_hardware_info_collector;
pub mod linux_os_info_collector;
pub mod os_info;
