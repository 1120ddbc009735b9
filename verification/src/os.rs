pub mod age;
pub mod linux_info_source;
pub mod os_info;
pub mod unix_info_source;
pub mod uptime;
