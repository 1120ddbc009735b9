pub mod ata_smart_self_test_log;
pub mod basic_device_info;
pub mod common;
pub mod drive_info;
pub mod drives;
pub mod nvme_self_test;
pub mod nvme_self_test_log;
pub mod power_on_time;
pub mod scan_result;
pub mod self_test_report;
pub mod self_test_task;
pub mod smart_check_error;
pub mod smart_check_result;
pub mod smart_ctl_interface;
