pub mod nvme_drive_info;
pub mod nvme_self_test_log;
pub mod nvme_self_test_task;
