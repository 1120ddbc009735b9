pub mod btrfs_error;
pub mod btrfs_filesystem;
pub mod btrfs_interface;
pub mod scrub_report;
pub mod scrub_result;
pub mod scrub_task;
