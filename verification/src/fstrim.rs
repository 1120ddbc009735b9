pub mod fstrim_error;
pub mod fstrim_interface;
pub mod trim_report;
pub mod trim_result;
