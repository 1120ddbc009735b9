pub mod available_package_update;
pub mod update_check_error;
pub mod xbps_checker;
