pub mod strings;
pub mod decimal;
pub mod text_utils;
pub mod command_runner;
pub mod btrfs;
pub mod fstrim;
pub mod smart_check;
pub mod maintenance;
pub mod system_update;
pub mod telegram_interface;
pub mod info_collector;
pub mod os;
