pub mod device_info_parts;
