pub mod status;
pub mod store;
pub mod mount;
pub mod errors;
pub mod repo_files_browsers;
pub mod repo_files_details;
pub mod remaining_time;
pub mod vault;
