pub mod billing;
pub mod config;
pub mod dispatch;
pub mod docs;
pub mod earnings;
pub mod helper;
pub mod preferences;
pub mod profile;
pub mod ratings;
pub mod referral;
pub mod ride_history;
pub mod rides;
pub mod text;
pub mod vehicle;
