pub mod databank;
pub mod error;
pub mod finalize;
pub mod forecast;
pub mod history;
pub mod identity;
pub mod league;
pub mod plan;
pub mod projection;
pub mod register;
pub mod totals;
