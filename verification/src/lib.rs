//! Picks invitation targets out of spreadsheet rows, and prepares the
//! service-account token exchange that fetches those rows.

pub mod text;
pub mod phone;
pub mod invite;
pub mod token;
pub mod sheet;
pub mod flow;
