//! The decisions behind a bridge to a browser extension and behind an automatic
//! switch between accounts.
//!
//! The bridge takes HTTP requests from the extension and imports accounts on
//! its behalf: [`exchange`] is one such exchange, [`http`] reads the request,
//! [`bridge`] decides what is done with it, and [`reply`] makes the response.
//! [`wire`] shows that a request is read as a client has written it, and
//! [`value`] writes JSON.
//!
//! The switch changes to another account when the quota of the one in use is
//! exhausted: [`switch`] searches for that account, [`refresh`] brings what is
//! known of a quota up to date, [`account`] holds what is known, and [`report`]
//! tells what was done.
//!
//! None of them reads or sends anything. Each tells what work is to be done
//! next, and goes on with what the work has led to.

pub mod account;
pub mod bridge;
pub mod clock;
pub mod decimal;
pub mod exchange;
pub mod http;
pub mod ids;
pub mod json;
pub mod lines;
pub mod refresh;
pub mod reply;
pub mod report;
pub mod switch;
pub mod text;
pub mod text_map;
pub mod value;
pub mod views;
pub mod wire;
