//! The routes, as a function over a described request.

pub mod admin;
pub mod answer;
pub mod cookies;
pub mod daemon;
pub mod dispatch;
pub mod filing;
pub mod forms;
pub mod http;
pub mod listing;
pub mod pages;
pub mod paths;
pub mod private_route;
pub mod promises;
pub mod public_route;
pub mod review;
pub mod setup;
pub mod signin;
pub mod step;
pub mod words;

pub use dispatch::{handle, Ctx};
pub use filing::{check_length, MAX_BYTES, MAX_WORDS};
pub use http::{security_headers, Policy, Req, Res};
pub use listing::listing_order;
pub use paths::{
    COOKIE, LANG_COOKIE, OWNER_VERBS, REVIEW_VERBS, SENSITIVE_VERBS, SETUP_COOKIE, STRINGS_PATH,
};
