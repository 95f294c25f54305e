//! Typed records from the pages of an athletics results site that offers no
//! interface for programs, and the cache that stands before the site.
//!
//! Each extractor in [`models`] turns one kind of page into records and says
//! in its contract what the records are, in terms of what the HTML parser and
//! the regular-expression engine find in the page. [`cache`] holds results by
//! request, [`run`] decides how a request is served, and [`facade`] pairs
//! each operation's address with its extractor.

pub mod cache;
pub mod components;
pub mod date;
pub mod decimal;
pub mod dom;
pub mod facade;
pub mod models;
pub mod number;
pub mod pattern;
pub mod requests;
pub mod response;
pub mod run;
pub mod text;
pub mod traits;
pub mod util;

pub use crate::components::country::Country;
pub use crate::models::athlete_event_result::AthleteEventResults;
pub use crate::models::ExtractError;
pub use crate::traits::CompetitionID;
