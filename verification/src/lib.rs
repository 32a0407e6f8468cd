//! Verified core of an opening-hours finder built on OpenStreetMap data:
//! search parameters and the query strings they produce, the elements
//! returned by the Overpass API, the nodes shown to the user and their order.
pub mod text;
pub mod route;
pub mod param;
pub mod hours;
pub mod overpass;
pub mod order;
pub mod node;
pub mod location;
pub mod taginfo;
pub mod search;
pub mod state;
