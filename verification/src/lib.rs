//! A small blog-post library: the data model of a single `posts` table and
//! the five repository operations on it (list, create, get by id, update,
//! delete), each with a verified contract over a mathematical view of the
//! table.

pub mod models;
pub mod params;
pub mod store;
