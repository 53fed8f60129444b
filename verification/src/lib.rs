//! A verified worker-pool library with the small utility modules that grew up
//! around it: text search, a blog-post workflow, and assorted arithmetic and
//! string helpers.

pub mod adder;
pub mod blog;
pub mod boxes;
pub mod coins;
pub mod decoder;
pub mod funcs;
pub mod graphemes;
pub mod gtl;
pub mod gui;
pub mod numbers;
pub mod ownership;
pub mod pool;
pub mod restaurant;
pub mod search;
pub mod search_iter;
pub mod shapes;
pub mod shirts;
pub mod shoes;
pub mod text;
pub mod tracker;
pub mod wordcount;
pub mod words;
