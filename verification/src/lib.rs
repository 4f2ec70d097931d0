pub mod element_search;
pub mod errors;
pub mod hint_laws;
pub mod hint_utils;
pub mod integer;
pub mod laws;
pub mod memory;
pub mod vm;

pub use element_search::{find_element, search_sorted_lower};
