pub mod answer_laws;
pub mod collect;
pub mod dn;
pub mod dn_laws;
pub mod domain;
pub mod entry;
pub mod entry_laws;
pub mod error;
pub mod filter;
pub mod filter_laws;
pub mod handler;
pub mod laws;
pub mod message;
pub mod render;
pub mod search_laws;
pub mod step;
pub mod text;
pub mod view_laws;
