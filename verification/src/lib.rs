//! The neighborhood database of a node in a mesh network: which nodes it knows of, where they can
//! be reached, how they are connected, and what was signed of all that.

pub mod cbor;
pub mod cbor_laws;
pub mod cryptde;
pub mod database_laws;
pub mod decoding;
pub mod history_laws;
pub mod neighborhood;
pub mod neighborhood_database;
pub mod neighborhood_laws;
pub mod node_addr;
pub mod node_record;
pub mod node_record_inner;
pub mod node_signatures;
pub mod record_laws;
pub mod signing;
pub mod signing_laws;
pub mod table;
pub mod text;
