//! The durable route store: what is loaded from it and what is written to
//! it.
//!
//! Reading, parsing and writing the document are the caller's; what a
//! document means for the table is decided here.

use crate::config::model::{
    distinct_keys, lemma_merge_into_empty, merge_pairs, Configuration, Pair, RoutingTable,
    ServerMapping,
};
use vstd::prelude::*;

verus! {

/// The file that stores the routes.
pub const CONFIG_PATH: &'static str = "config.json";

/// The document of a table without routes.
pub const DEFAULT_CONFIG: &'static str = "{\"servers\":[]}";

/// What was found in the place of the stored document.
#[derive(Debug, Clone, PartialEq, Eq)]
pub enum StoredDocument {
    /// There is no document.
    Missing,
    /// There is a document, and it could not be read.
    Unreadable,
    /// The document was read and is no route document.
    Malformed,
    /// The document, as read.
    Parsed { document: Configuration },
}

/// The pairs of the table that is loaded from what was found: those of
/// the document, and none where no document could be had.
pub open spec fn loaded_pairs(stored: StoredDocument) -> Seq<Pair> {
    match stored {
        StoredDocument::Parsed { document } => merge_pairs(Seq::empty(), document.pairs()),
        _ => Seq::empty(),
    }
}

/// Loading what was persisted gives the table back: the same pairs, in
/// the same order.
pub proof fn lemma_store_round_trip(table: Seq<Pair>, document: Configuration)
    requires
        distinct_keys(table),
        document.pairs() == table,
    ensures
        loaded_pairs(StoredDocument::Parsed { document }) == table,
{
    lemma_merge_into_empty(table);
}

/// The table at startup, and whether the document of an empty table has
/// to be written. A missing document is an empty table and is written
/// back at once; a document that cannot be read or understood is an empty
/// table too, and is left as it is.
pub fn get_config(stored: StoredDocument) -> (r: (RoutingTable, bool))
    ensures
        r.0.pairs() == loaded_pairs(stored),
        r.1 == (stored is Missing),
{
    match stored {
        StoredDocument::Missing => (RoutingTable::new(), true),
        StoredDocument::Unreadable => (RoutingTable::new(), false),
        StoredDocument::Malformed => (RoutingTable::new(), false),
        StoredDocument::Parsed { document } => (document.to_hashmap(), false),
    }
}

/// The document that stores `servers`.
pub fn update_config(servers: Vec<ServerMapping>) -> (r: Configuration)
    ensures
        r.servers == servers,
        r.pairs() == servers.deep_view(),
{
    Configuration { servers }
}

/// The routes of `store`, as the stored document lists them.
pub fn create_mappings_from_store(store: &RoutingTable) -> (r: Vec<ServerMapping>)
    ensures
        r.deep_view() == store.pairs(),
        distinct_keys(r.deep_view()),
{
    store.snapshot()
}

} // verus!
