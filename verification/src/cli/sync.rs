//! Arguments of the `sync` subcommand.

use vstd::prelude::*;

verus! {

/// Synchronisation of sessions.
pub struct SyncArgs {
    pub command: SyncCommand,
}

pub enum SyncCommand {
    Start {
        directory: Option<String>,
        workspace: Option<String>,
    },
    Replay {
        body: String,
        directory: Option<String>,
        workspace: Option<String>,
    },
    Steal {
        body: String,
        directory: Option<String>,
        workspace: Option<String>,
    },
    HistoryList {
        body: String,
        directory: Option<String>,
        workspace: Option<String>,
    },
}

/// The counts that `serde_json` reads from a text as a JSON object of
/// names and unsigned 64-bit integers, or none when it refuses the text.
pub uninterp spec fn history_counts(body: Seq<char>) -> Option<Map<Seq<char>, u64>>;

/// Names that occur once each.
pub open spec fn names_distinct(v: Seq<(String, u64)>) -> bool {
    forall|i: int, j: int| 0 <= i < j < v.len() ==> #[trigger] v[i].0@ != #[trigger] v[j].0@
}

/// The pairs of a list read as a map from name to count.
pub open spec fn counts_map(v: Seq<(String, u64)>) -> Map<Seq<char>, u64> {
    Map::new(
        |k: Seq<char>| exists|i: int| 0 <= i < v.len() && v[i].0@ == k,
        |k: Seq<char>| v[choose|i: int| 0 <= i < v.len() && v[i].0@ == k].1,
    )
}

/// Calls `serde_json::from_str` to read the text as a
/// `HashMap<String, u64>`, and hands its entries out in the order the map
/// is walked. The contract claims that the reading succeeds exactly when
/// `history_counts` gives counts, and that the entries, one per name, are
/// those counts; their order is left open, since a `HashMap` is walked in a
/// different order in each process.
#[verifier::external_body]
fn parse_history_counts(body: &str) -> (r: Result<Vec<(String, u64)>, serde_json::Error>)
    ensures
        r is Err <==> history_counts(body@) is None,
        r matches Ok(v) ==> names_distinct(v@) && counts_map(v@) == history_counts(body@)->0,
{
    match serde_json::from_str::<std::collections::HashMap<String, u64>>(body) {
        Ok(map) => Ok(map.into_iter().collect()),
        Err(e) => Err(e),
    }
}

/// The body of a history listing: the `--body` text read as a JSON object of
/// names and counts. It is refused exactly when `serde_json` refuses it;
/// otherwise it holds each name once, with its count.
pub fn history_list_body(body: &str) -> (r: Result<Vec<(String, u64)>, serde_json::Error>)
    ensures
        r is Err <==> history_counts(body@) is None,
        r matches Ok(v) ==> names_distinct(v@) && counts_map(v@) == history_counts(body@)->0,
{
    parse_history_counts(body)
}

} // verus!
