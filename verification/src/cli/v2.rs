//! Option rules of the `v2` subcommand.

use vstd::prelude::*;

use super::text_is;

verus! {

/// The order in which a listing returns sessions or messages.
#[derive(Debug, PartialEq, Eq, Structural, Clone, Copy)]
pub enum ListOrder {
    Asc,
    Desc,
}

/// The `--order` option of a listing: `desc` asks for descending order, and
/// any other text for ascending order.
pub fn list_order(order: &Option<String>) -> (r: Option<ListOrder>)
    ensures
        r == match order {
            Some(o) => Some(if o@ == "desc"@ { ListOrder::Desc } else { ListOrder::Asc }),
            None => None::<ListOrder>,
        },
{
    proof {
        reveal_strlit("asc");
        reveal_strlit("desc");
        assert("asc"@.len() != "desc"@.len());
    }
    match order {
        Some(o) => {
            if text_is(o.as_str(), "asc") {
                Some(ListOrder::Asc)
            } else if text_is(o.as_str(), "desc") {
                Some(ListOrder::Desc)
            } else {
                Some(ListOrder::Asc)
            }
        },
        None => None,
    }
}

} // verus!
