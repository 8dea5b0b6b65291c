//! How a request is told from others.

use crate::encoding::{format_uuid, is_random_uuid, random_uuid, uuid_text};
use vstd::prelude::*;

verus! {

/// The id of a request: the one in its header, or a new random one.
pub fn extract_request_id(header: Option<&str>) -> (r: String)
    ensures
        match header {
            Some(h) => r@ == h@,
            None => exists|id: u128| is_random_uuid(id) && r@ == #[trigger] uuid_text(id),
        },
{
    match header {
        Some(h) => h.to_owned(),
        None => format_uuid(random_uuid()),
    }
}

} // verus!
