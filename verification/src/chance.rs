//! What rests on chance: new ids, and bytes that no one can guess.
use vstd::prelude::*;

use crate::outside;
use crate::outside::uuid_form;

verus! {

/// Whether an id is one that the maker of new ids can give. Which one it gives is left open.
pub closed spec fn id_made(id: Seq<char>) -> bool {
    exists|made: String| #[trigger] call_ensures(outside::new_uuid, (), made) && made@ == id
}

/// A new id.
pub fn new_id() -> (res: String)
    ensures
        id_made(res@),
        uuid_form(res@),
{
    outside::new_uuid()
}

/// Whether bytes are ones that the generator of random numbers can give when it is asked for so
/// many. Which ones it gives is left open.
pub closed spec fn bytes_drawn(count: u16, bytes: Seq<u8>) -> bool {
    exists|drawn: Vec<u8>| #[trigger]
        call_ensures(outside::random_bytes, (count,), drawn) && drawn@ == bytes
}

/// So many random bytes.
pub fn draw_bytes(count: u16) -> (res: Vec<u8>)
    ensures
        bytes_drawn(count, res@),
        res@.len() == count,
{
    outside::random_bytes(count)
}

} // verus!
