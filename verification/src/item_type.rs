use vstd::prelude::*;

use crate::text::str_eq;

verus! {

/// The three kinds of item that can be attached to a comic.
#[derive(Copy, Clone, Debug, PartialEq, Eq, Hash, Structural)]
pub enum ItemType {
    Cast,
    Location,
    Storyline,
}

/// The textual name of each item kind, as stored in the database.
pub open spec fn item_type_name(t: ItemType) -> Seq<char> {
    match t {
        ItemType::Cast => "cast"@,
        ItemType::Location => "location"@,
        ItemType::Storyline => "storyline"@,
    }
}

impl ItemType {
    /// The database name of this kind.
    #[inline]
    pub fn as_str(&self) -> (r: &'static str)
        ensures
            r@ == item_type_name(*self),
    {
        match self {
            ItemType::Cast => "cast",
            ItemType::Location => "location",
            ItemType::Storyline => "storyline",
        }
    }
}

/// Whether `s` is the database name of some item kind.
pub open spec fn is_item_type_name(s: Seq<char>) -> bool {
    exists|t: ItemType| item_type_name(t) == s
}

impl ItemType {
    /// Reads an item kind from its database name; any other text is handed
    /// back as the error.
    pub fn try_from_str<'a>(item_type: &'a str) -> (r: Result<ItemType, &'a str>)
        ensures
            match r {
                Ok(t) => item_type_name(t) == item_type@,
                Err(e) => e@ == item_type@ && !is_item_type_name(item_type@),
            },
    {
        if str_eq(item_type, "cast") {
            Ok(ItemType::Cast)
        } else if str_eq(item_type, "location") {
            Ok(ItemType::Location)
        } else if str_eq(item_type, "storyline") {
            Ok(ItemType::Storyline)
        } else {
            proof {
                assert forall|t: ItemType| item_type_name(t) != item_type@ by {
                    match t {
                        ItemType::Cast => {},
                        ItemType::Location => {},
                        ItemType::Storyline => {},
                    }
                }
            }
            Err(item_type)
        }
    }
}

/// Law: distinct item kinds have distinct names, so reading back the name of
/// a kind gives that kind and nothing else.
pub proof fn lemma_item_type_name_roundtrip(t: ItemType, u: ItemType)
    ensures
        is_item_type_name(item_type_name(t)),
        item_type_name(u) == item_type_name(t) ==> u == t,
{
    reveal_strlit("cast");
    reveal_strlit("location");
    reveal_strlit("storyline");
    assert(item_type_name(t) == item_type_name(t));
    if item_type_name(u) == item_type_name(t) && u != t {
        match (t, u) {
            (ItemType::Cast, ItemType::Location) => assert(item_type_name(t)[0] != item_type_name(u)[0]),
            (ItemType::Cast, ItemType::Storyline) => assert(item_type_name(t)[0] != item_type_name(u)[0]),
            (ItemType::Location, ItemType::Cast) => assert(item_type_name(t)[0] != item_type_name(u)[0]),
            (ItemType::Location, ItemType::Storyline) => assert(item_type_name(t)[0] != item_type_name(u)[0]),
            (ItemType::Storyline, ItemType::Cast) => assert(item_type_name(t)[0] != item_type_name(u)[0]),
            (ItemType::Storyline, ItemType::Location) => assert(item_type_name(t)[0] != item_type_name(u)[0]),
            _ => {},
        }
    }
}

} // verus!
