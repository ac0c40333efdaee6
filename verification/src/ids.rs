use core::cmp::Ordering;
use vstd::prelude::*;
use vstd::std_specs::cmp::PartialOrdIs;
use vstd::std_specs::convert::FromSpec;

verus! {

/// Identifier of a comic strip.
#[derive(Copy, Clone, Debug, Default, PartialEq, Eq, Hash, Ord, Structural)]
pub struct ComicId(pub u16);

impl ComicId {
    /// Borrows the raw number.
    #[inline]
    pub fn as_inner(&self) -> (r: &u16)
        ensures
            *r == self.0,
    {
        &self.0
    }

    /// Returns the raw number.
    #[inline]
    pub fn into_inner(self) -> (r: u16)
        ensures
            r == self.0,
    {
        self.0
    }

    /// Wraps a raw number.
    #[inline]
    pub fn from_u16(comic_id: u16) -> (r: Self)
        ensures
            r.0 == comic_id,
    {
        ComicId(comic_id)
    }

    /// Whether the identifier equals the raw number.
    #[inline]
    pub fn eq_u16(&self, other: u16) -> (r: bool)
        ensures
            r == (self.0 == other),
    {
        self.0 == other
    }
}

impl From<u16> for ComicId {
    fn from(comic_id: u16) -> (r: Self) {
        ComicId(comic_id)
    }
}

impl vstd::std_specs::convert::FromSpecImpl<u16> for ComicId {
    open spec fn obeys_from_spec() -> bool {
        true
    }

    open spec fn from_spec(comic_id: u16) -> Self {
        ComicId(comic_id)
    }
}

/// Identifiers are ordered by their raw numbers.
impl PartialOrd for ComicId {
    fn partial_cmp(&self, other: &Self) -> (r: Option<Ordering>) {
        if self.0 < other.0 {
            Some(Ordering::Less)
        } else if self.0 > other.0 {
            Some(Ordering::Greater)
        } else {
            Some(Ordering::Equal)
        }
    }
}

impl vstd::std_specs::cmp::PartialOrdSpecImpl for ComicId {
    open spec fn obeys_partial_cmp_spec() -> bool {
        true
    }

    open spec fn partial_cmp_spec(&self, other: &Self) -> Option<Ordering> {
        if self.0 < other.0 {
            Some(Ordering::Less)
        } else if self.0 > other.0 {
            Some(Ordering::Greater)
        } else {
            Some(Ordering::Equal)
        }
    }
}

/// Law: wrapping a raw number and reading it back gives that number, reading
/// an identifier and wrapping it again gives that identifier, and identifiers
/// compare as their raw numbers do.
pub proof fn lemma_comic_id_round_trip_and_order(x: u16, a: ComicId, b: ComicId)
    ensures
        ComicId::from_spec(x).0 == x,
        ComicId::from_spec(a.0) == a,
        a.is_lt(&b) <==> a.0 < b.0,
        a.is_le(&b) <==> a.0 <= b.0,
        a.is_gt(&b) <==> a.0 > b.0,
        a.is_ge(&b) <==> a.0 >= b.0,
{
}

/// Identifier of an item (a cast member, a location or a storyline).
#[derive(Copy, Clone, Debug, Default, PartialEq, Eq, Hash, Ord, Structural)]
pub struct ItemId(pub u16);

impl ItemId {
    /// Borrows the raw number.
    #[inline]
    pub fn as_inner(&self) -> (r: &u16)
        ensures
            *r == self.0,
    {
        &self.0
    }

    /// Returns the raw number.
    #[inline]
    pub fn into_inner(self) -> (r: u16)
        ensures
            r == self.0,
    {
        self.0
    }

    /// Wraps a raw number.
    #[inline]
    pub fn from_u16(item_id: u16) -> (r: Self)
        ensures
            r.0 == item_id,
    {
        ItemId(item_id)
    }

    /// Whether the identifier equals the raw number.
    #[inline]
    pub fn eq_u16(&self, other: u16) -> (r: bool)
        ensures
            r == (self.0 == other),
    {
        self.0 == other
    }
}

impl From<u16> for ItemId {
    fn from(item_id: u16) -> (r: Self) {
        ItemId(item_id)
    }
}

impl vstd::std_specs::convert::FromSpecImpl<u16> for ItemId {
    open spec fn obeys_from_spec() -> bool {
        true
    }

    open spec fn from_spec(item_id: u16) -> Self {
        ItemId(item_id)
    }
}

/// Identifiers are ordered by their raw numbers.
impl PartialOrd for ItemId {
    fn partial_cmp(&self, other: &Self) -> (r: Option<Ordering>) {
        if self.0 < other.0 {
            Some(Ordering::Less)
        } else if self.0 > other.0 {
            Some(Ordering::Greater)
        } else {
            Some(Ordering::Equal)
        }
    }
}

impl vstd::std_specs::cmp::PartialOrdSpecImpl for ItemId {
    open spec fn obeys_partial_cmp_spec() -> bool {
        true
    }

    open spec fn partial_cmp_spec(&self, other: &Self) -> Option<Ordering> {
        if self.0 < other.0 {
            Some(Ordering::Less)
        } else if self.0 > other.0 {
            Some(Ordering::Greater)
        } else {
            Some(Ordering::Equal)
        }
    }
}

/// Law: wrapping a raw number and reading it back gives that number, reading
/// an identifier and wrapping it again gives that identifier, and identifiers
/// compare as their raw numbers do.
pub proof fn lemma_item_id_round_trip_and_order(x: u16, a: ItemId, b: ItemId)
    ensures
        ItemId::from_spec(x).0 == x,
        ItemId::from_spec(a.0) == a,
        a.is_lt(&b) <==> a.0 < b.0,
        a.is_le(&b) <==> a.0 <= b.0,
        a.is_gt(&b) <==> a.0 > b.0,
        a.is_ge(&b) <==> a.0 >= b.0,
{
}

} // verus!
