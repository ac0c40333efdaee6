use vstd::prelude::*;

use crate::comics::{Exclusion, Inclusion, Sorting};
use crate::ids::{ComicId, ItemId};
use crate::item_type::ItemType;

verus! {

/// An item that already exists, named by its id.
#[derive(Copy, Clone, Debug, Default, PartialEq, Eq, Structural)]
pub struct ExistingItem {
    pub item_id: u16,
}

/// An item to be created with the given name and kind.
#[derive(Debug, PartialEq, Eq)]
pub struct NewItem {
    pub new_item_name: String,
    pub new_item_type: ItemType,
}

/// The item of a request to add an item to a comic.
#[derive(Debug, PartialEq, Eq)]
pub enum ItemBody {
    New(NewItem),
    Existing(ExistingItem),
}

/// A request to add one item, new or existing, to a comic.
#[derive(Debug, PartialEq, Eq)]
pub struct AddItemToComicBody {
    pub comic_id: ComicId,
    pub item: ItemBody,
}

/// What can be wrong with a request to add one item.
#[derive(Copy, Clone, Debug, PartialEq, Eq, Structural)]
pub enum AddItemToComicBodyInvalidity {
    ItemIdInvalid,
    EmptyNewItemName,
}

/// A request to add several existing items to a comic.
#[derive(Debug, PartialEq, Eq)]
pub struct AddItemsToComicBody {
    pub comic_id: ComicId,
    pub items: Vec<ExistingItem>,
}

/// What can be wrong with a request to add several items.
#[derive(Copy, Clone, Debug, PartialEq, Eq, Structural)]
pub enum AddItemsToComicBodyInvalidity {
    ItemIdInvalid,
}

/// The problems of a request to add one item, in the order they are checked:
/// an existing item must have an id of at least 1, and a new item must have
/// a name.
pub open spec fn add_item_invalidities(body: AddItemToComicBody) -> Seq<
    AddItemToComicBodyInvalidity,
> {
    let id_check: Seq<AddItemToComicBodyInvalidity> = match body.item {
        ItemBody::Existing(e) => if e.item_id < 1 {
            seq![AddItemToComicBodyInvalidity::ItemIdInvalid]
        } else {
            Seq::empty()
        },
        ItemBody::New(_) => Seq::empty(),
    };
    let name_check: Seq<AddItemToComicBodyInvalidity> = match body.item {
        ItemBody::New(n) => if n.new_item_name@.len() == 0 {
            seq![AddItemToComicBodyInvalidity::EmptyNewItemName]
        } else {
            Seq::empty()
        },
        ItemBody::Existing(_) => Seq::empty(),
    };
    id_check + name_check
}

impl AddItemToComicBody {
    /// The problems of this request; it is valid when there are none.
    pub fn invalidities(&self) -> (r: Vec<AddItemToComicBodyInvalidity>)
        ensures
            r@ == add_item_invalidities(*self),
    {
        let mut r: Vec<AddItemToComicBodyInvalidity> = Vec::new();
        match &self.item {
            ItemBody::Existing(existing) => {
                if existing.item_id < 1 {
                    r.push(AddItemToComicBodyInvalidity::ItemIdInvalid);
                }
            },
            ItemBody::New(new) => {
                if new.new_item_name.as_str().is_empty() {
                    r.push(AddItemToComicBodyInvalidity::EmptyNewItemName);
                }
            },
        }
        assert(r@ =~= add_item_invalidities(*self));
        r
    }
}

impl AddItemToComicBodyInvalidity {
    /// The description of the problem.
    pub fn message(&self) -> (r: &'static str)
        ensures
            r@ == (match *self {
                AddItemToComicBodyInvalidity::ItemIdInvalid =>
                    "itemId must be either -1 (for a new item) or a value larger than 0 (for an existing item)"@,
                AddItemToComicBodyInvalidity::EmptyNewItemName => "newItemName value is empty"@,
            }),
    {
        match self {
            AddItemToComicBodyInvalidity::ItemIdInvalid =>
                "itemId must be either -1 (for a new item) or a value larger than 0 (for an existing item)",
            AddItemToComicBodyInvalidity::EmptyNewItemName => "newItemName value is empty",
        }
    }
}

/// The problems of a request to add several items: every item id must be at
/// least 1.
pub open spec fn add_items_invalidities(body: AddItemsToComicBody) -> Seq<
    AddItemsToComicBodyInvalidity,
> {
    if exists|t: int| 0 <= t < body.items@.len() && (#[trigger] body.items@[t]).item_id < 1 {
        seq![AddItemsToComicBodyInvalidity::ItemIdInvalid]
    } else {
        Seq::empty()
    }
}

impl AddItemsToComicBody {
    /// The problems of this request; it is valid when there are none.
    pub fn invalidities(&self) -> (r: Vec<AddItemsToComicBodyInvalidity>)
        ensures
            r@ == add_items_invalidities(*self),
    {
        let n = self.items.len();
        let mut i: usize = 0;
        while i < n
            invariant
                n == self.items@.len(),
                i <= n,
                forall|t: int| 0 <= t < i ==> (#[trigger] self.items@[t]).item_id >= 1,
            decreases n - i,
        {
            if self.items[i].item_id < 1 {
                let mut r: Vec<AddItemsToComicBodyInvalidity> = Vec::new();
                r.push(AddItemsToComicBodyInvalidity::ItemIdInvalid);
                assert(self.items@[i as int].item_id < 1);
                assert(r@ =~= add_items_invalidities(*self));
                return r;
            }
            i = i + 1;
        }
        let r: Vec<AddItemsToComicBodyInvalidity> = Vec::new();
        assert(r@ =~= add_items_invalidities(*self));
        r
    }
}

impl AddItemsToComicBodyInvalidity {
    /// The description of the problem.
    pub fn message(&self) -> (r: &'static str)
        ensures
            r@ == "itemIds must all be a value larger than 0"@,
    {
        "itemIds must all be a value larger than 0"
    }
}

/// The query of the list of all comics.
#[derive(Copy, Clone, Debug, PartialEq, Eq, Structural)]
pub struct AllQuery {
    pub exclude: Option<Exclusion>,
}

/// The query of the list of excluded comics.
#[derive(Copy, Clone, Debug, PartialEq, Eq, Structural)]
pub struct ExcludedQuery {
    pub exclusion: Option<Exclusion>,
}

/// The query of the comics that contain every given item.
#[derive(Clone, Debug, PartialEq, Eq)]
pub struct FilteredQuery {
    pub item_ids: Vec<ItemId>,
}

/// The query of one comic.
#[derive(Debug, PartialEq, Eq)]
pub struct ByIdQuery {
    pub token: Option<String>,
    pub exclude: Option<Exclusion>,
    pub inclusion: Option<Inclusion>,
    pub sorting: Option<Sorting>,
}

/// The query of the pending advance comics.
#[derive(Debug, PartialEq, Eq)]
pub struct ListAdvanceComicsQuery {
    pub token: Option<String>,
}

/// The request to run the comic updater now.
#[derive(Debug, PartialEq, Eq)]
pub struct RunComicUpdaterBody {
    pub token: String,
}

/// The query of a random comic of an item.
#[derive(Copy, Clone, Debug, PartialEq, Eq, Structural)]
pub struct RandomItemComicQuery {
    pub exclude: Option<Exclusion>,
    pub current_comic: u16,
}

/// The request to delete an image.
#[derive(Debug, PartialEq, Eq)]
pub struct DeleteImageBody {
    pub token: String,
}

/// The request to make an image the item's primary one.
#[derive(Debug, PartialEq, Eq)]
pub struct SetPrimaryImageBody {
    pub token: String,
    pub image_id: u32,
}

} // verus!
