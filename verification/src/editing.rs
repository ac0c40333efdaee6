use vstd::prelude::*;
use vstd::utf8::encode_utf8;

use crate::color::{color_text, parse_color_bytes, ColorParseError, ItemColor};
use crate::dates::{format_rfc3339_utc, rfc3339_utc_seconds, MAX_TIMESTAMP, MIN_TIMESTAMP};
use crate::ids::ComicId;
use crate::items::Item;
use crate::item_type::{item_type_name, ItemType};
use crate::text::{andified, andify_comma_string, comma_joined, decimal, join_comma, push_decimal, string_of};

verus! {

/// The flags of a comic that an editor can set.
#[derive(Copy, Clone, Debug, PartialEq, Eq, Structural)]
pub enum FlagType {
    IsGuestComic,
    IsNonCanon,
    HasNoCast,
    HasNoLocation,
    HasNoStoryline,
    HasNoTitle,
    HasNoTagline,
}

/// How the log describes a flag being set to `value`.
pub open spec fn flag_text(flag: FlagType, value: bool) -> Seq<char> {
    match flag {
        FlagType::IsGuestComic => if value {
            "to be a guest comic"@
        } else {
            "to be a Jeph comic"@
        },
        FlagType::IsNonCanon => if value {
            "to be non-canon"@
        } else {
            "to be canon"@
        },
        FlagType::HasNoCast => if value {
            "to have no cast"@
        } else {
            "to have cast"@
        },
        FlagType::HasNoLocation => if value {
            "to have no locations"@
        } else {
            "to have locations"@
        },
        FlagType::HasNoStoryline => if value {
            "to have no storylines"@
        } else {
            "to have storylines"@
        },
        FlagType::HasNoTitle => if value {
            "to have no title"@
        } else {
            "to have a title"@
        },
        FlagType::HasNoTagline => if value {
            "to have no tagline"@
        } else {
            "to have a tagline"@
        },
    }
}

/// How the log describes a flag being set to `value`.
pub fn flag_log_text(flag: FlagType, value: bool) -> (r: &'static str)
    ensures
        r@ == flag_text(flag, value),
{
    match flag {
        FlagType::IsGuestComic => if value {
            "to be a guest comic"
        } else {
            "to be a Jeph comic"
        },
        FlagType::IsNonCanon => if value {
            "to be non-canon"
        } else {
            "to be canon"
        },
        FlagType::HasNoCast => if value {
            "to have no cast"
        } else {
            "to have cast"
        },
        FlagType::HasNoLocation => if value {
            "to have no locations"
        } else {
            "to have locations"
        },
        FlagType::HasNoStoryline => if value {
            "to have no storylines"
        } else {
            "to have storylines"
        },
        FlagType::HasNoTitle => if value {
            "to have no title"
        } else {
            "to have a title"
        },
        FlagType::HasNoTagline => if value {
            "to have no tagline"
        } else {
            "to have a tagline"
        },
    }
}

/// The decimal text of a comic or item number.
pub open spec fn num(n: u16) -> Seq<char> {
    decimal(n as nat)
}

/// The log line of setting a flag.
pub open spec fn flag_action_text(comic_id: u16, flag: FlagType, value: bool) -> Seq<char> {
    "Set comic #"@ + num(comic_id) + " "@ + flag_text(flag, value)
}

/// The log line of setting a flag of a comic.
pub fn flag_action(comic_id: u16, flag: FlagType, value: bool) -> (r: String)
    ensures
        r@ == flag_action_text(comic_id, flag, value),
{
    let mut s = string_of("Set comic #");
    push_decimal(&mut s, comic_id as u64);
    s.append(" ");
    s.append(flag_log_text(flag, value));
    s
}

// ---------------------------------------------------------------------------
// Adding items to a comic
// ---------------------------------------------------------------------------

/// The "has no ..." flags of a comic that adding an item clears.
#[derive(Copy, Clone, Debug, PartialEq, Eq, Structural)]
pub struct ComicFlags {
    pub has_no_cast: u8,
    pub has_no_location: u8,
    pub has_no_storyline: u8,
}

/// The flag that adding an item of the given kind must clear, if it is set.
pub open spec fn flag_to_clear_spec(item_type: ItemType, flags: ComicFlags) -> Option<FlagType> {
    match item_type {
        ItemType::Cast => if flags.has_no_cast != 0 {
            Some(FlagType::HasNoCast)
        } else {
            None
        },
        ItemType::Location => if flags.has_no_location != 0 {
            Some(FlagType::HasNoLocation)
        } else {
            None
        },
        ItemType::Storyline => if flags.has_no_storyline != 0 {
            Some(FlagType::HasNoStoryline)
        } else {
            None
        },
    }
}

/// The flag that adding an item of the given kind must clear (set to
/// false), if the comic has it set.
pub fn flag_to_clear(item_type: ItemType, flags: ComicFlags) -> (r: Option<FlagType>)
    ensures
        r == flag_to_clear_spec(item_type, flags),
{
    match item_type {
        ItemType::Cast => if flags.has_no_cast != 0 {
            Some(FlagType::HasNoCast)
        } else {
            None
        },
        ItemType::Location => if flags.has_no_location != 0 {
            Some(FlagType::HasNoLocation)
        } else {
            None
        },
        ItemType::Storyline => if flags.has_no_storyline != 0 {
            Some(FlagType::HasNoStoryline)
        } else {
            None
        },
    }
}

/// The flags after clearing one of them.
pub open spec fn cleared(flags: ComicFlags, flag: Option<FlagType>) -> ComicFlags {
    match flag {
        Some(FlagType::HasNoCast) => ComicFlags { has_no_cast: 0, ..flags },
        Some(FlagType::HasNoLocation) => ComicFlags { has_no_location: 0, ..flags },
        Some(FlagType::HasNoStoryline) => ComicFlags { has_no_storyline: 0, ..flags },
        _ => flags,
    }
}

/// The log line of creating an item.
pub open spec fn created_item_text(item_type: ItemType, item_id: u16, name: Seq<char>) -> Seq<char> {
    "Created "@ + item_type_name(item_type) + " #"@ + num(item_id) + " ("@ + name + ")"@
}

/// The log line of creating an item.
pub fn created_item_action(item_type: ItemType, item_id: u16, name: &str) -> (r: String)
    ensures
        r@ == created_item_text(item_type, item_id, name@),
{
    let mut s = string_of("Created ");
    s.append(item_type.as_str());
    s.append(" #");
    push_decimal(&mut s, item_id as u64);
    s.append(" (");
    s.append(name);
    s.append(")");
    s
}

/// The log line of setting an item's start comic.
pub open spec fn start_comic_text(item_id: u16, start_comic_id: u16) -> Seq<char> {
    "Changed startComicId of item #"@ + num(item_id) + " to "@ + num(start_comic_id)
}

/// The log line of setting an item's start comic.
pub fn start_comic_action(item_id: u16, start_comic_id: u16) -> (r: String)
    ensures
        r@ == start_comic_text(item_id, start_comic_id),
{
    let mut s = string_of("Changed startComicId of item #");
    push_decimal(&mut s, item_id as u64);
    s.append(" to ");
    push_decimal(&mut s, start_comic_id as u64);
    s
}

/// The log line of adding an item to a comic.
pub open spec fn added_item_text(
    type_text: Seq<char>,
    item_id: u16,
    name: Seq<char>,
    comic_id: u16,
) -> Seq<char> {
    "Added "@ + type_text + " #"@ + num(item_id) + " ("@ + name + ") to comic #"@ + num(comic_id)
}

/// The log line (and answer) of adding an item to a comic.
pub fn added_item_action(type_text: &str, item_id: u16, name: &str, comic_id: u16) -> (r: String)
    ensures
        r@ == added_item_text(type_text@, item_id, name@, comic_id),
{
    let mut s = string_of("Added ");
    s.append(type_text);
    s.append(" #");
    push_decimal(&mut s, item_id as u64);
    s.append(" (");
    s.append(name);
    s.append(") to comic #");
    push_decimal(&mut s, comic_id as u64);
    s
}

/// The state of adding several items to a comic: the comic's flags as they
/// stand and the list of items added so far.
/// Law: clearing a kind's flag only ever resets flags (it never sets one),
/// and once cleared, another item of the same kind clears nothing more.
pub proof fn lemma_flag_cleared_once(item_type: ItemType, flags: ComicFlags)
    ensures
        ({
            let after = cleared(flags, flag_to_clear_spec(item_type, flags));
            &&& (after.has_no_cast == flags.has_no_cast || after.has_no_cast == 0)
            &&& (after.has_no_location == flags.has_no_location || after.has_no_location == 0)
            &&& (after.has_no_storyline == flags.has_no_storyline || after.has_no_storyline == 0)
            &&& flag_to_clear_spec(item_type, after) is None
        }),
{
}

/// Law: adding an item to a comic clears the comic's "has no" flag of the
/// item's kind when it is set, and only that flag; when it is not set,
/// nothing is cleared.
pub proof fn lemma_adding_an_item_clears_its_kind(flags: ComicFlags)
    ensures
        flags.has_no_cast != 0 ==> flag_to_clear_spec(ItemType::Cast, flags) == Some(
            FlagType::HasNoCast,
        ),
        flags.has_no_location != 0 ==> flag_to_clear_spec(ItemType::Location, flags) == Some(
            FlagType::HasNoLocation,
        ),
        flags.has_no_storyline != 0 ==> flag_to_clear_spec(ItemType::Storyline, flags) == Some(
            FlagType::HasNoStoryline,
        ),
        flags.has_no_cast == 0 ==> flag_to_clear_spec(ItemType::Cast, flags) is None,
        flags.has_no_location == 0 ==> flag_to_clear_spec(ItemType::Location, flags) is None,
        flags.has_no_storyline == 0 ==> flag_to_clear_spec(ItemType::Storyline, flags) is None,
        cleared(flags, flag_to_clear_spec(ItemType::Cast, flags)) == (ComicFlags {
            has_no_cast: 0,
            ..flags
        }),
        cleared(flags, flag_to_clear_spec(ItemType::Location, flags)) == (ComicFlags {
            has_no_location: 0,
            ..flags
        }),
        cleared(flags, flag_to_clear_spec(ItemType::Storyline, flags)) == (ComicFlags {
            has_no_storyline: 0,
            ..flags
        }),
{
}

/// Why adding an existing item to a comic was refused.
#[derive(Copy, Clone, Debug, PartialEq, Eq, Structural)]
pub enum AddItemError {
    /// The item named by a single-item request is not stored.
    ItemMissing,
    /// The item is already in the comic.
    AlreadyAdded,
    /// An item named by a several-item request is not stored.
    ItemNumberMissing(u16),
}

impl AddItemError {
    /// The description of the refusal.
    pub fn message(&self) -> (r: String)
        ensures
            r@ == (match *self {
                AddItemError::ItemMissing => "Item does not exist"@,
                AddItemError::AlreadyAdded => "Item is already added to comic"@,
                AddItemError::ItemNumberMissing(id) => "Item #"@ + num(id) + " does not exist"@,
            }),
    {
        match *self {
            AddItemError::ItemMissing => string_of("Item does not exist"),
            AddItemError::AlreadyAdded => string_of("Item is already added to comic"),
            AddItemError::ItemNumberMissing(id) => {
                let mut s = string_of("Item #");
                push_decimal(&mut s, id as u64);
                s.append(" does not exist");
                s
            },
        }
    }
}

/// Checks an existing item named by a single-item request: it must be stored
/// and not yet be in the comic.
pub fn check_existing_item(found: bool, already_added: bool) -> (r: Result<(), AddItemError>)
    ensures
        !found ==> r == Err::<(), AddItemError>(AddItemError::ItemMissing),
        found && already_added ==> r == Err::<(), AddItemError>(AddItemError::AlreadyAdded),
        found && !already_added ==> r is Ok,
{
    if !found {
        Err(AddItemError::ItemMissing)
    } else if already_added {
        Err(AddItemError::AlreadyAdded)
    } else {
        Ok(())
    }
}

/// What adding one item to a comic writes, once the item is known, in the
/// order it is written: the log line of the item's creation (when the request
/// created it), the start comic of a new storyline with its log line, the
/// comic flag to clear with its log line, and the log line of the item's
/// appearance in the comic, which is also the answer.
#[derive(Debug, PartialEq, Eq)]
pub struct AddItemPlan {
    pub created_log: Option<String>,
    pub start_comic: Option<(u16, String)>,
    pub flag: Option<(FlagType, String)>,
    pub added_log: String,
}

/// Plans the writes of adding an item to a comic: `created` tells whether the
/// request created the item (with id `item_id`), `flags` are the comic's
/// stored flags.
pub fn plan_add_item(
    comic_id: u16,
    item_id: u16,
    item_type: ItemType,
    name: &str,
    created: bool,
    flags: ComicFlags,
) -> (r: AddItemPlan)
    ensures
        created ==> (r.created_log matches Some(t) && t@ == created_item_text(
            item_type,
            item_id,
            name@,
        )),
        !created ==> r.created_log is None,
        (created && item_type == ItemType::Storyline) ==> (r.start_comic matches Some((c, t)) && c
            == comic_id && t@ == start_comic_text(item_id, comic_id)),
        !(created && item_type == ItemType::Storyline) ==> r.start_comic is None,
        match flag_to_clear_spec(item_type, flags) {
            Some(f) => r.flag matches Some((g, t)) && g == f && t@ == flag_action_text(
                comic_id,
                f,
                false,
            ),
            None => r.flag is None,
        },
        r.added_log@ == added_item_text(item_type_name(item_type), item_id, name@, comic_id),
{
    let created_log = if created {
        Some(created_item_action(item_type, item_id, name))
    } else {
        None
    };
    let start_comic = if created {
        match crate::items::default_start_comic_id_for_new_item(item_type, comic_id) {
            Some(start) => Some((start, start_comic_action(item_id, start))),
            None => None,
        }
    } else {
        None
    };
    let flag = match flag_to_clear(item_type, flags) {
        Some(f) => Some((f, flag_action(comic_id, f, false))),
        None => None,
    };
    let added_log = added_item_action(item_type.as_str(), item_id, name, comic_id);
    AddItemPlan { created_log, start_comic, flag, added_log }
}

#[derive(Debug, PartialEq, Eq)]
pub struct AddItemsProgress {
    pub flags: ComicFlags,
    pub items_added: String,
}

/// The list of added items after one more: `"type name"` appended, after a
/// `", "` when the list is not empty.
pub open spec fn with_added(list: Seq<char>, type_text: Seq<char>, name: Seq<char>) -> Seq<char> {
    (if list.len() == 0 {
        Seq::empty()
    } else {
        list + ", "@
    }) + type_text + " "@ + name
}

impl AddItemsProgress {
    /// The state before the first item.
    pub fn new(flags: ComicFlags) -> (r: Self)
        ensures
            r.flags == flags,
            r.items_added@ == Seq::<char>::empty(),
    {
        AddItemsProgress { flags, items_added: String::new() }
    }

    /// Takes one item into account: an item already in the comic is skipped;
    /// otherwise the flag that its kind clears is cleared (and returned, to
    /// be written) and the item joins the list.
    pub fn step(
        &mut self,
        item_type: ItemType,
        type_text: &str,
        name: &str,
        already_added: bool,
    ) -> (r: Option<FlagType>)
        ensures
            already_added ==> r is None && *final(self) == *old(self),
            !already_added ==> {
                &&& r == flag_to_clear_spec(item_type, old(self).flags)
                &&& final(self).flags == cleared(old(self).flags, r)
                &&& final(self).items_added@ == with_added(
                    old(self).items_added@,
                    type_text@,
                    name@,
                )
            },
    {
        if already_added {
            return None;
        }
        let flag = flag_to_clear(item_type, self.flags);
        match flag {
            Some(FlagType::HasNoCast) => {
                self.flags.has_no_cast = 0;
            },
            Some(FlagType::HasNoLocation) => {
                self.flags.has_no_location = 0;
            },
            Some(FlagType::HasNoStoryline) => {
                self.flags.has_no_storyline = 0;
            },
            _ => {},
        }
        if !self.items_added.as_str().is_empty() {
            self.items_added.append(", ");
        }
        self.items_added.append(type_text);
        self.items_added.append(" ");
        self.items_added.append(name);
        flag
    }

    /// The answer once every item was taken into account.
    pub fn summary(self, comic_id: u16) -> (r: String)
        ensures
            r@ == add_items_summary_text(self.items_added@, comic_id),
    {
        let mut list = self.items_added;
        andify_comma_string(&mut list);
        if list.as_str().is_empty() {
            let mut s = string_of("No new items added to comic ");
            push_decimal(&mut s, comic_id as u64);
            s.append("; they were all already added");
            s
        } else {
            let mut s = string_of("Items ");
            s.append(list.as_str());
            s.append(" added to comic ");
            push_decimal(&mut s, comic_id as u64);
            s
        }
    }
}

/// The answer to adding several items, from the list of added items.
pub open spec fn add_items_summary_text(list: Seq<char>, comic_id: u16) -> Seq<char> {
    let joined = andified(list);
    if joined.len() == 0 {
        "No new items added to comic "@ + num(comic_id) + "; they were all already added"@
    } else {
        "Items "@ + joined + " added to comic "@ + num(comic_id)
    }
}

// ---------------------------------------------------------------------------
// Patching a comic
// ---------------------------------------------------------------------------

/// A new publish date, in seconds since the Unix epoch.
#[derive(Copy, Clone, Debug, PartialEq, Eq, Structural)]
pub struct PublishDatePatch {
    pub publish_date: i64,
    pub is_accurate_publish_date: bool,
}

/// The changes an editor asks of a comic.
#[derive(Debug, PartialEq, Eq)]
pub struct PatchComicBody {
    pub token: String,
    pub publish_date: Option<PublishDatePatch>,
    pub title: Option<String>,
    pub tagline: Option<String>,
    pub is_guest_comic: Option<bool>,
    pub is_non_canon: Option<bool>,
    pub has_no_cast: Option<bool>,
    pub has_no_location: Option<bool>,
    pub has_no_storyline: Option<bool>,
    pub has_no_title: Option<bool>,
    pub has_no_tagline: Option<bool>,
}

/// Whether a second lies in the range of representable date-times.
pub open spec fn representable(secs: i64) -> bool {
    MIN_TIMESTAMP <= secs <= MAX_TIMESTAMP
}

/// The log line of changing a comic's publish date.
pub open spec fn publish_date_text(comic_id: u16, old: Option<i64>, new: i64) -> Seq<char> {
    match old {
        Some(o) => "Changed publish date on comic #"@ + num(comic_id) + " from \""@
            + rfc3339_utc_seconds(o) + "\" to \""@ + rfc3339_utc_seconds(new) + "\""@,
        None => "Set publish date on comic #"@ + num(comic_id) + " to \""@ + rfc3339_utc_seconds(
            new,
        ) + "\""@,
    }
}

/// The log line of changing a comic's publish date, from the stored one if
/// any.
pub fn publish_date_action(comic_id: u16, old: Option<i64>, new: i64) -> (r: String)
    requires
        representable(new),
        old matches Some(o) ==> representable(o),
    ensures
        r@ == publish_date_text(comic_id, old, new),
{
    match old {
        Some(o) => {
            let mut s = string_of("Changed publish date on comic #");
            push_decimal(&mut s, comic_id as u64);
            s.append(" from \"");
            s.append(format_rfc3339_utc(o).as_str());
            s.append("\" to \"");
            s.append(format_rfc3339_utc(new).as_str());
            s.append("\"");
            s
        },
        None => {
            let mut s = string_of("Set publish date on comic #");
            push_decimal(&mut s, comic_id as u64);
            s.append(" to \"");
            s.append(format_rfc3339_utc(new).as_str());
            s.append("\"");
            s
        },
    }
}

/// The log line of changing a comic's title.
pub open spec fn title_text(comic_id: u16, old: Seq<char>, new: Seq<char>) -> Seq<char> {
    if old.len() == 0 {
        "Set title on comic #"@ + num(comic_id) + " to \""@ + new + "\""@
    } else {
        "Changed title on comic #"@ + num(comic_id) + " from \""@ + old + "\" to \""@ + new
            + "\""@
    }
}

/// The log line of changing a comic's title.
pub fn title_action(comic_id: u16, old: &str, new: &str) -> (r: String)
    ensures
        r@ == title_text(comic_id, old@, new@),
{
    if old.is_empty() {
        let mut s = string_of("Set title on comic #");
        push_decimal(&mut s, comic_id as u64);
        s.append(" to \"");
        s.append(new);
        s.append("\"");
        s
    } else {
        let mut s = string_of("Changed title on comic #");
        push_decimal(&mut s, comic_id as u64);
        s.append(" from \"");
        s.append(old);
        s.append("\" to \"");
        s.append(new);
        s.append("\"");
        s
    }
}

/// The log line of changing a comic's tagline.
pub open spec fn tagline_text(comic_id: u16, old: Option<Seq<char>>, new: Seq<char>) -> Seq<char> {
    match old {
        Some(o) => if o.len() > 0 {
            "Changed tagline on comic #"@ + num(comic_id) + " from \""@ + o + "\" to \""@ + new
                + "\""@
        } else {
            "Set tagline on comic #"@ + num(comic_id) + " to \""@ + new + "\""@
        },
        None => "Set tagline on comic #"@ + num(comic_id) + " to \""@ + new + "\""@,
    }
}

/// The view of an optional text.
pub open spec fn opt_text(s: Option<String>) -> Option<Seq<char>> {
    match s {
        Some(t) => Some(t@),
        None => None,
    }
}

/// The log line of changing a comic's tagline.
pub fn tagline_action(comic_id: u16, old: &Option<String>, new: &str) -> (r: String)
    ensures
        r@ == tagline_text(comic_id, opt_text(*old), new@),
{
    match old {
        Some(o) if !o.as_str().is_empty() => {
            let mut s = string_of("Changed tagline on comic #");
            push_decimal(&mut s, comic_id as u64);
            s.append(" from \"");
            s.append(o.as_str());
            s.append("\" to \"");
            s.append(new);
            s.append("\"");
            s
        },
        _ => {
            let mut s = string_of("Set tagline on comic #");
            push_decimal(&mut s, comic_id as u64);
            s.append(" to \"");
            s.append(new);
            s.append("\"");
            s
        },
    }
}

/// One change to a comic.
#[derive(Debug, PartialEq, Eq)]
pub enum ComicUpdate {
    PublishDate(PublishDatePatch),
    Title(String),
    Tagline(String),
    Flag(FlagType, bool),
}

/// One change to a comic with its log line.
#[derive(Debug, PartialEq, Eq)]
pub struct ComicPatchStep {
    pub update: ComicUpdate,
    pub log: String,
}

/// The stored values that the log lines of a comic patch mention.
#[derive(Debug, PartialEq, Eq)]
pub struct ComicOldValues {
    pub publish_date: Option<i64>,
    pub title: String,
    pub tagline: Option<String>,
}

/// Plain model of a change to a comic.
pub enum ComicUpdateModel {
    PublishDate(PublishDatePatch),
    Title(Seq<char>),
    Tagline(Seq<char>),
    Flag(FlagType, bool),
}

pub open spec fn update_model(u: ComicUpdate) -> ComicUpdateModel {
    match u {
        ComicUpdate::PublishDate(p) => ComicUpdateModel::PublishDate(p),
        ComicUpdate::Title(t) => ComicUpdateModel::Title(t@),
        ComicUpdate::Tagline(t) => ComicUpdateModel::Tagline(t@),
        ComicUpdate::Flag(f, v) => ComicUpdateModel::Flag(f, v),
    }
}

pub open spec fn step_model(s: ComicPatchStep) -> (ComicUpdateModel, Seq<char>) {
    (update_model(s.update), s.log@)
}

/// A single step as a sequence of zero or one step.
pub open spec fn opt_step<T>(present: bool, step: T) -> Seq<T> {
    if present {
        seq![step]
    } else {
        Seq::empty()
    }
}

/// The step of a flag field: none when the field is absent.
pub open spec fn flag_step(comic_id: u16, flag: FlagType, value: Option<bool>) -> Seq<
    (ComicUpdateModel, Seq<char>),
> {
    match value {
        Some(v) => seq![(ComicUpdateModel::Flag(flag, v), flag_action_text(comic_id, flag, v))],
        None => Seq::empty(),
    }
}

/// The steps of a comic patch: publish date, title, tagline, then each flag
/// (guest, non-canon, no cast, no location, no storyline, no title, no
/// tagline), every one only when asked, each with its log line.
pub open spec fn comic_patch_steps(
    comic_id: u16,
    body: PatchComicBody,
    old: ComicOldValues,
) -> Seq<(ComicUpdateModel, Seq<char>)> {
    date_step(comic_id, body, old) + title_step(comic_id, body, old) + tagline_step(
        comic_id,
        body,
        old,
    ) + flag_step(comic_id, FlagType::IsGuestComic, body.is_guest_comic) + flag_step(
        comic_id,
        FlagType::IsNonCanon,
        body.is_non_canon,
    ) + flag_step(comic_id, FlagType::HasNoCast, body.has_no_cast) + flag_step(
        comic_id,
        FlagType::HasNoLocation,
        body.has_no_location,
    ) + flag_step(comic_id, FlagType::HasNoStoryline, body.has_no_storyline) + flag_step(
        comic_id,
        FlagType::HasNoTitle,
        body.has_no_title,
    ) + flag_step(comic_id, FlagType::HasNoTagline, body.has_no_tagline)
}

/// The publish-date step of a comic patch, if asked.
pub open spec fn date_step(comic_id: u16, body: PatchComicBody, old: ComicOldValues) -> Seq<
    (ComicUpdateModel, Seq<char>),
> {
    match body.publish_date {
        Some(p) => seq![
            (
                ComicUpdateModel::PublishDate(p),
                publish_date_text(comic_id, old.publish_date, p.publish_date),
            ),
        ],
        None => Seq::empty(),
    }
}

/// The title step of a comic patch, if asked.
pub open spec fn title_step(comic_id: u16, body: PatchComicBody, old: ComicOldValues) -> Seq<
    (ComicUpdateModel, Seq<char>),
> {
    match body.title {
        Some(t) => seq![(ComicUpdateModel::Title(t@), title_text(comic_id, old.title@, t@))],
        None => Seq::empty(),
    }
}

/// The tagline step of a comic patch, if asked.
pub open spec fn tagline_step(comic_id: u16, body: PatchComicBody, old: ComicOldValues) -> Seq<
    (ComicUpdateModel, Seq<char>),
> {
    match body.tagline {
        Some(t) => seq![
            (
                ComicUpdateModel::Tagline(t@),
                tagline_text(comic_id, opt_text(old.tagline), t@),
            ),
        ],
        None => Seq::empty(),
    }
}

/// The names of the fields a comic patch changes, in order.
pub open spec fn comic_patch_fields(body: PatchComicBody) -> Seq<Seq<char>> {
    opt_step(body.publish_date is Some, "publish date"@) + opt_step(body.title is Some, "title"@)
        + opt_step(body.tagline is Some, "tagline"@) + opt_step(
        body.is_guest_comic is Some,
        "isGuestComic flag"@,
    ) + opt_step(body.is_non_canon is Some, "isNonCanon flag"@) + opt_step(
        body.has_no_cast is Some,
        "hasNoCast flag"@,
    ) + opt_step(body.has_no_location is Some, "hasNoLocation flag"@) + opt_step(
        body.has_no_storyline is Some,
        "hasNoStoryline flag"@,
    ) + opt_step(body.has_no_title is Some, "hasNoTitle flag"@) + opt_step(
        body.has_no_tagline is Some,
        "hasNoTagline flag"@,
    )
}

/// The answer to a comic patch.
pub open spec fn comic_patch_message(comic_id: u16, body: PatchComicBody) -> Seq<char> {
    "Updated "@ + andified(comma_joined(comic_patch_fields(body))) + " for comic "@ + num(comic_id)
}

/// The plan of a comic patch: the steps to apply in order and the answer.
#[derive(Debug, PartialEq, Eq)]
pub struct ComicPatchPlan {
    pub steps: Vec<ComicPatchStep>,
    pub message: String,
}

fn push_flag_step(
    steps: &mut Vec<ComicPatchStep>,
    names: &mut Vec<&'static str>,
    comic_id: u16,
    flag: FlagType,
    value: Option<bool>,
    name: &'static str,
)
    ensures
        final(steps)@.map_values(|s: ComicPatchStep| step_model(s)) == old(steps)@.map_values(
            |s: ComicPatchStep| step_model(s),
        ) + flag_step(comic_id, flag, value),
        final(names)@.map_values(|t: &'static str| t@) == old(names)@.map_values(
            |t: &'static str| t@,
        ) + opt_step(value is Some, name@),
{
    match value {
        Some(v) => {
            let ghost before = steps@.map_values(|s: ComicPatchStep| step_model(s));
            let log = flag_action(comic_id, flag, v);
            steps.push(ComicPatchStep { update: ComicUpdate::Flag(flag, v), log });
            names.push(name);
            assert(steps@.map_values(|s: ComicPatchStep| step_model(s)) =~= before + flag_step(
                comic_id,
                flag,
                value,
            ));
            assert(names@.map_values(|t: &'static str| t@) =~= old(names)@.map_values(
                |t: &'static str| t@,
            ) + opt_step(value is Some, name@));
        },
        None => {
            assert(steps@.map_values(|s: ComicPatchStep| step_model(s)) =~= old(
                steps,
            )@.map_values(|s: ComicPatchStep| step_model(s)) + flag_step(comic_id, flag, value));
            assert(names@.map_values(|t: &'static str| t@) =~= old(names)@.map_values(
                |t: &'static str| t@,
            ) + opt_step(value is Some, name@));
        },
    }
}

/// Plans a comic patch from the request and the stored values it mentions:
/// the changes to apply in order, each with its log line, and the answer
/// listing the changed fields. Publish dates must be representable.
pub fn plan_comic_patch(comic_id: ComicId, body: &PatchComicBody, old: &ComicOldValues) -> (r:
    ComicPatchPlan)
    requires
        body.publish_date matches Some(p) ==> representable(p.publish_date),
        body.publish_date is Some ==> (old.publish_date matches Some(o) ==> representable(o)),
    ensures
        r.steps@.map_values(|s: ComicPatchStep| step_model(s)) == comic_patch_steps(
            comic_id.0,
            *body,
            *old,
        ),
        r.message@ == comic_patch_message(comic_id.0, *body),
{
    let id = comic_id.0;
    let mut steps: Vec<ComicPatchStep> = Vec::new();
    let mut names: Vec<&'static str> = Vec::new();
    if let Some(p) = body.publish_date {
        let log = publish_date_action(id, old.publish_date, p.publish_date);
        steps.push(ComicPatchStep { update: ComicUpdate::PublishDate(p), log });
        names.push("publish date");
    }
    assert(steps@.map_values(|s: ComicPatchStep| step_model(s)) =~= date_step(id, *body, *old));
    assert(names@.map_values(|t: &'static str| t@) =~= opt_step(
        body.publish_date is Some,
        "publish date"@,
    ));
    let ghost s1 = steps@.map_values(|s: ComicPatchStep| step_model(s));
    let ghost n1 = names@.map_values(|t: &'static str| t@);
    if let Some(t) = &body.title {
        let log = title_action(id, old.title.as_str(), t.as_str());
        steps.push(ComicPatchStep { update: ComicUpdate::Title(t.clone()), log });
        names.push("title");
    }
    assert(steps@.map_values(|s: ComicPatchStep| step_model(s)) =~= s1 + title_step(
        id,
        *body,
        *old,
    ));
    assert(names@.map_values(|t: &'static str| t@) =~= n1 + opt_step(body.title is Some, "title"@));
    let ghost s2 = steps@.map_values(|s: ComicPatchStep| step_model(s));
    let ghost n2 = names@.map_values(|t: &'static str| t@);
    if let Some(t) = &body.tagline {
        let log = tagline_action(id, &old.tagline, t.as_str());
        steps.push(ComicPatchStep { update: ComicUpdate::Tagline(t.clone()), log });
        names.push("tagline");
    }
    assert(steps@.map_values(|s: ComicPatchStep| step_model(s)) =~= s2 + tagline_step(
        id,
        *body,
        *old,
    ));
    assert(names@.map_values(|t: &'static str| t@) =~= n2 + opt_step(
        body.tagline is Some,
        "tagline"@,
    ));
    push_flag_step(
        &mut steps,
        &mut names,
        id,
        FlagType::IsGuestComic,
        body.is_guest_comic,
        "isGuestComic flag",
    );
    push_flag_step(
        &mut steps,
        &mut names,
        id,
        FlagType::IsNonCanon,
        body.is_non_canon,
        "isNonCanon flag",
    );
    push_flag_step(&mut steps, &mut names, id, FlagType::HasNoCast, body.has_no_cast, "hasNoCast flag");
    push_flag_step(
        &mut steps,
        &mut names,
        id,
        FlagType::HasNoLocation,
        body.has_no_location,
        "hasNoLocation flag",
    );
    push_flag_step(
        &mut steps,
        &mut names,
        id,
        FlagType::HasNoStoryline,
        body.has_no_storyline,
        "hasNoStoryline flag",
    );
    push_flag_step(
        &mut steps,
        &mut names,
        id,
        FlagType::HasNoTitle,
        body.has_no_title,
        "hasNoTitle flag",
    );
    push_flag_step(
        &mut steps,
        &mut names,
        id,
        FlagType::HasNoTagline,
        body.has_no_tagline,
        "hasNoTagline flag",
    );
    assert(steps@.map_values(|s: ComicPatchStep| step_model(s)) =~= comic_patch_steps(
        id,
        *body,
        *old,
    ));
    assert(names@.map_values(|t: &'static str| t@) =~= comic_patch_fields(*body));
    let mut changed = join_comma(&names);
    andify_comma_string(&mut changed);
    let mut message = string_of("Updated ");
    message.append(changed.as_str());
    message.append(" for comic ");
    push_decimal(&mut message, id as u64);
    ComicPatchPlan { steps, message }
}

// ---------------------------------------------------------------------------
// Patching an item
// ---------------------------------------------------------------------------

/// The changes an editor asks of an item. The end comic distinguishes "leave
/// it" (`None`), "ongoing" (`Some(None)`) and a value.
#[derive(Debug, PartialEq, Eq)]
pub struct PatchItemBody {
    pub token: String,
    pub name: Option<String>,
    pub short_name: Option<String>,
    pub color: Option<String>,
    pub item_type: Option<ItemType>,
    pub start_comic_id: Option<ComicId>,
    pub end_comic_id: Option<Option<ComicId>>,
}

/// The value a comic patch asks for a flag, if it asks for one.
pub open spec fn body_flag(body: PatchComicBody, flag: FlagType) -> Option<bool> {
    match flag {
        FlagType::IsGuestComic => body.is_guest_comic,
        FlagType::IsNonCanon => body.is_non_canon,
        FlagType::HasNoCast => body.has_no_cast,
        FlagType::HasNoLocation => body.has_no_location,
        FlagType::HasNoStoryline => body.has_no_storyline,
        FlagType::HasNoTitle => body.has_no_title,
        FlagType::HasNoTagline => body.has_no_tagline,
    }
}

/// Whether a step of a comic patch writes the flag.
pub open spec fn writes_flag(flag: FlagType) -> spec_fn((ComicUpdateModel, Seq<char>)) -> bool {
    |st: (ComicUpdateModel, Seq<char>)| st.0 matches ComicUpdateModel::Flag(g, _) && g == flag
}

/// A sequence of at most one step, filtered.
proof fn lemma_filter_at_most_one<A>(x: Seq<A>, p: spec_fn(A) -> bool)
    requires
        x.len() <= 1,
    ensures
        x.filter(p) == (if x.len() == 1 && p(x[0]) {
            x
        } else {
            Seq::<A>::empty()
        }),
{
    reveal_with_fuel(Seq::filter, 2);
    if x.len() == 1 {
        assert(x.drop_last() =~= Seq::<A>::empty());
        assert(x.drop_last().push(x[0]) =~= x);
    }
}

/// Filtering a concatenation; a side that keeps nothing drops out.
proof fn lemma_filter_concat<A>(a: Seq<A>, b: Seq<A>, p: spec_fn(A) -> bool)
    ensures
        (a + b).filter(p) == a.filter(p) + b.filter(p),
        b.filter(p).len() == 0 ==> (a + b).filter(p) == a.filter(p),
        a.filter(p).len() == 0 ==> (a + b).filter(p) == b.filter(p),
{
    Seq::filter_distributes_over_add(a, b, p);
    if b.filter(p).len() == 0 {
        Seq::add_empty_right(a.filter(p), b.filter(p));
    }
    if a.filter(p).len() == 0 {
        Seq::add_empty_left(a.filter(p), b.filter(p));
    }
}

/// Law: for every flag, a comic patch writes that flag exactly once, with
/// the value asked and its log line, when the body asks for it, and never
/// when the body leaves it alone.
#[verifier::spinoff_prover]
#[verifier::rlimit(50)]
pub proof fn lemma_comic_patch_writes_each_asked_flag(
    comic_id: u16,
    body: PatchComicBody,
    old: ComicOldValues,
    flag: FlagType,
)
    ensures
        comic_patch_steps(comic_id, body, old).filter(writes_flag(flag)) == (match body_flag(
            body,
            flag,
        ) {
            Some(v) => seq![(ComicUpdateModel::Flag(flag, v), flag_action_text(comic_id, flag, v))],
            None => Seq::empty(),
        }),
{
    let p = writes_flag(flag);
    let d = date_step(comic_id, body, old);
    let t = title_step(comic_id, body, old);
    let g = tagline_step(comic_id, body, old);
    let f1 = flag_step(comic_id, FlagType::IsGuestComic, body.is_guest_comic);
    let f2 = flag_step(comic_id, FlagType::IsNonCanon, body.is_non_canon);
    let f3 = flag_step(comic_id, FlagType::HasNoCast, body.has_no_cast);
    let f4 = flag_step(comic_id, FlagType::HasNoLocation, body.has_no_location);
    let f5 = flag_step(comic_id, FlagType::HasNoStoryline, body.has_no_storyline);
    let f6 = flag_step(comic_id, FlagType::HasNoTitle, body.has_no_title);
    let f7 = flag_step(comic_id, FlagType::HasNoTagline, body.has_no_tagline);
    let s1 = d + t;
    let s2 = s1 + g;
    let s3 = s2 + f1;
    let s4 = s3 + f2;
    let s5 = s4 + f3;
    let s6 = s5 + f4;
    let s7 = s6 + f5;
    let s8 = s7 + f6;
    let s9 = s8 + f7;
    assert(comic_patch_steps(comic_id, body, old) == s9);
    lemma_filter_at_most_one(d, p);
    lemma_filter_at_most_one(t, p);
    lemma_filter_at_most_one(g, p);
    lemma_filter_at_most_one(f1, p);
    lemma_filter_at_most_one(f2, p);
    lemma_filter_at_most_one(f3, p);
    lemma_filter_at_most_one(f4, p);
    lemma_filter_at_most_one(f5, p);
    lemma_filter_at_most_one(f6, p);
    lemma_filter_at_most_one(f7, p);
    lemma_filter_concat(d, t, p);
    lemma_filter_concat(s1, g, p);
    lemma_filter_concat(s2, f1, p);
    lemma_filter_concat(s3, f2, p);
    lemma_filter_concat(s4, f3, p);
    lemma_filter_concat(s5, f4, p);
    lemma_filter_concat(s6, f5, p);
    lemma_filter_concat(s7, f6, p);
    lemma_filter_concat(s8, f7, p);
}

/// The fields of a comic that a patch writes besides its flags.
pub enum ComicField {
    PublishDate,
    Title,
    Tagline,
}

/// Whether a step of a comic patch writes the field.
pub open spec fn writes_field(field: ComicField) -> spec_fn((ComicUpdateModel, Seq<char>)) -> bool {
    |st: (ComicUpdateModel, Seq<char>)|
        match field {
            ComicField::PublishDate => st.0 is PublishDate,
            ComicField::Title => st.0 is Title,
            ComicField::Tagline => st.0 is Tagline,
        }
}

/// Law: a comic patch writes the publish date, the title and the tagline
/// each exactly once, with the asked value and its log line, when the body
/// asks for it, and never otherwise.
#[verifier::spinoff_prover]
#[verifier::rlimit(50)]
pub proof fn lemma_comic_patch_writes_asked_field(
    comic_id: u16,
    body: PatchComicBody,
    old: ComicOldValues,
    field: ComicField,
)
    ensures
        comic_patch_steps(comic_id, body, old).filter(writes_field(field)) == (match field {
            ComicField::PublishDate => match body.publish_date {
                Some(p) => seq![
                    (
                        ComicUpdateModel::PublishDate(p),
                        publish_date_text(comic_id, old.publish_date, p.publish_date),
                    ),
                ],
                None => Seq::empty(),
            },
            ComicField::Title => match body.title {
                Some(t) => seq![(ComicUpdateModel::Title(t@), title_text(comic_id, old.title@, t@))],
                None => Seq::empty(),
            },
            ComicField::Tagline => match body.tagline {
                Some(t) => seq![
                    (
                        ComicUpdateModel::Tagline(t@),
                        tagline_text(comic_id, opt_text(old.tagline), t@),
                    ),
                ],
                None => Seq::empty(),
            },
        }),
{
    let p = writes_field(field);
    let d = date_step(comic_id, body, old);
    let t = title_step(comic_id, body, old);
    let g = tagline_step(comic_id, body, old);
    let f1 = flag_step(comic_id, FlagType::IsGuestComic, body.is_guest_comic);
    let f2 = flag_step(comic_id, FlagType::IsNonCanon, body.is_non_canon);
    let f3 = flag_step(comic_id, FlagType::HasNoCast, body.has_no_cast);
    let f4 = flag_step(comic_id, FlagType::HasNoLocation, body.has_no_location);
    let f5 = flag_step(comic_id, FlagType::HasNoStoryline, body.has_no_storyline);
    let f6 = flag_step(comic_id, FlagType::HasNoTitle, body.has_no_title);
    let f7 = flag_step(comic_id, FlagType::HasNoTagline, body.has_no_tagline);
    let s1 = d + t;
    let s2 = s1 + g;
    let s3 = s2 + f1;
    let s4 = s3 + f2;
    let s5 = s4 + f3;
    let s6 = s5 + f4;
    let s7 = s6 + f5;
    let s8 = s7 + f6;
    let s9 = s8 + f7;
    assert(comic_patch_steps(comic_id, body, old) == s9);
    lemma_filter_at_most_one(d, p);
    lemma_filter_at_most_one(t, p);
    lemma_filter_at_most_one(g, p);
    lemma_filter_at_most_one(f1, p);
    lemma_filter_at_most_one(f2, p);
    lemma_filter_at_most_one(f3, p);
    lemma_filter_at_most_one(f4, p);
    lemma_filter_at_most_one(f5, p);
    lemma_filter_at_most_one(f6, p);
    lemma_filter_at_most_one(f7, p);
    lemma_filter_concat(d, t, p);
    lemma_filter_concat(s1, g, p);
    lemma_filter_concat(s2, f1, p);
    lemma_filter_concat(s3, f2, p);
    lemma_filter_concat(s4, f3, p);
    lemma_filter_concat(s5, f4, p);
    lemma_filter_concat(s6, f5, p);
    lemma_filter_concat(s7, f6, p);
    lemma_filter_concat(s8, f7, p);
}

/// Why an item patch was refused.
#[derive(Copy, Clone, Debug, PartialEq, Eq, Structural)]
pub enum PatchItemError {
    EndBeforeStart { start: u16, end: u16 },
    InvalidColor(ColorParseError),
}

/// One change to an item.
#[derive(Debug, PartialEq, Eq)]
pub enum ItemUpdate {
    Name(String),
    ShortName(String),
    Color(ItemColor),
    Type(ItemType),
    StartComic(u16),
    EndComic(Option<u16>),
}

/// One change to an item with its log line.
#[derive(Debug, PartialEq, Eq)]
pub struct ItemPatchStep {
    pub update: ItemUpdate,
    pub log: String,
}

/// The plan of an item patch: the steps to apply in order and the answer.
#[derive(Debug, PartialEq, Eq)]
pub struct ItemPatchPlan {
    pub steps: Vec<ItemPatchStep>,
    pub message: String,
}

/// Plain model of a change to an item.
pub enum ItemUpdateModel {
    Name(Seq<char>),
    ShortName(Seq<char>),
    Color(ItemColor),
    Type(ItemType),
    StartComic(u16),
    EndComic(Option<u16>),
}

pub open spec fn item_update_model(u: ItemUpdate) -> ItemUpdateModel {
    match u {
        ItemUpdate::Name(t) => ItemUpdateModel::Name(t@),
        ItemUpdate::ShortName(t) => ItemUpdateModel::ShortName(t@),
        ItemUpdate::Color(c) => ItemUpdateModel::Color(c),
        ItemUpdate::Type(t) => ItemUpdateModel::Type(t),
        ItemUpdate::StartComic(c) => ItemUpdateModel::StartComic(c),
        ItemUpdate::EndComic(c) => ItemUpdateModel::EndComic(c),
    }
}

pub open spec fn item_step_model(s: ItemPatchStep) -> (ItemUpdateModel, Seq<char>) {
    (item_update_model(s.update), s.log@)
}

/// The start comic after the patch.
pub open spec fn effective_start(old: Item, body: PatchItemBody) -> Option<u16> {
    match body.start_comic_id {
        Some(c) => Some(c.0),
        None => old.start_comic_id,
    }
}

/// The end comic after the patch.
pub open spec fn effective_end(old: Item, body: PatchItemBody) -> Option<u16> {
    match body.end_comic_id {
        None => old.end_comic_id,
        Some(Some(c)) => Some(c.0),
        Some(None) => None,
    }
}

/// The log line of renaming an item (`field` is `name` or `shortName`).
pub open spec fn rename_text(
    field: Seq<char>,
    type_text: Seq<char>,
    item_id: u16,
    old: Seq<char>,
    new: Seq<char>,
) -> Seq<char> {
    if old.len() == 0 {
        "Set "@ + field + " of "@ + type_text + " #"@ + num(item_id) + " to \""@ + new + "\""@
    } else {
        "Changed "@ + field + " of "@ + type_text + " #"@ + num(item_id) + " from \""@ + old
            + "\" to \""@ + new + "\""@
    }
}

/// The log line of recoloring an item.
pub open spec fn recolor_text(type_text: Seq<char>, item_id: u16, old: ItemColor, new: ItemColor) -> Seq<
    char,
> {
    "Changed color of "@ + type_text + " #"@ + num(item_id) + " from \""@ + color_text(old, false)
        + "\" to \""@ + color_text(new, false) + "\""@
}

/// The log line of changing an item's kind.
pub open spec fn retype_text(item_id: u16, old_type: Seq<char>, new: ItemType) -> Seq<char> {
    "Changed type of item #"@ + num(item_id) + " from \""@ + old_type + "\" to \""@
        + item_type_name(new) + "\""@
}

/// The log line of changing an item's end comic.
pub open spec fn end_comic_text(item_id: u16, end: Option<u16>) -> Seq<char> {
    match end {
        Some(e) => "Changed endComicId of item #"@ + num(item_id) + " to "@ + num(e),
        None => "Set item #"@ + num(item_id) + " to ongoing (no endComicId)"@,
    }
}

/// The color asked by a patch, read from its text.
#[verifier::opaque]
pub open spec fn patch_color(body: PatchItemBody) -> Option<Result<ItemColor, ColorParseError>> {
    match body.color {
        Some(t) => Some(parse_color_bytes(encode_utf8(t@))),
        None => None,
    }
}

/// The name step of an item patch, if asked.
pub open spec fn name_step(item_id: u16, old: Item, body: PatchItemBody) -> Seq<
    (ItemUpdateModel, Seq<char>),
> {
    match body.name {
        Some(n) => seq![
            (
                ItemUpdateModel::Name(n@),
                rename_text("name"@, old.item_type@, item_id, old.name@, n@),
            ),
        ],
        None => Seq::empty(),
    }
}

/// The short-name step of an item patch, if asked.
pub open spec fn short_name_step(item_id: u16, old: Item, body: PatchItemBody) -> Seq<
    (ItemUpdateModel, Seq<char>),
> {
    match body.short_name {
        Some(n) => seq![
            (
                ItemUpdateModel::ShortName(n@),
                rename_text("shortName"@, old.item_type@, item_id, old.short_name@, n@),
            ),
        ],
        None => Seq::empty(),
    }
}

/// The color step of an item patch, if asked and read correctly.
pub open spec fn color_step(item_id: u16, old: Item, body: PatchItemBody) -> Seq<
    (ItemUpdateModel, Seq<char>),
> {
    match patch_color(body) {
        Some(Ok(c)) => seq![
            (
                ItemUpdateModel::Color(c),
                recolor_text(
                    old.item_type@,
                    item_id,
                    ItemColor(old.color_red, old.color_green, old.color_blue),
                    c,
                ),
            ),
        ],
        _ => Seq::empty(),
    }
}

/// The kind step of an item patch, if asked.
pub open spec fn type_step(item_id: u16, old: Item, body: PatchItemBody) -> Seq<
    (ItemUpdateModel, Seq<char>),
> {
    match body.item_type {
        Some(t) => seq![(ItemUpdateModel::Type(t), retype_text(item_id, old.item_type@, t))],
        None => Seq::empty(),
    }
}

/// The start-comic step of an item patch, if asked.
pub open spec fn start_step(item_id: u16, body: PatchItemBody) -> Seq<
    (ItemUpdateModel, Seq<char>),
> {
    match body.start_comic_id {
        Some(c) => seq![(ItemUpdateModel::StartComic(c.0), start_comic_text(item_id, c.0))],
        None => Seq::empty(),
    }
}

/// The end-comic value a patch asks for, when it asks for one.
pub open spec fn asked_end(e: Option<ComicId>) -> Option<u16> {
    match e {
        Some(c) => Some(c.0),
        None => None,
    }
}

/// The end-comic step of an item patch, if asked.
pub open spec fn end_step(item_id: u16, body: PatchItemBody) -> Seq<(ItemUpdateModel, Seq<char>)> {
    match body.end_comic_id {
        Some(e) => seq![
            (ItemUpdateModel::EndComic(asked_end(e)), end_comic_text(item_id, asked_end(e))),
        ],
        None => Seq::empty(),
    }
}

/// The steps of an item patch: name, short name, color, kind, start comic,
/// end comic, every one only when asked, each with its log line. The color
/// must read correctly.
pub open spec fn item_patch_steps(item_id: u16, old: Item, body: PatchItemBody) -> Seq<
    (ItemUpdateModel, Seq<char>),
> {
    name_step(item_id, old, body) + short_name_step(item_id, old, body) + color_step(
        item_id,
        old,
        body,
    ) + type_step(item_id, old, body) + start_step(item_id, body) + end_step(item_id, body)
}

/// The names of the fields an item patch changes, in order.
pub open spec fn item_patch_fields(body: PatchItemBody) -> Seq<Seq<char>> {
    opt_step(body.name is Some, "name"@) + opt_step(body.short_name is Some, "short name"@)
        + opt_step(body.color is Some, "color"@) + opt_step(body.item_type is Some, "type"@)
        + opt_step(body.start_comic_id is Some, "start comic"@) + opt_step(
        body.end_comic_id is Some,
        "end comic"@,
    )
}

/// The answer to an item patch: the changed fields, then the item's kind and
/// name after the patch.
pub open spec fn item_patch_message(item_id: u16, old: Item, body: PatchItemBody) -> Seq<char> {
    let ty = match body.item_type {
        Some(t) => item_type_name(t),
        None => old.item_type@,
    };
    let name = match body.name {
        Some(n) => n@,
        None => old.name@,
    };
    "Updated "@ + andified(comma_joined(item_patch_fields(body))) + " for "@ + ty + " "@ + num(
        item_id,
    ) + " ("@ + name + ")"@
}

/// The outcome of an item patch: refused when the end comic would come before
/// the start comic, then when the color does not read; planned otherwise.
pub open spec fn item_patch_outcome_ok(item_id: u16, old: Item, body: PatchItemBody) -> bool {
    &&& !(effective_start(old, body) is Some && effective_end(old, body) is Some
        && effective_end(old, body)->0 < effective_start(old, body)->0)
    &&& !(patch_color(body) matches Some(Err(_)))
}

/// The start comic an item has after a patch: the asked start when the
/// patch asks for one, otherwise the stored start.
pub open spec fn start_after_patch(old: Item, body: PatchItemBody) -> Option<u16> {
    match body.start_comic_id {
        Some(asked) => Some(asked.0),
        None => old.start_comic_id,
    }
}

/// The end comic an item has after a patch: the asked end (possibly none)
/// when the patch asks for one, otherwise the stored end.
pub open spec fn end_after_patch(old: Item, body: PatchItemBody) -> Option<u16> {
    match body.end_comic_id {
        Some(Some(asked)) => Some(asked.0),
        Some(None) => None,
        None => old.end_comic_id,
    }
}

/// Law: an item patch is accepted only if it leaves the item's end comic no
/// earlier than its start comic, where start and end are those the item has
/// after the patch (asked values win over stored ones); a patch that would
/// put the end before the start is refused.
pub proof fn lemma_item_patch_keeps_start_before_end(item_id: u16, old: Item, body: PatchItemBody)
    ensures
        item_patch_outcome_ok(item_id, old, body) ==> !(start_after_patch(old, body) is Some
            && end_after_patch(old, body) is Some && end_after_patch(old, body)->0
            < start_after_patch(old, body)->0),
        (start_after_patch(old, body) is Some && end_after_patch(old, body) is Some
            && end_after_patch(old, body)->0 < start_after_patch(old, body)->0)
            ==> !item_patch_outcome_ok(item_id, old, body),
{
}

/// The fields of an item that a patch writes.
pub enum ItemField {
    Name,
    ShortName,
    Color,
    Type,
    StartComic,
    EndComic,
}

/// Whether a step of an item patch writes the field.
pub open spec fn writes_item_field(field: ItemField) -> spec_fn((ItemUpdateModel, Seq<char>)) -> bool {
    |st: (ItemUpdateModel, Seq<char>)|
        match field {
            ItemField::Name => st.0 is Name,
            ItemField::ShortName => st.0 is ShortName,
            ItemField::Color => st.0 is Color,
            ItemField::Type => st.0 is Type,
            ItemField::StartComic => st.0 is StartComic,
            ItemField::EndComic => st.0 is EndComic,
        }
}

/// Law: an item patch writes each field exactly once, with the asked value
/// and its log line, when the body asks for it (the color only when it
/// reads), and never otherwise.
#[verifier::spinoff_prover]
#[verifier::rlimit(50)]
pub proof fn lemma_item_patch_writes_asked_field(
    item_id: u16,
    old: Item,
    body: PatchItemBody,
    field: ItemField,
)
    ensures
        item_patch_steps(item_id, old, body).filter(writes_item_field(field)) == (match field {
            ItemField::Name => match body.name {
                Some(n) => seq![
                    (
                        ItemUpdateModel::Name(n@),
                        rename_text("name"@, old.item_type@, item_id, old.name@, n@),
                    ),
                ],
                None => Seq::empty(),
            },
            ItemField::ShortName => match body.short_name {
                Some(n) => seq![
                    (
                        ItemUpdateModel::ShortName(n@),
                        rename_text("shortName"@, old.item_type@, item_id, old.short_name@, n@),
                    ),
                ],
                None => Seq::empty(),
            },
            ItemField::Color => match patch_color(body) {
                Some(Ok(c)) => seq![
                    (
                        ItemUpdateModel::Color(c),
                        recolor_text(
                            old.item_type@,
                            item_id,
                            ItemColor(old.color_red, old.color_green, old.color_blue),
                            c,
                        ),
                    ),
                ],
                _ => Seq::empty(),
            },
            ItemField::Type => match body.item_type {
                Some(t) => seq![(ItemUpdateModel::Type(t), retype_text(item_id, old.item_type@, t))],
                None => Seq::empty(),
            },
            ItemField::StartComic => match body.start_comic_id {
                Some(c) => seq![(ItemUpdateModel::StartComic(c.0), start_comic_text(item_id, c.0))],
                None => Seq::empty(),
            },
            ItemField::EndComic => match body.end_comic_id {
                Some(Some(c)) => seq![
                    (ItemUpdateModel::EndComic(Some(c.0)), end_comic_text(item_id, Some(c.0))),
                ],
                Some(None) => seq![(ItemUpdateModel::EndComic(None), end_comic_text(item_id, None))],
                None => Seq::empty(),
            },
        }),
{
    let p = writes_item_field(field);
    let a1 = name_step(item_id, old, body);
    let a2 = short_name_step(item_id, old, body);
    let a3 = color_step(item_id, old, body);
    let a4 = type_step(item_id, old, body);
    let a5 = start_step(item_id, body);
    let a6 = end_step(item_id, body);
    let s1 = a1 + a2;
    let s2 = s1 + a3;
    let s3 = s2 + a4;
    let s4 = s3 + a5;
    let s5 = s4 + a6;
    assert(item_patch_steps(item_id, old, body) == s5);
    lemma_filter_at_most_one(a1, p);
    lemma_filter_at_most_one(a2, p);
    lemma_filter_at_most_one(a3, p);
    lemma_filter_at_most_one(a4, p);
    lemma_filter_at_most_one(a5, p);
    lemma_filter_at_most_one(a6, p);
    lemma_filter_concat(a1, a2, p);
    lemma_filter_concat(s1, a3, p);
    lemma_filter_concat(s2, a4, p);
    lemma_filter_concat(s3, a5, p);
    lemma_filter_concat(s4, a6, p);
    match field {
        ItemField::Name => {
            assert(a2.filter(p).len() == 0);
            assert(a3.filter(p).len() == 0);
            assert(a4.filter(p).len() == 0);
            assert(a5.filter(p).len() == 0);
            assert(a6.filter(p).len() == 0);
            assert(a1.filter(p) == a1);
            assert(s1.filter(p) == a1.filter(p)) by {
                lemma_filter_concat(a1, a2, p);
            }
            assert(s5.filter(p) == a1);
        },
        ItemField::ShortName => {
            assert(a1.filter(p).len() == 0);
            assert(a3.filter(p).len() == 0);
            assert(a4.filter(p).len() == 0);
            assert(a5.filter(p).len() == 0);
            assert(a6.filter(p).len() == 0);
            assert(a2.filter(p) == a2);
            assert(s1.filter(p) == a2.filter(p)) by {
                lemma_filter_concat(a1, a2, p);
            }
            assert(s5.filter(p) == a2);
        },
        ItemField::Color => {
            assert(a1.filter(p).len() == 0);
            assert(a2.filter(p).len() == 0);
            assert(a4.filter(p).len() == 0);
            assert(a5.filter(p).len() == 0);
            assert(a6.filter(p).len() == 0);
            assert(a3.filter(p) == a3);
            assert(s1.filter(p) == Seq::<(ItemUpdateModel, Seq<char>)>::empty()) by {
                lemma_filter_concat(a1, a2, p);
            }
            assert(s5.filter(p) == a3);
        },
        ItemField::Type => {
            assert(a1.filter(p).len() == 0);
            assert(a2.filter(p).len() == 0);
            assert(a3.filter(p).len() == 0);
            assert(a5.filter(p).len() == 0);
            assert(a6.filter(p).len() == 0);
            assert(a4.filter(p) == a4);
            assert(s1.filter(p) == Seq::<(ItemUpdateModel, Seq<char>)>::empty()) by {
                lemma_filter_concat(a1, a2, p);
            }
            assert(s5.filter(p) == a4);
        },
        ItemField::StartComic => {
            assert(a1.filter(p).len() == 0);
            assert(a2.filter(p).len() == 0);
            assert(a3.filter(p).len() == 0);
            assert(a4.filter(p).len() == 0);
            assert(a6.filter(p).len() == 0);
            assert(a5.filter(p) == a5);
            assert(s1.filter(p) == Seq::<(ItemUpdateModel, Seq<char>)>::empty()) by {
                lemma_filter_concat(a1, a2, p);
            }
            assert(s5.filter(p) == a5);
        },
        ItemField::EndComic => {
            assert(a1.filter(p).len() == 0);
            assert(a2.filter(p).len() == 0);
            assert(a3.filter(p).len() == 0);
            assert(a4.filter(p).len() == 0);
            assert(a5.filter(p).len() == 0);
            assert(a6.filter(p) == a6);
            assert(s1.filter(p) == Seq::<(ItemUpdateModel, Seq<char>)>::empty()) by {
                lemma_filter_concat(a1, a2, p);
            }
            assert(s5.filter(p) == a6);
        },
    }
}

fn rename_action(field: &str, type_text: &str, item_id: u16, old: &str, new: &str) -> (r: String)
    ensures
        r@ == rename_text(field@, type_text@, item_id, old@, new@),
{
    if old.is_empty() {
        let mut s = string_of("Set ");
        s.append(field);
        s.append(" of ");
        s.append(type_text);
        s.append(" #");
        push_decimal(&mut s, item_id as u64);
        s.append(" to \"");
        s.append(new);
        s.append("\"");
        s
    } else {
        let mut s = string_of("Changed ");
        s.append(field);
        s.append(" of ");
        s.append(type_text);
        s.append(" #");
        push_decimal(&mut s, item_id as u64);
        s.append(" from \"");
        s.append(old);
        s.append("\" to \"");
        s.append(new);
        s.append("\"");
        s
    }
}

fn recolor_action(type_text: &str, item_id: u16, old: ItemColor, new: ItemColor) -> (r: String)
    ensures
        r@ == recolor_text(type_text@, item_id, old, new),
{
    let mut s = string_of("Changed color of ");
    s.append(type_text);
    s.append(" #");
    push_decimal(&mut s, item_id as u64);
    s.append(" from \"");
    s.append(old.to_hex_string(false).as_str());
    s.append("\" to \"");
    s.append(new.to_hex_string(false).as_str());
    s.append("\"");
    s
}

fn retype_action(item_id: u16, old_type: &str, new: ItemType) -> (r: String)
    ensures
        r@ == retype_text(item_id, old_type@, new),
{
    let mut s = string_of("Changed type of item #");
    push_decimal(&mut s, item_id as u64);
    s.append(" from \"");
    s.append(old_type);
    s.append("\" to \"");
    s.append(new.as_str());
    s.append("\"");
    s
}

fn end_comic_action(item_id: u16, end: Option<u16>) -> (r: String)
    ensures
        r@ == end_comic_text(item_id, end),
{
    match end {
        Some(e) => {
            let mut s = string_of("Changed endComicId of item #");
            push_decimal(&mut s, item_id as u64);
            s.append(" to ");
            push_decimal(&mut s, e as u64);
            s
        },
        None => {
            let mut s = string_of("Set item #");
            push_decimal(&mut s, item_id as u64);
            s.append(" to ongoing (no endComicId)");
            s
        },
    }
}

impl PatchItemError {
    /// The description of the refusal.
    pub fn message(&self) -> (r: String)
        ensures
            r@ == (match *self {
                PatchItemError::EndBeforeStart { start, end } => "endComicId ("@ + num(end)
                    + ") cannot be before startComicId ("@ + num(start) + ")"@,
                PatchItemError::InvalidColor(e) => crate::color::color_error_message(e),
            }),
    {
        match self {
            PatchItemError::EndBeforeStart { start, end } => {
                let mut s = string_of("endComicId (");
                push_decimal(&mut s, *end as u64);
                s.append(") cannot be before startComicId (");
                push_decimal(&mut s, *start as u64);
                s.append(")");
                s
            },
            PatchItemError::InvalidColor(e) => string_of(e.message()),
        }
    }
}

#[verifier::rlimit(60)]
fn item_patch_step_list(
    item_id: u16,
    old: &Item,
    body: &PatchItemBody,
    new_color: Option<ItemColor>,
) -> (r: (Vec<ItemPatchStep>, Vec<&'static str>))
    requires
        match patch_color(*body) {
            Some(Ok(c)) => new_color == Some(c),
            Some(Err(_)) => false,
            None => new_color is None,
        },
    ensures
        r.0@.map_values(|s: ItemPatchStep| item_step_model(s)) == item_patch_steps(
            item_id,
            *old,
            *body,
        ),
        r.1@.map_values(|t: &'static str| t@) == item_patch_fields(*body),
{
    proof {
        reveal(patch_color);
    }
    let ty = old.item_type.as_str();
    let mut steps: Vec<ItemPatchStep> = Vec::new();
    let mut names: Vec<&'static str> = Vec::new();
    if let Some(n) = &body.name {
        let log = rename_action("name", ty, item_id, old.name.as_str(), n.as_str());
        steps.push(ItemPatchStep { update: ItemUpdate::Name(n.clone()), log });
        names.push("name");
    }
    let ghost s1 = steps@.map_values(|s: ItemPatchStep| item_step_model(s));
    let ghost n1 = names@.map_values(|t: &'static str| t@);
    assert(s1 =~= name_step(item_id, *old, *body));
    assert(n1 =~= opt_step(body.name is Some, "name"@));
    if let Some(n) = &body.short_name {
        let log = rename_action("shortName", ty, item_id, old.short_name.as_str(), n.as_str());
        steps.push(ItemPatchStep { update: ItemUpdate::ShortName(n.clone()), log });
        names.push("short name");
    }
    let ghost s2 = steps@.map_values(|s: ItemPatchStep| item_step_model(s));
    let ghost n2 = names@.map_values(|t: &'static str| t@);
    assert(s2 =~= s1 + short_name_step(item_id, *old, *body));
    assert(n2 =~= n1 + opt_step(body.short_name is Some, "short name"@));
    if let Some(c) = new_color {
        let log = recolor_action(
            ty,
            item_id,
            ItemColor(old.color_red, old.color_green, old.color_blue),
            c,
        );
        steps.push(ItemPatchStep { update: ItemUpdate::Color(c), log });
        names.push("color");
    }
    let ghost s3 = steps@.map_values(|s: ItemPatchStep| item_step_model(s));
    let ghost n3 = names@.map_values(|t: &'static str| t@);
    assert(s3 =~= s2 + color_step(item_id, *old, *body));
    assert(n3 =~= n2 + opt_step(body.color is Some, "color"@));
    if let Some(t) = body.item_type {
        let log = retype_action(item_id, ty, t);
        steps.push(ItemPatchStep { update: ItemUpdate::Type(t), log });
        names.push("type");
    }
    let ghost s4 = steps@.map_values(|s: ItemPatchStep| item_step_model(s));
    let ghost n4 = names@.map_values(|t: &'static str| t@);
    assert(s4 =~= s3 + type_step(item_id, *old, *body));
    assert(n4 =~= n3 + opt_step(body.item_type is Some, "type"@));
    if let Some(c) = body.start_comic_id {
        let log = start_comic_action(item_id, c.0);
        steps.push(ItemPatchStep { update: ItemUpdate::StartComic(c.0), log });
        names.push("start comic");
    }
    let ghost s5 = steps@.map_values(|s: ItemPatchStep| item_step_model(s));
    let ghost n5 = names@.map_values(|t: &'static str| t@);
    assert(s5 =~= s4 + start_step(item_id, *body));
    assert(n5 =~= n4 + opt_step(body.start_comic_id is Some, "start comic"@));
    if let Some(e) = body.end_comic_id {
        let end_value = match e {
            Some(c) => Some(c.0),
            None => None,
        };
        let log = end_comic_action(item_id, end_value);
        steps.push(ItemPatchStep { update: ItemUpdate::EndComic(end_value), log });
        names.push("end comic");
    }
    assert(steps@.map_values(|s: ItemPatchStep| item_step_model(s)) =~= s5 + end_step(
        item_id,
        *body,
    ));
    assert(names@.map_values(|t: &'static str| t@) =~= n5 + opt_step(
        body.end_comic_id is Some,
        "end comic"@,
    ));
    (steps, names)
}

/// Plans an item patch from the request and the stored item: refused when
/// the end comic after the patch would come before the start comic after the
/// patch, then when the asked color does not read; otherwise the changes to
/// apply in order, each with its log line, and the answer.
pub fn plan_item_patch(item_id: u16, old: &Item, body: &PatchItemBody) -> (r: Result<
    ItemPatchPlan,
    PatchItemError,
>)
    ensures
        match r {
            Ok(plan) => {
                &&& item_patch_outcome_ok(item_id, *old, *body)
                &&& plan.steps@.map_values(|s: ItemPatchStep| item_step_model(s))
                    == item_patch_steps(item_id, *old, *body)
                &&& plan.message@ == item_patch_message(item_id, *old, *body)
            },
            Err(PatchItemError::EndBeforeStart { start, end }) => {
                &&& effective_start(*old, *body) == Some(start)
                &&& effective_end(*old, *body) == Some(end)
                &&& start_after_patch(*old, *body) == Some(start)
                &&& end_after_patch(*old, *body) == Some(end)
                &&& end < start
            },
            Err(PatchItemError::InvalidColor(e)) => {
                &&& !(effective_start(*old, *body) is Some && effective_end(*old, *body) is Some
                    && effective_end(*old, *body)->0 < effective_start(*old, *body)->0)
                &&& patch_color(*body) == Some(Err::<ItemColor, ColorParseError>(e))
            },
        },
{
    proof {
        reveal(patch_color);
    }
    let start = match body.start_comic_id {
        Some(c) => Some(c.0),
        None => old.start_comic_id,
    };
    let end = match body.end_comic_id {
        None => old.end_comic_id,
        Some(Some(c)) => Some(c.0),
        Some(None) => None,
    };
    if let (Some(s), Some(e)) = (start, end) {
        if e < s {
            return Err(PatchItemError::EndBeforeStart { start: s, end: e });
        }
    }
    let new_color: Option<ItemColor> = match &body.color {
        Some(text) => match ItemColor::parse(text.as_str()) {
            Ok(c) => Some(c),
            Err(e) => {
                return Err(PatchItemError::InvalidColor(e));
            },
        },
        None => None,
    };
    let ty = old.item_type.as_str();
    let (steps, names) = item_patch_step_list(item_id, old, body, new_color);
    let mut changed = join_comma(&names);
    andify_comma_string(&mut changed);
    let mut message = string_of("Updated ");
    message.append(changed.as_str());
    message.append(" for ");
    match body.item_type {
        Some(t) => message.append(t.as_str()),
        None => message.append(ty),
    }
    message.append(" ");
    push_decimal(&mut message, item_id as u64);
    message.append(" (");
    match &body.name {
        Some(n) => message.append(n.as_str()),
        None => message.append(old.name.as_str()),
    }
    message.append(")");
    Ok(ItemPatchPlan { steps, message })
}

} // verus!
