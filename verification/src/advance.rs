use vstd::prelude::*;

use crate::ids::ComicId;
use crate::text::{decimal, push_decimal, string_of};

verus! {

/// A request to add a comic ahead of its publication. The publish date, which
/// the decisions here do not read, travels beside it.
#[derive(Clone, Debug, PartialEq, Eq)]
pub struct AddAdvanceComicBody {
    pub token: String,
    pub comic_id: ComicId,
    pub title: String,
    pub tagline: Option<String>,
    pub is_accurate_publish_date: Option<bool>,
    pub is_guest_comic: Option<bool>,
    pub is_non_canon: Option<bool>,
}

/// What adding an advance comic writes: the comic with its flags defaulted,
/// the log line and the answer.
#[derive(Clone, Debug, PartialEq, Eq)]
pub struct AdvanceComicPlan {
    pub comic_id: u16,
    pub title: String,
    pub tagline: Option<String>,
    pub is_accurate_publish_date: bool,
    pub is_guest_comic: bool,
    pub is_non_canon: bool,
    pub log: String,
    pub answer: String,
}

/// An advance comic was refused: the comic is already published.
#[derive(Copy, Clone, Debug, PartialEq, Eq, Structural)]
pub struct AdvanceComicConflict {
    pub comic_id: u16,
}

/// The description of the refusal.
pub open spec fn conflict_text(comic_id: u16) -> Seq<char> {
    "Comic #"@ + decimal(comic_id as nat)
        + " is already published and cannot be used for an advance comic"@
}

impl AdvanceComicConflict {
    /// The description of the refusal.
    pub fn message(&self) -> (r: String)
        ensures
            r@ == conflict_text(self.comic_id),
    {
        let mut s = string_of("Comic #");
        push_decimal(&mut s, self.comic_id as u64);
        s.append(" is already published and cannot be used for an advance comic");
        s
    }
}

/// An optional flag, absent meaning unset.
pub open spec fn flag_or_unset(v: Option<bool>) -> bool {
    match v {
        Some(b) => b,
        None => false,
    }
}

/// The log line of adding an advance comic.
pub open spec fn advance_log_text(comic_id: u16, title: Seq<char>) -> Seq<char> {
    "Added advance comic #"@ + decimal(comic_id as nat) + " (\""@ + title + "\")"@
}

/// The answer to adding an advance comic.
pub open spec fn advance_answer_text(comic_id: u16) -> Seq<char> {
    "Added advance comic #"@ + decimal(comic_id as nat)
}

fn clone_opt(s: &Option<String>) -> (r: Option<String>)
    ensures
        match *s {
            Some(t) => r matches Some(u) && u@ == t@,
            None => r is None,
        },
{
    match s {
        Some(t) => Some(t.clone()),
        None => None,
    }
}

/// Plans adding an advance comic from the request and whether a comic with
/// its number is stored (`existing_hidden` is the stored comic's `hidden`
/// column): refused when a stored comic is published (`hidden == 0`);
/// otherwise the comic to store, with absent flags unset, its log line and
/// the answer.
pub fn plan_advance_comic(body: &AddAdvanceComicBody, existing_hidden: Option<u8>) -> (r: Result<
    AdvanceComicPlan,
    AdvanceComicConflict,
>)
    ensures
        existing_hidden == Some(0u8) ==> r == Err::<AdvanceComicPlan, AdvanceComicConflict>(
            AdvanceComicConflict { comic_id: body.comic_id.0 },
        ),
        existing_hidden != Some(0u8) ==> (r matches Ok(p) && {
            &&& p.comic_id == body.comic_id.0
            &&& p.title@ == body.title@
            &&& (match body.tagline {
                Some(t) => p.tagline matches Some(u) && u@ == t@,
                None => p.tagline is None,
            })
            &&& p.is_accurate_publish_date == flag_or_unset(body.is_accurate_publish_date)
            &&& p.is_guest_comic == flag_or_unset(body.is_guest_comic)
            &&& p.is_non_canon == flag_or_unset(body.is_non_canon)
            &&& p.log@ == advance_log_text(body.comic_id.0, body.title@)
            &&& p.answer@ == advance_answer_text(body.comic_id.0)
        }),
{
    let comic_id = body.comic_id.0;
    if let Some(hidden) = existing_hidden {
        if hidden == 0 {
            return Err(AdvanceComicConflict { comic_id });
        }
    }
    let mut log = string_of("Added advance comic #");
    push_decimal(&mut log, comic_id as u64);
    log.append(" (\"");
    log.append(body.title.as_str());
    log.append("\")");
    let mut answer = string_of("Added advance comic #");
    push_decimal(&mut answer, comic_id as u64);
    Ok(
        AdvanceComicPlan {
            comic_id,
            title: body.title.clone(),
            tagline: clone_opt(&body.tagline),
            is_accurate_publish_date: match body.is_accurate_publish_date {
                Some(b) => b,
                None => false,
            },
            is_guest_comic: match body.is_guest_comic {
                Some(b) => b,
                None => false,
            },
            is_non_canon: match body.is_non_canon {
                Some(b) => b,
                None => false,
            },
            log,
            answer,
        },
    )
}

/// How long the comic updater rests between two runs asked for, in seconds.
pub const UPDATER_COOLDOWN_SECS: u64 = 300;

/// Whether the comic updater may run now, from the seconds since it last ran
/// (`None` when it has not run): it may once the rest is over; otherwise the
/// seconds left.
pub fn updater_cooldown(elapsed_secs: Option<u64>) -> (r: Result<(), u64>)
    ensures
        match elapsed_secs {
            None => r is Ok,
            Some(e) => if e >= UPDATER_COOLDOWN_SECS {
                r is Ok
            } else {
                r == Err::<(), u64>((UPDATER_COOLDOWN_SECS - e) as u64)
            },
        },
{
    match elapsed_secs {
        None => Ok(()),
        Some(e) => if e >= UPDATER_COOLDOWN_SECS {
            Ok(())
        } else {
            Err(UPDATER_COOLDOWN_SECS - e)
        },
    }
}

/// The answer to a request to run the comic updater now, from the trigger's
/// reply: accepted, or refused with the seconds left before it may run.
pub fn comic_updater_answer(reply: Result<(), u64>) -> (r: Result<String, String>)
    ensures
        match reply {
            Ok(()) => r matches Ok(t) && t@ == "Requested an immediate comic updater run"@,
            Err(secs) => r matches Err(t) && t@
                == "The comic updater last ran less than 5 minutes ago; try again in "@ + decimal(
                secs as nat,
            ) + " seconds"@,
        },
{
    match reply {
        Ok(()) => Ok(string_of("Requested an immediate comic updater run")),
        Err(secs) => {
            let mut s = string_of(
                "The comic updater last ran less than 5 minutes ago; try again in ",
            );
            push_decimal(&mut s, secs);
            s.append(" seconds");
            Err(s)
        },
    }
}

} // verus!
