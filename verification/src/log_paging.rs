use vstd::prelude::*;

verus! {

/// How many log entries one page shows.
pub const PAGE_SIZE: u16 = 10;

/// The paging figures of a log answer.
#[derive(Copy, Clone, Debug, PartialEq, Eq, Structural)]
pub struct LogPageInfo {
    pub page: u16,
    pub page_count: u16,
    pub log_entry_count: i32,
}

/// The page count of `count` entries: `count + PAGE_SIZE - 1` divided by
/// `PAGE_SIZE`, rounding toward zero as integer division does (the number of
/// pages that the entries fill, the last one possibly partly).
pub open spec fn pages_for(count: int) -> int {
    let n = count + PAGE_SIZE - 1;
    if n >= 0 {
        n / (PAGE_SIZE as int)
    } else {
        -((-n) / (PAGE_SIZE as int))
    }
}

/// Whether a count of entries can be answered: its page count fits the
/// answer's unsigned 16-bit field (counts from -18 to 655350).
pub open spec fn count_fits(count: i64) -> bool {
    0 <= pages_for(count as int) <= u16::MAX
}

proof fn lemma_count_fits_bounds(count: i64)
    ensures
        count_fits(count) <==> -18 <= count <= 655350,
        -18 <= count < -9 ==> pages_for(count as int) == 0,
{
    if count > 655350 {
        vstd::arithmetic::div_mod::lemma_div_is_ordered(655360, count + 9, 10);
    }
    if -9 <= count <= 655350 {
        vstd::arithmetic::div_mod::lemma_div_is_ordered(count + 9, 655359, 10);
    }
    if count < -18 {
        vstd::arithmetic::div_mod::lemma_div_is_ordered(10, -(count + 9), 10);
    }
}

/// The paging figures of a log answer for the page asked and the number of
/// entries that match.
pub fn log_page_info(page: u16, count: i64) -> (r: LogPageInfo)
    requires
        count_fits(count),
    ensures
        r.page == page,
        r.page_count == pages_for(count as int),
        r.log_entry_count == count,
{
    proof {
        lemma_count_fits_bounds(count);
    }
    let pages: i64 = if count < -9 {
        0
    } else {
        (count + 9) / 10
    };
    LogPageInfo { page, page_count: pages as u16, log_entry_count: count as i32 }
}

/// The paging figures, or `None` when the count cannot be answered.
pub fn checked_log_page_info(page: u16, count: i64) -> (r: Option<LogPageInfo>)
    ensures
        count_fits(count) ==> r == Some(
            LogPageInfo { page, page_count: pages_for(count as int) as u16, log_entry_count: count as i32 },
        ),
        !count_fits(count) ==> r is None,
{
    proof {
        lemma_count_fits_bounds(count);
    }
    if count >= -18 && count <= 655350 {
        Some(log_page_info(page, count))
    } else {
        None
    }
}

/// The position of the first entry of a page (pages count from 1; page 0
/// shows the first page).
pub fn page_start_entry(page: u16) -> (r: u16)
    requires
        page <= 6554,
    ensures
        r == (if page == 0 {
            0
        } else {
            (page - 1) * PAGE_SIZE
        }),
{
    page.saturating_sub(1) * PAGE_SIZE
}

/// Law: the page count is the least number of pages that hold all the
/// entries.
pub proof fn lemma_page_count_is_least(count: i64)
    requires
        0 <= count,
    ensures
        pages_for(count as int) * (PAGE_SIZE as int) >= count,
        pages_for(count as int) > 0 ==> (pages_for(count as int) - 1) * (PAGE_SIZE as int) < count,
        pages_for(count as int) >= 0,
{
    let p = pages_for(count as int);
    assert(p == (count + 9) / 10);
    assert(p * 10 >= count && (p > 0 ==> (p - 1) * 10 < count)) by (nonlinear_arith)
        requires
            p == (count + 9) / 10,
            count >= 0,
    {
    }
}

} // verus!
