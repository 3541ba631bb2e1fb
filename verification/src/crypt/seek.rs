//! Seek targets and the plans that the page-decrypting readers make of them.

use crate::layout::PAGE_SIZE;
use vstd::prelude::*;

verus! {

/// Where a seek goes: an offset from the start, from the end, or from the current position.
#[derive(Clone, Copy, Debug, PartialEq, Eq, Structural)]
pub enum SeekTarget {
    Start(u64),
    End(i64),
    Current(i64),
}

/// The position a seek targets, or `None` when it is negative or overflows.
pub open spec fn spec_seek_position(target: SeekTarget, len: u64, current: u64) -> Option<u64> {
    match target {
        SeekTarget::Start(n) => Some(n),
        SeekTarget::End(n) => if len + n > u64::MAX || len + n < 0 {
            None
        } else {
            Some((len + n) as u64)
        },
        SeekTarget::Current(n) => if current + n > u64::MAX || current + n < 0 {
            None
        } else {
            Some((current + n) as u64)
        },
    }
}

/// A seek from the start goes to the given offset; a seek by zero from the current position
/// stays there and one by zero from the end goes to the end; a seek from the end goes where
/// the same seek from the current position would go if the current position were the end;
/// and a seek by `n` from the current position `c` goes where a seek to `c + n` from the
/// start goes, as long as that is neither negative nor past `u64::MAX`.
pub proof fn lemma_seek_position_targets(len: u64, current: u64, n: i64)
    ensures
        spec_seek_position(SeekTarget::Start(n as u64), len, current) == Some(n as u64),
        spec_seek_position(SeekTarget::Current(0), len, current) == Some(current),
        spec_seek_position(SeekTarget::End(0), len, current) == Some(len),
        spec_seek_position(SeekTarget::End(n), len, current) == spec_seek_position(
            SeekTarget::Current(n),
            current,
            len,
        ),
        0 <= current + n <= u64::MAX ==> spec_seek_position(SeekTarget::Current(n), len, current)
            == Some((current + n) as u64),
        current + n < 0 ==> spec_seek_position(SeekTarget::Current(n), len, current) is None,
        len + n < 0 ==> spec_seek_position(SeekTarget::End(n), len, current) is None,
{
}

/// Computes the position a seek targets.
pub fn seek_position(target: SeekTarget, len: u64, current: u64) -> (r: Option<u64>)
    ensures
        r == spec_seek_position(target, len, current),
{
    match target {
        SeekTarget::Start(n) => Some(n),
        SeekTarget::End(n) => len.checked_add_signed(n),
        SeekTarget::Current(n) => current.checked_add_signed(n),
    }
}

/// A seek that was refused: the target position is negative or overflows (or, for a
/// reader of known length, lies past its end).
#[derive(Clone, Copy, Debug, PartialEq, Eq, Structural)]
pub enum SeekError {
    InvalidPosition,
}

/// What a reader must do to complete a seek.
#[derive(Clone, Copy, Debug, PartialEq, Eq, Structural)]
pub struct SeekPlan {
    /// The new position, which the seek returns.
    pub position: u64,
    /// The start of the page that holds the new position.
    pub page_start: u64,
    /// Whether the new position lies in another page than the old one, so that the page
    /// at `page_start` must be loaded.
    pub page_changed: bool,
    /// Where the inner reader must be moved before that page is read, if it is not already
    /// positioned at it.
    pub inner_seek: Option<u64>,
}

/// The plan for a seek from `old_pos` to `new_pos`, where the inner reader stands right
/// after the page of `old_pos` and `base` is the offset in the inner reader where
/// positions start.
pub open spec fn spec_seek_plan(old_pos: u64, new_pos: u64, base: u64, skip_next: bool) -> SeekPlan {
    let old_page = old_pos / PAGE_SIZE as u64;
    let new_page = new_pos / PAGE_SIZE as u64;
    let page_start = (new_page * PAGE_SIZE) as u64;
    SeekPlan {
        position: new_pos,
        page_start,
        page_changed: old_page != new_page,
        inner_seek: if old_page != new_page && !(skip_next && new_page == old_page + 1) {
            Some((page_start + base) as u64)
        } else {
            None
        },
    }
}

/// A seek plan lands on the target: its page starts at the target's page, the page is
/// reloaded exactly when the target lies in another page than the old position, and then
/// the inner reader stands at the start of the target's page (offset by `base`), either
/// because the plan moves it there or because it already stood right after the old page
/// and the target's page is the next one (which only a reader that allows it skips).
pub proof fn lemma_seek_plan_lands(old_pos: u64, new_pos: u64, base: u64, skip_next: bool)
    requires
        (new_pos / PAGE_SIZE as u64) * PAGE_SIZE + base <= u64::MAX,
    ensures
        ({
            let plan = spec_seek_plan(old_pos, new_pos, base, skip_next);
            let after_old_page = ((old_pos as int) / (PAGE_SIZE as int) + 1) * PAGE_SIZE + base;
            &&& plan.position == new_pos
            &&& plan.page_start <= new_pos < plan.page_start + PAGE_SIZE
            &&& plan.page_start % PAGE_SIZE as u64 == 0
            &&& plan.page_changed <==> old_pos / PAGE_SIZE as u64 != new_pos / PAGE_SIZE as u64
            &&& plan.page_changed ==> match plan.inner_seek {
                Some(offset) => offset == plan.page_start + base,
                None => skip_next && after_old_page == plan.page_start + base,
            }
            &&& !plan.page_changed ==> plan.inner_seek is None
            &&& (plan.page_changed && !(skip_next && new_pos / PAGE_SIZE as u64 == old_pos
                / PAGE_SIZE as u64 + 1)) ==> plan.inner_seek == Some((plan.page_start + base) as u64)
        }),
{
    let np = new_pos / PAGE_SIZE as u64;
    assert(np * 4096 <= new_pos < np * 4096 + 4096 && (np * 4096) % 4096 == 0) by (nonlinear_arith)
        requires
            np == new_pos / 4096,
    ;
}

/// Builds the plan of a seek from `old_pos` to `new_pos`; where `skip_next` holds, moving
/// to the page right after the old one needs no seek of the inner reader.
pub fn seek_plan(old_pos: u64, new_pos: u64, base: u64, skip_next: bool) -> (p: SeekPlan)
    requires
        (new_pos / PAGE_SIZE as u64) * PAGE_SIZE + base <= u64::MAX,
    ensures
        p == spec_seek_plan(old_pos, new_pos, base, skip_next),
        p.page_start <= p.position,
        p.position - p.page_start < PAGE_SIZE,
        p.page_start % PAGE_SIZE as u64 == 0,
        p.page_start / PAGE_SIZE as u64 == p.position / PAGE_SIZE as u64,
{
    let old_page = old_pos / PAGE_SIZE as u64;
    let new_page = new_pos / PAGE_SIZE as u64;
    let page_start = new_page * PAGE_SIZE as u64;
    let page_changed = old_page != new_page;
    let inner_seek = if page_changed && !(skip_next && new_page == old_page + 1) {
        Some(page_start + base)
    } else {
        None
    };
    SeekPlan { position: new_pos, page_start, page_changed, inner_seek }
}

} // verus!
