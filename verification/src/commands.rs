use vstd::prelude::*;
use crate::clock::now_millis;
use crate::errors::CommandError;
use crate::ledger::{Ledger, history_sorted, kept_after, sum_sizes};
use crate::models::{Item, text_of, image_of, with_timestamp};
use crate::notify::Notifier;

verus! {

/// Usage statistics handed to the host: total payload bytes on record and
/// where the backing store lives.
#[derive(Debug)]
pub struct SystemData {
    pub size_bytes: usize,
    pub db_path: String,
}

/// What the host must put back on the OS clipboard for a row: its text, or
/// the stored file's reference with the recorded dimensions.
#[derive(Debug)]
pub enum CopyPayload {
    Text(String),
    ImageFile { file_name: String, width: i32, height: i32 },
}

/// The payload names exactly the content of this row.
pub open spec fn copy_payload_matches(it: Item, p: CopyPayload) -> bool {
    match p {
        CopyPayload::Text(s) => text_of(it) == Some(s@),
        CopyPayload::ImageFile { file_name, width, height } => {
            &&& image_of(it) == Some(file_name@)
            &&& it.image_width == Some(width)
            &&& it.image_height == Some(height)
        },
    }
}

/// The full history, newest first; ties keep id order.
pub fn get_clipboard_history(ledger: &Ledger) -> (r: Vec<Item>)
    ensures
        r@.to_multiset() == ledger@.to_multiset(),
        history_sorted(r@),
{
    ledger.list_all_ordered_by_timestamp_desc()
}

/// What to write back to the OS clipboard for the row with this id. The
/// ledger is not changed; an unknown id is the only failure.
pub fn copy_target(ledger: &Ledger, id: i32) -> (r: Result<CopyPayload, CommandError>)
    requires
        ledger.wf(),
    ensures
        (r is Ok) == (exists|i: int| 0 <= i < ledger@.len() && (#[trigger] ledger@[i]).id == id),
        r matches Ok(p) ==> exists|i: int|
            0 <= i < ledger@.len() && (#[trigger] ledger@[i]).id == id && copy_payload_matches(
                ledger@[i],
                p,
            ),
        r matches Err(e) ==> e == CommandError::NotFound,
{
    match ledger.find_by_id(id) {
        None => Err(CommandError::NotFound),
        Some(it) => {
            proof {
                ledger.lemma_wf_entries();
                let i = choose|i: int| 0 <= i < ledger@.len() && ledger@[i] == it;
                assert(crate::models::item_wf(ledger@[i]));
            }
            match it.text {
                Some(t) => Ok(CopyPayload::Text(t)),
                None => {
                    match (it.image, it.image_width, it.image_height) {
                        (Some(f), Some(w), Some(h)) => Ok(
                            CopyPayload::ImageFile { file_name: f, width: w, height: h },
                        ),
                        // a well-formed image row always carries all three fields
                        _ => Err(CommandError::NotFound),
                    }
                },
            }
        },
    }
}

/// Moves the row with this id to the given time and notifies once; the new
/// timestamp is returned. An unknown id fails, changes nothing and stays
/// silent. The host writes the payload (see copy_target) to the OS clipboard
/// before committing the touch.
pub fn copy_at(ledger: &mut Ledger, notifier: &mut Notifier, id: i32, now: i64) -> (r: Result<
    i64,
    CommandError,
>)
    requires
        old(ledger).wf(),
        old(notifier).count < u64::MAX,
    ensures
        final(ledger).wf(),
        final(ledger).spec_next_id() == old(ledger).spec_next_id(),
        (r is Ok) == (exists|i: int|
            0 <= i < old(ledger)@.len() && (#[trigger] old(ledger)@[i]).id == id),
        r matches Ok(ts) ==> ts == now && final(notifier).count == old(notifier).count + 1
            && exists|i: int|
            0 <= i < old(ledger)@.len() && (#[trigger] old(ledger)@[i]).id == id && final(ledger)@
                == old(ledger)@.update(i, with_timestamp(old(ledger)@[i], now)),
        r matches Err(e) ==> e == CommandError::NotFound && final(ledger)@ == old(ledger)@
            && final(notifier).count == old(notifier).count,
{
    match ledger.touch_by_id(id, now) {
        Some(_prev) => {
            notifier.notify();
            Ok(now)
        },
        None => Err(CommandError::NotFound),
    }
}

/// Moves the row with this id to "now" as the wall clock stands, notifies
/// once, and returns the new timestamp.
pub fn copy(ledger: &mut Ledger, notifier: &mut Notifier, id: i32) -> (r: Result<
    i64,
    CommandError,
>)
    requires
        old(ledger).wf(),
        old(notifier).count < u64::MAX,
    ensures
        final(ledger).wf(),
        final(ledger).spec_next_id() == old(ledger).spec_next_id(),
        (r is Ok) == (exists|i: int|
            0 <= i < old(ledger)@.len() && (#[trigger] old(ledger)@[i]).id == id),
        r matches Ok(ts) ==> final(notifier).count == old(notifier).count + 1 && exists|i: int|
            0 <= i < old(ledger)@.len() && (#[trigger] old(ledger)@[i]).id == id && final(ledger)@
                == old(ledger)@.update(i, with_timestamp(old(ledger)@[i], ts)),
        r matches Err(e) ==> e == CommandError::NotFound && final(ledger)@ == old(ledger)@
            && final(notifier).count == old(notifier).count,
{
    let now = now_millis();
    copy_at(ledger, notifier, id, now)
}

/// Removes the row with this id and notifies once; reports whether a row
/// went away.
pub fn delete_clipboard_item(ledger: &mut Ledger, notifier: &mut Notifier, id: i32) -> (r: bool)
    requires
        old(ledger).wf(),
        old(notifier).count < u64::MAX,
    ensures
        final(ledger).wf(),
        final(ledger).spec_next_id() == old(ledger).spec_next_id(),
        final(notifier).count == old(notifier).count + 1,
        r == (exists|i: int| 0 <= i < old(ledger)@.len() && (#[trigger] old(ledger)@[i]).id == id),
        r ==> exists|i: int|
            0 <= i < old(ledger)@.len() && (#[trigger] old(ledger)@[i]).id == id && final(ledger)@
                == old(ledger)@.remove(i),
        !r ==> final(ledger)@ == old(ledger)@,
{
    let r = ledger.delete(id);
    notifier.notify();
    r
}

/// Removes every row and notifies once.
pub fn clear_clipboard(ledger: &mut Ledger, notifier: &mut Notifier)
    requires
        old(ledger).wf(),
        old(notifier).count < u64::MAX,
    ensures
        final(ledger).wf(),
        final(ledger).spec_next_id() == old(ledger).spec_next_id(),
        final(ledger)@ == Seq::<Item>::empty(),
        final(notifier).count == old(notifier).count + 1,
{
    ledger.delete_all();
    notifier.notify();
}

/// The purge cutoff: the given time minus the retention window in
/// milliseconds, clamped at the representable minimum.
pub open spec fn cutoff_millis(now: i64, days: i32) -> int {
    let window = days as int * 86400000;
    if now - window < i64::MIN {
        i64::MIN as int
    } else {
        now - window
    }
}

/// Removes every row older than the given number of days before `now`,
/// notifies once, and returns the cutoff it used.
pub fn clean_old_items_at(ledger: &mut Ledger, notifier: &mut Notifier, days: i32, now: i64) -> (cutoff: i64)
    requires
        old(ledger).wf(),
        old(notifier).count < u64::MAX,
        days >= 0,
    ensures
        final(ledger).wf(),
        final(ledger).spec_next_id() == old(ledger).spec_next_id(),
        cutoff == cutoff_millis(now, days),
        final(ledger)@ == old(ledger)@.filter(kept_after(cutoff)),
        final(notifier).count == old(notifier).count + 1,
{
    let window = (days as i64) * 86400000;
    let cutoff = if now < i64::MIN + window {
        i64::MIN
    } else {
        now - window
    };
    ledger.delete_where_older_than(cutoff);
    notifier.notify();
    cutoff
}

/// Removes every row older than the given number of days before "now" as the
/// wall clock stands, notifies once, and returns the cutoff it used.
pub fn clean_old_items(ledger: &mut Ledger, notifier: &mut Notifier, days: i32) -> (cutoff: i64)
    requires
        old(ledger).wf(),
        old(notifier).count < u64::MAX,
        days >= 0,
    ensures
        final(ledger).wf(),
        final(ledger).spec_next_id() == old(ledger).spec_next_id(),
        final(ledger)@ == old(ledger)@.filter(kept_after(cutoff)),
        final(notifier).count == old(notifier).count + 1,
{
    let now = now_millis();
    clean_old_items_at(ledger, notifier, days, now)
}

/// The total payload size as reported to the host, clamped to what the
/// machine word holds.
pub open spec fn reported_size(s: Seq<Item>) -> int {
    let total = if sum_sizes(s) <= i64::MAX {
        sum_sizes(s)
    } else {
        i64::MAX as int
    };
    if total > usize::MAX {
        usize::MAX as int
    } else {
        total
    }
}

/// Usage statistics: the summed payload sizes and the given store location.
pub fn get_system_data(ledger: &Ledger, db_path: String) -> (r: SystemData)
    requires
        ledger.wf(),
    ensures
        r.size_bytes == reported_size(ledger@),
        r.db_path == db_path,
{
    let total = ledger.sum_size_bytes();
    let total_u64 = total as u64;
    let size_bytes: usize = if total_u64 > usize::MAX as u64 {
        usize::MAX
    } else {
        total_u64 as usize
    };
    SystemData { size_bytes, db_path }
}

} // verus!
