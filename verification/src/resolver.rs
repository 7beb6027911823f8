use vstd::prelude::*;
use vstd::utf8::encode_utf8;
use crate::errors::StoreError;
use crate::ledger::{Ledger, wf_entries, distinct_identity};
use crate::models::{
    Item, NewItem, RawImage, is_text_entry, is_image_entry, text_of, image_of, with_timestamp,
    clone_opt_string,
};
use crate::notify::Notifier;
use crate::store::{ContentStore, PendingWrite, SaveImageResult, image_file_name, saved};

verus! {

/// What the resolver decided for one modality of one clipboard change.
#[derive(Clone, Copy, Debug, PartialEq, Eq, Structural)]
pub enum ResolvedAction {
    /// The content was new: a row was created under this id.
    Inserted { id: i32 },
    /// The content was a repeat: its row was moved to "now", and this is the
    /// timestamp that was overwritten.
    Touched { prev_timestamp: i64 },
}

/// One observed clipboard change, with whichever modalities it exposed.
pub struct ClipboardEvent {
    pub text: Option<String>,
    pub image: Option<RawImage>,
}

/// What one full clipboard change produced: the decision per modality, any
/// encoded file the host still has to write, and the ledger as it stood
/// between the two steps.
pub struct ChangeOutcome {
    pub text_action: Option<ResolvedAction>,
    pub image_action: Option<Result<ResolvedAction, StoreError>>,
    pub pending_write: Option<PendingWrite>,
    pub mid: Ghost<Seq<Item>>,
    pub mid_next: Ghost<int>,
}

/// The view of an optional source-application name.
pub open spec fn opt_view(o: Option<String>) -> Option<Seq<char>> {
    match o {
        Some(s) => Some(s@),
        None => None,
    }
}

/// The recorded source application of a row, as a value.
pub open spec fn source_of(it: Item) -> Option<Seq<char>> {
    match it.source_app {
        Some(s) => Some(s@),
        None => None,
    }
}

/// Some row is a text entry with exactly this content.
pub open spec fn has_text_entry(s: Seq<Item>, t: Seq<char>) -> bool {
    exists|i: int| 0 <= i < s.len() && is_text_entry(#[trigger] s[i], t)
}

/// Some row is an image entry with exactly this content reference.
pub open spec fn has_image_entry(s: Seq<Item>, r: Seq<char>) -> bool {
    exists|i: int| 0 <= i < s.len() && is_image_entry(#[trigger] s[i], r)
}

/// The row a first observation of a text creates: the text itself, its byte
/// length as the payload size, the observation time, and the observed source.
pub open spec fn fresh_text_row(
    it: Item,
    t: Seq<char>,
    now: i64,
    source: Option<Seq<char>>,
    id: int,
) -> bool {
    &&& text_of(it) == Some(t)
    &&& it.image is None
    &&& it.image_width is None
    &&& it.image_height is None
    &&& it.timestamp == now
    &&& it.size_bytes == encode_utf8(t).len()
    &&& source_of(it) == source
    &&& it.id == id
}

/// The row a first observation of an image creates: the content reference
/// and the capture data on record for it in the store, the observation time,
/// and the observed source.
pub open spec fn fresh_image_row(
    it: Item,
    name: Seq<char>,
    now: i64,
    source: Option<Seq<char>>,
    id: int,
    post_store: Seq<crate::store::StoredImage>,
) -> bool {
    &&& image_of(it) == Some(name)
    &&& it.text is None
    &&& exists|k: int|
        0 <= k < post_store.len() && (#[trigger] post_store[k]).file_name@ == name
            && it.image_width == Some(post_store[k].width as i32) && it.image_height == Some(
            post_store[k].height as i32,
        ) && it.size_bytes == post_store[k].size_bytes as i32
    &&& it.timestamp == now
    &&& source_of(it) == source
    &&& it.id == id
}

/// How one text observation relates the ledger before and after: a repeat
/// only refreshes the matching row's timestamp, new content is appended as a
/// fresh row under the next id.
pub open spec fn text_observed(
    pre: Seq<Item>,
    post: Seq<Item>,
    pre_next: int,
    post_next: int,
    t: Seq<char>,
    now: i64,
    source: Option<Seq<char>>,
    a: ResolvedAction,
) -> bool {
    if has_text_entry(pre, t) {
        &&& exists|i: int|
            0 <= i < pre.len() && is_text_entry(#[trigger] pre[i], t) && a
                == (ResolvedAction::Touched { prev_timestamp: pre[i].timestamp }) && post
                == pre.update(i, with_timestamp(pre[i], now))
        &&& post_next == pre_next
    } else {
        &&& a == (ResolvedAction::Inserted { id: pre_next as i32 })
        &&& post.len() == pre.len() + 1
        &&& post.drop_last() == pre
        &&& fresh_text_row(post.last(), t, now, source, pre_next)
        &&& post_next == pre_next + 1
    }
}

/// How one image observation relates the ledger and the store before and
/// after: the buffer is content-addressed through the store first, then the
/// ledger is touched or extended under that reference; a store failure
/// changes nothing.
pub open spec fn image_observed(
    pre: Seq<Item>,
    post: Seq<Item>,
    pre_next: int,
    post_next: int,
    pre_store: Seq<crate::store::StoredImage>,
    post_store: Seq<crate::store::StoredImage>,
    pixels: Seq<u8>,
    width: u32,
    height: u32,
    now: i64,
    source: Option<Seq<char>>,
    r: Result<(ResolvedAction, Option<PendingWrite>), StoreError>,
) -> bool {
    let name = image_file_name(pixels);
    match r {
        Ok((a, pending)) => {
            &&& exists|res: SaveImageResult|
                saved(pre_store, post_store, pixels, width, height, Ok((res, pending)))
            &&& if has_image_entry(pre, name) {
                &&& exists|i: int|
                    0 <= i < pre.len() && is_image_entry(#[trigger] pre[i], name) && a
                        == (ResolvedAction::Touched { prev_timestamp: pre[i].timestamp }) && post
                        == pre.update(i, with_timestamp(pre[i], now))
                &&& post_next == pre_next
            } else {
                &&& a == (ResolvedAction::Inserted { id: pre_next as i32 })
                &&& post.len() == pre.len() + 1
                &&& post.drop_last() == pre
                &&& fresh_image_row(post.last(), name, now, source, pre_next, post_store)
                &&& post_next == pre_next + 1
            }
        },
        Err(e) => {
            &&& post == pre
            &&& post_next == pre_next
            &&& saved(pre_store, post_store, pixels, width, height, Err(e))
        },
    }
}

/// Decides what one observed text means for the history: a repeat moves its
/// row to "now", new text becomes a fresh row; either way exactly one change
/// notification fires.
pub fn observe_text(
    ledger: &mut Ledger,
    notifier: &mut Notifier,
    text: String,
    now: i64,
    source: Option<String>,
) -> (a: ResolvedAction)
    requires
        old(ledger).wf(),
        old(notifier).count < u64::MAX,
        old(ledger).spec_next_id() < i32::MAX,
        encode_utf8(text@).len() <= i32::MAX,
    ensures
        final(ledger).wf(),
        final(notifier).count == old(notifier).count + 1,
        text_observed(
            old(ledger)@,
            final(ledger)@,
            old(ledger).spec_next_id(),
            final(ledger).spec_next_id(),
            text@,
            now,
            opt_view(source),
            a,
        ),
{
    match ledger.touch_text(&text, now) {
        Some(prev) => {
            notifier.notify();
            ResolvedAction::Touched { prev_timestamp: prev }
        },
        None => {
            let size = text.as_str().len();
            let n = NewItem {
                text: Some(text),
                image: None,
                image_width: None,
                image_height: None,
                timestamp: now,
                size_bytes: size as i32,
                source_app: source,
            };
            let id = ledger.insert(n);
            notifier.notify();
            proof {
                assert(final(ledger)@.drop_last() =~= old(ledger)@);
            }
            ResolvedAction::Inserted { id }
        },
    }
}

/// Decides what one observed image means for the history: the buffer is
/// content-addressed through the store, then a repeat moves its row to "now"
/// and a fresh reference becomes a new row. On success exactly one change
/// notification fires; a store failure is surfaced and changes nothing.
pub fn observe_image(
    ledger: &mut Ledger,
    notifier: &mut Notifier,
    store: &mut ContentStore,
    img: &RawImage,
    now: i64,
    source: Option<String>,
) -> (r: Result<(ResolvedAction, Option<PendingWrite>), StoreError>)
    requires
        old(ledger).wf(),
        old(store).wf(),
        old(notifier).count < u64::MAX,
        old(ledger).spec_next_id() < i32::MAX,
        img.wf(),
        img.width <= i32::MAX as u32,
        img.height <= i32::MAX as u32,
    ensures
        final(ledger).wf(),
        final(store).wf(),
        r is Ok ==> final(notifier).count == old(notifier).count + 1,
        r is Err ==> final(notifier).count == old(notifier).count,
        image_observed(
            old(ledger)@,
            final(ledger)@,
            old(ledger).spec_next_id(),
            final(ledger).spec_next_id(),
            old(store)@,
            final(store)@,
            img.rgba@,
            img.width,
            img.height,
            now,
            opt_view(source),
            r,
        ),
{
    proof {
        store.lemma_wf_records();
    }
    let saved_result = store.save_image_to_file(img);
    match saved_result {
        Err(e) => Err(e),
        Ok((res, pending)) => {
            let ghost gres = res;
            let ghost gpending = pending;
            match ledger.touch_image(&res.path, now) {
                Some(prev) => {
                    notifier.notify();
                    Ok((ResolvedAction::Touched { prev_timestamp: prev }, pending))
                },
                None => {
                    proof {
                        let name = image_file_name(img.rgba@);
                        if crate::store::has_object(old(store)@, name) {
                            let i = choose|i: int|
                                0 <= i < old(store)@.len() && (#[trigger] old(
                                    store,
                                )@[i]).file_name@ == name && gres.width == old(store)@[i].width
                                    && gres.height == old(store)@[i].height && gres.size == old(
                                    store,
                                )@[i].size_bytes;
                            assert(crate::store::stored_wf(old(store)@[i]));
                        }
                        assert(gres.width <= i32::MAX as u32);
                        assert(gres.height <= i32::MAX as u32);
                        assert(gres.size <= i32::MAX as usize);
                    }
                    let n = NewItem {
                        text: None,
                        image: Some(res.path),
                        image_width: Some(res.width as i32),
                        image_height: Some(res.height as i32),
                        timestamp: now,
                        size_bytes: res.size as i32,
                        source_app: source,
                    };
                    let id = ledger.insert(n);
                    notifier.notify();
                    proof {
                        assert(final(ledger)@.drop_last() =~= old(ledger)@);
                    }
                    Ok((ResolvedAction::Inserted { id }, pending))
                },
            }
        },
    }
}

/// Resolves one full clipboard change: whichever modalities the event
/// exposes are handled text first, then image, each as its own insert-or-
/// touch decision with its own change notification. A store failure on the
/// image side is reported in the outcome and leaves the text side's work in
/// place.
pub fn handle_clipboard_change(
    ledger: &mut Ledger,
    notifier: &mut Notifier,
    store: &mut ContentStore,
    event: ClipboardEvent,
    now: i64,
    source: Option<String>,
) -> (out: ChangeOutcome)
    requires
        old(ledger).wf(),
        old(store).wf(),
        old(notifier).count + 2 <= u64::MAX,
        old(ledger).spec_next_id() + 2 <= i32::MAX,
        event.text matches Some(t) ==> encode_utf8(t@).len() <= i32::MAX,
        event.image matches Some(img) ==> img.wf() && img.width <= i32::MAX as u32 && img.height
            <= i32::MAX as u32,
    ensures
        final(ledger).wf(),
        final(store).wf(),
        (out.text_action is Some) == (event.text is Some),
        (out.image_action is Some) == (event.image is Some),
        match event.text {
            Some(t) => out.text_action matches Some(a) && text_observed(
                old(ledger)@,
                out.mid@,
                old(ledger).spec_next_id(),
                out.mid_next@,
                t@,
                now,
                opt_view(source),
                a,
            ),
            None => out.mid@ == old(ledger)@ && out.mid_next@ == old(ledger).spec_next_id(),
        },
        match event.image {
            Some(img) => match out.image_action {
                Some(Ok(a)) => image_observed(
                    out.mid@,
                    final(ledger)@,
                    out.mid_next@,
                    final(ledger).spec_next_id(),
                    old(store)@,
                    final(store)@,
                    img.rgba@,
                    img.width,
                    img.height,
                    now,
                    opt_view(source),
                    Ok((a, out.pending_write)),
                ),
                Some(Err(e)) => image_observed(
                    out.mid@,
                    final(ledger)@,
                    out.mid_next@,
                    final(ledger).spec_next_id(),
                    old(store)@,
                    final(store)@,
                    img.rgba@,
                    img.width,
                    img.height,
                    now,
                    opt_view(source),
                    Err(e),
                ) && out.pending_write is None,
                None => false,
            },
            None => final(ledger)@ == out.mid@ && final(ledger).spec_next_id() == out.mid_next@
                && final(store)@ == old(store)@ && out.pending_write is None,
        },
        final(notifier).count == old(notifier).count + (
        if event.text is Some {
            1int
        } else {
            0int
        }) + (
        if out.image_action matches Some(Ok(_)) {
            1int
        } else {
            0int
        }),
{
    let ClipboardEvent { text: ev_text, image: ev_image } = event;
    let mut text_action: Option<ResolvedAction> = None;
    match ev_text {
        Some(t) => {
            let a = observe_text(ledger, notifier, t, now, clone_opt_string(&source));
            text_action = Some(a);
        },
        None => {},
    }
    let ghost mid = ledger@;
    let ghost mid_next = ledger.spec_next_id();
    match ev_image {
        Some(img) => {
            match observe_image(ledger, notifier, store, &img, now, source) {
                Ok((a, pending)) => ChangeOutcome {
                    text_action,
                    image_action: Some(Ok(a)),
                    pending_write: pending,
                    mid: Ghost(mid),
                    mid_next: Ghost(mid_next),
                },
                Err(e) => ChangeOutcome {
                    text_action,
                    image_action: Some(Err(e)),
                    pending_write: None,
                    mid: Ghost(mid),
                    mid_next: Ghost(mid_next),
                },
            }
        },
        None => ChangeOutcome {
            text_action,
            image_action: None,
            pending_write: None,
            mid: Ghost(mid),
            mid_next: Ghost(mid_next),
        },
    }
}

/// In a well-formed ledger at most one row carries a given text identity.
pub proof fn lemma_text_entry_unique(s: Seq<Item>, t: Seq<char>, i: int, j: int)
    requires
        wf_entries(s),
        0 <= i < s.len(),
        0 <= j < s.len(),
        is_text_entry(s[i], t),
        is_text_entry(s[j], t),
    ensures
        i == j,
{
    if i < j {
        assert(distinct_identity(s[i], s[j]));
    } else if j < i {
        assert(distinct_identity(s[j], s[i]));
    }
}

/// Dedup idempotence: once a text has its row, observing the same text again
/// adds no row. It only moves that one row's timestamp to the latest
/// observation time, and the row keeps its id and its payload size; in
/// particular, text first observed and then observed again ends with exactly
/// one row whose size is the text's byte length.
pub proof fn lemma_text_dedup_idempotent(
    pre: Seq<Item>,
    mid: Seq<Item>,
    post: Seq<Item>,
    pre_n: int,
    mid_n: int,
    post_n: int,
    t: Seq<char>,
    n1: i64,
    n2: i64,
    s1: Option<Seq<char>>,
    s2: Option<Seq<char>>,
    a1: ResolvedAction,
    a2: ResolvedAction,
)
    requires
        wf_entries(pre),
        wf_entries(mid),
        text_observed(pre, mid, pre_n, mid_n, t, n1, s1, a1),
        text_observed(mid, post, mid_n, post_n, t, n2, s2, a2),
    ensures
        post.len() == mid.len(),
        post_n == mid_n,
        a2 is Touched,
        exists|i: int|
            0 <= i < post.len() && is_text_entry(#[trigger] post[i], t) && post[i].timestamp == n2
                && post[i].size_bytes == mid[i].size_bytes && post[i].id == mid[i].id && (forall|
                j: int,
            |
                0 <= j < post.len() && is_text_entry(#[trigger] post[j], t) ==> j == i),
        !has_text_entry(pre, t) ==> exists|i: int|
            0 <= i < post.len() && is_text_entry(#[trigger] post[i], t) && post[i].size_bytes
                == encode_utf8(t).len(),
{
    if has_text_entry(pre, t) {
        let i1 = choose|i: int|
            0 <= i < pre.len() && is_text_entry(#[trigger] pre[i], t) && a1
                == (ResolvedAction::Touched { prev_timestamp: pre[i].timestamp }) && mid
                == pre.update(i, with_timestamp(pre[i], n1));
        assert(is_text_entry(mid[i1], t));
        assert(has_text_entry(mid, t));
    } else {
        assert(is_text_entry(mid[mid.len() - 1], t));
        assert(has_text_entry(mid, t));
    }
    let i2 = choose|i: int|
        0 <= i < mid.len() && is_text_entry(#[trigger] mid[i], t) && a2
            == (ResolvedAction::Touched { prev_timestamp: mid[i].timestamp }) && post
            == mid.update(i, with_timestamp(mid[i], n2));
    assert(is_text_entry(post[i2], t) && post[i2].timestamp == n2);
    assert forall|j: int| 0 <= j < post.len() && is_text_entry(#[trigger] post[j], t) implies j
        == i2 by {
        if j != i2 {
            assert(post[j] == mid[j]);
            lemma_text_entry_unique(mid, t, j, i2);
        }
    }
    if !has_text_entry(pre, t) {
        let last = mid.len() - 1;
        assert(is_text_entry(mid[last], t));
        lemma_text_entry_unique(mid, t, last, i2);
        assert(post[i2].size_bytes == mid[last].size_bytes);
    }
}

} // verus!
