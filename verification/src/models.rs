use vstd::prelude::*;

verus! {

/// One row of the clipboard history ledger: a capture of either text or an
/// image, never both and never neither.
#[derive(Debug)]
pub struct Item {
    pub id: i32,
    pub text: Option<String>,
    pub image: Option<String>,
    pub image_width: Option<i32>,
    pub image_height: Option<i32>,
    pub timestamp: i64,
    pub size_bytes: i32,
    pub source_app: Option<String>,
}

/// A row about to enter the ledger; the ledger assigns the id on insert.
#[derive(Debug)]
pub struct NewItem {
    pub text: Option<String>,
    pub image: Option<String>,
    pub image_width: Option<i32>,
    pub image_height: Option<i32>,
    pub timestamp: i64,
    pub size_bytes: i32,
    pub source_app: Option<String>,
}

/// A raw RGBA pixel buffer as handed over by the clipboard capability:
/// four bytes per pixel, rows from top to bottom.
#[derive(Debug)]
pub struct RawImage {
    pub rgba: Vec<u8>,
    pub width: u32,
    pub height: u32,
}

impl RawImage {
    /// The buffer holds exactly four bytes for each of the width * height pixels.
    pub open spec fn wf(&self) -> bool {
        self.rgba@.len() == 4 * (self.width as int) * (self.height as int)
    }
}

/// Exactly one of text or image is present, the optional image dimensions
/// travel with the image, and the payload size is never negative.
pub open spec fn item_wf(it: Item) -> bool {
    &&& (it.text is Some) != (it.image is Some)
    &&& (it.image_width is Some) == (it.image is Some)
    &&& (it.image_height is Some) == (it.image is Some)
    &&& it.size_bytes >= 0
    &&& it.id >= 1
}

/// The same shape conditions for a row that has no id yet.
pub open spec fn new_item_wf(n: NewItem) -> bool {
    &&& (n.text is Some) != (n.image is Some)
    &&& (n.image_width is Some) == (n.image is Some)
    &&& (n.image_height is Some) == (n.image is Some)
    &&& n.size_bytes >= 0
}

/// The content identity of a text entry: the exact character sequence.
pub open spec fn text_of(it: Item) -> Option<Seq<char>> {
    match it.text {
        Some(s) => Some(s@),
        None => None,
    }
}

/// The content identity of an image entry: its content reference.
pub open spec fn image_of(it: Item) -> Option<Seq<char>> {
    match it.image {
        Some(s) => Some(s@),
        None => None,
    }
}

/// The text identity a new row will carry.
pub open spec fn new_text_of(n: NewItem) -> Option<Seq<char>> {
    match n.text {
        Some(s) => Some(s@),
        None => None,
    }
}

/// The image identity a new row will carry.
pub open spec fn new_image_of(n: NewItem) -> Option<Seq<char>> {
    match n.image {
        Some(s) => Some(s@),
        None => None,
    }
}

/// The item is a text entry whose content is exactly `t`.
pub open spec fn is_text_entry(it: Item, t: Seq<char>) -> bool {
    text_of(it) == Some(t)
}

/// The item is an image entry whose content reference is exactly `r`.
pub open spec fn is_image_entry(it: Item, r: Seq<char>) -> bool {
    image_of(it) == Some(r)
}

/// Recency order of the history: newer timestamps first, ties broken by id.
pub open spec fn recency_leq(a: Item, b: Item) -> bool {
    a.timestamp > b.timestamp || (a.timestamp == b.timestamp && a.id <= b.id)
}

/// The item with its timestamp refreshed and everything else kept.
pub open spec fn with_timestamp(it: Item, now: i64) -> Item {
    Item { timestamp: now, ..it }
}

/// The item an insert builds from a new row and the id it assigns.
pub open spec fn item_of(n: NewItem, id: i32) -> Item {
    Item {
        id,
        text: n.text,
        image: n.image,
        image_width: n.image_width,
        image_height: n.image_height,
        timestamp: n.timestamp,
        size_bytes: n.size_bytes,
        source_app: n.source_app,
    }
}

pub(crate) fn clone_opt_string(s: &Option<String>) -> (r: Option<String>)
    ensures
        r == *s,
{
    match s {
        Some(x) => Some(x.clone()),
        None => None,
    }
}

impl Clone for Item {
    fn clone(&self) -> (r: Self)
        ensures
            r == *self,
    {
        Item {
            id: self.id,
            text: clone_opt_string(&self.text),
            image: clone_opt_string(&self.image),
            image_width: self.image_width,
            image_height: self.image_height,
            timestamp: self.timestamp,
            size_bytes: self.size_bytes,
            source_app: clone_opt_string(&self.source_app),
        }
    }
}

} // verus!
