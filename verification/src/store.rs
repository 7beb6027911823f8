use vstd::prelude::*;
use crate::errors::StoreError;
use crate::hashing::{blake3_hex_of, content_hash_hex};
use crate::imaging::png_of;
use crate::imaging::encode_png;
use crate::models::RawImage;

verus! {

/// The content-addressed name a pixel buffer is stored under: its digest
/// followed by the raster extension. Identical pixels always get one name.
pub open spec fn image_file_name(pixels: Seq<u8>) -> Seq<char> {
    blake3_hex_of(pixels) + ".png"@
}

/// One object the store holds: the file's content-addressed name and the
/// capture recorded when the file was first written.
#[derive(Debug)]
pub struct StoredImage {
    pub file_name: String,
    pub width: u32,
    pub height: u32,
    pub size_bytes: usize,
}

/// What a store request reports back: the content reference, the capture
/// data on record for it, and whether the file was already present.
#[derive(Debug)]
pub struct SaveImageResult {
    pub path: String,
    pub width: u32,
    pub height: u32,
    pub size: usize,
    pub already_exists: bool,
}

/// Encoded bytes the host still has to write to disk under this name in the
/// images directory.
#[derive(Debug)]
pub struct PendingWrite {
    pub file_name: String,
    pub bytes: Vec<u8>,
}

/// The recorded capture fits the ledger's integer columns.
pub open spec fn stored_wf(o: StoredImage) -> bool {
    &&& o.width <= i32::MAX as u32
    &&& o.height <= i32::MAX as u32
    &&& o.size_bytes <= i32::MAX as usize
}

/// Some stored object carries this content-addressed name.
pub open spec fn has_object(s: Seq<StoredImage>, name: Seq<char>) -> bool {
    exists|i: int| 0 <= i < s.len() && (#[trigger] s[i]).file_name@ == name
}

/// How one store request relates the store before and after the call to what
/// it returned: an existing file is reused untouched, a fresh buffer is
/// encoded and recorded once, and failures leave the store as it was.
pub open spec fn saved(
    pre: Seq<StoredImage>,
    post: Seq<StoredImage>,
    pixels: Seq<u8>,
    width: u32,
    height: u32,
    r: Result<(SaveImageResult, Option<PendingWrite>), StoreError>,
) -> bool {
    let name = image_file_name(pixels);
    match r {
        Ok((res, pending)) => {
            &&& res.path@ == name
            &&& if has_object(pre, name) {
                &&& post == pre
                &&& pending is None
                &&& res.already_exists
                &&& exists|i: int|
                    0 <= i < pre.len() && (#[trigger] pre[i]).file_name@ == name && res.width
                        == pre[i].width && res.height == pre[i].height && res.size
                        == pre[i].size_bytes
            } else {
                match png_of(pixels, width, height) {
                    Some(enc) => {
                        &&& enc.len() <= i32::MAX as usize
                        &&& post.len() == pre.len() + 1
                        &&& post.drop_last() == pre
                        &&& post.last().file_name@ == name
                        &&& post.last().width == width
                        &&& post.last().height == height
                        &&& post.last().size_bytes == enc.len()
                        &&& !res.already_exists
                        &&& res.width == width
                        &&& res.height == height
                        &&& res.size == enc.len()
                        &&& pending matches Some(pw) && pw.file_name@ == name && pw.bytes@ == enc
                    },
                    None => false,
                }
            }
        },
        Err(e) => {
            &&& post == pre
            &&& !has_object(pre, name)
            &&& match png_of(pixels, width, height) {
                Some(enc) => e == StoreError::ImageTooLarge && enc.len() > i32::MAX as usize,
                None => e == StoreError::EncodeFailed,
            }
        },
    }
}

/// The content-addressed store of encoded images: it maps pixel buffers to
/// stable file names and remembers which files already exist on disk.
pub struct ContentStore {
    objects: Vec<StoredImage>,
}

impl View for ContentStore {
    type V = Seq<StoredImage>;

    closed spec fn view(&self) -> Seq<StoredImage> {
        self.objects@
    }
}

impl ContentStore {
    /// Every record fits the ledger's columns and file names are unique.
    pub closed spec fn wf(&self) -> bool {
        &&& forall|i: int| 0 <= i < self.objects@.len() ==> stored_wf(#[trigger] self.objects@[i])
        &&& forall|i: int, j: int|
            #![trigger self.objects@[i], self.objects@[j]]
            0 <= i < j < self.objects@.len() ==> self.objects@[i].file_name@
                != self.objects@[j].file_name@
    }

    /// A well-formed store records ledger-compatible captures.
    pub proof fn lemma_wf_records(&self)
        requires
            self.wf(),
        ensures
            forall|i: int| 0 <= i < self@.len() ==> stored_wf(#[trigger] self@[i]),
    {
    }

    pub fn new() -> (s: ContentStore)
        ensures
            s.wf(),
            s@ == Seq::<StoredImage>::empty(),
    {
        ContentStore { objects: Vec::new() }
    }

    pub fn len(&self) -> (n: usize)
        ensures
            n == self@.len(),
    {
        self.objects.len()
    }

    /// Index of the record with this file name, if one exists.
    fn find_index(&self, name: &String) -> (r: Option<usize>)
        ensures
            match r {
                Some(i) => i < self@.len() && self@[i as int].file_name@ == name@,
                None => forall|i: int|
                    0 <= i < self@.len() ==> (#[trigger] self@[i]).file_name@ != name@,
            },
    {
        let mut i: usize = 0;
        while i < self.objects.len()
            invariant
                i <= self.objects@.len(),
                forall|j: int| 0 <= j < i ==> (#[trigger] self.objects@[j]).file_name@ != name@,
            decreases self.objects@.len() - i,
        {
            if self.objects[i].file_name.eq(name) {
                return Some(i);
            }
            i = i + 1;
        }
        None
    }

    /// Maps a pixel buffer to its content-addressed file. A buffer whose file
    /// is already on record is reused without re-encoding; a fresh buffer is
    /// encoded, recorded, and handed back as bytes for the host to write.
    /// Filesystem-independent failures are surfaced and record nothing.
    pub fn save_image_to_file(&mut self, img: &RawImage) -> (r: Result<
        (SaveImageResult, Option<PendingWrite>),
        StoreError,
    >)
        requires
            old(self).wf(),
            img.wf(),
            img.width <= i32::MAX as u32,
            img.height <= i32::MAX as u32,
        ensures
            final(self).wf(),
            saved(old(self)@, final(self)@, img.rgba@, img.width, img.height, r),
    {
        let hash = content_hash_hex(&img.rgba);
        let file_name = hash.concat(".png");
        proof {
            assert(file_name@ == image_file_name(img.rgba@));
        }
        match self.find_index(&file_name) {
            Some(i) => {
                let width = self.objects[i].width;
                let height = self.objects[i].height;
                let size = self.objects[i].size_bytes;
                Ok(
                    (
                        SaveImageResult { path: file_name, width, height, size, already_exists: true },
                        None,
                    ),
                )
            },
            None => {
                let bytes = match encode_png(img) {
                    Ok(b) => b,
                    Err(_) => {
                        return Err(StoreError::EncodeFailed);
                    },
                };
                if bytes.len() > i32::MAX as usize {
                    return Err(StoreError::ImageTooLarge);
                }
                let size = bytes.len();
                let record = StoredImage {
                    file_name: file_name.clone(),
                    width: img.width,
                    height: img.height,
                    size_bytes: size,
                };
                let ghost pre = self.objects@;
                self.objects.push(record);
                proof {
                    let s1 = self.objects@;
                    assert(s1.drop_last() =~= pre);
                    assert forall|x: int, y: int|
                        #![trigger s1[x], s1[y]]
                        0 <= x < y < s1.len() implies s1[x].file_name@ != s1[y].file_name@ by {
                        if y < s1.len() - 1 {
                            assert(s1[x] == pre[x] && s1[y] == pre[y]);
                        } else {
                            assert(s1[x] == pre[x]);
                        }
                    }
                }
                Ok(
                    (
                        SaveImageResult {
                            path: file_name.clone(),
                            width: img.width,
                            height: img.height,
                            size,
                            already_exists: false,
                        },
                        Some(PendingWrite { file_name, bytes }),
                    ),
                )
            },
        }
    }
}

/// Content-address determinism: once a pixel buffer has been stored, storing
/// the same buffer again returns the same content reference, reports the file
/// as already present, hands nothing back to write, and leaves the store's
/// file set unchanged.
pub proof fn lemma_store_deterministic(
    pre: Seq<StoredImage>,
    mid: Seq<StoredImage>,
    post: Seq<StoredImage>,
    pixels: Seq<u8>,
    w1: u32,
    h1: u32,
    w2: u32,
    h2: u32,
    res1: SaveImageResult,
    pend1: Option<PendingWrite>,
    r2: Result<(SaveImageResult, Option<PendingWrite>), StoreError>,
)
    requires
        saved(pre, mid, pixels, w1, h1, Ok((res1, pend1))),
        saved(mid, post, pixels, w2, h2, r2),
    ensures
        post == mid,
        r2 matches Ok((res2, pend2)) && res2.path@ == res1.path@ && res2.already_exists && pend2
            is None,
{
    let name = image_file_name(pixels);
    if has_object(pre, name) {
        assert(has_object(mid, name));
    } else {
        assert(mid[mid.len() - 1].file_name@ == name);
        assert(has_object(mid, name));
    }
}

} // verus!
