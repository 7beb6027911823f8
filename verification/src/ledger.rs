use vstd::prelude::*;
use vstd::seq_lib::*;
use crate::models::{
    Item, NewItem, item_wf, new_item_wf, is_text_entry, is_image_entry, recency_leq,
    with_timestamp, item_of, text_of, image_of, new_text_of, new_image_of,
};

verus! {

/// Two rows never share an id, a text identity, or an image identity.
pub open spec fn distinct_identity(a: Item, b: Item) -> bool {
    &&& a.id != b.id
    &&& !(text_of(a) is Some && text_of(a) == text_of(b))
    &&& !(image_of(a) is Some && image_of(a) == image_of(b))
}

/// Every row is well formed, and ids and content identities are unique.
pub open spec fn wf_entries(s: Seq<Item>) -> bool {
    &&& forall|i: int| 0 <= i < s.len() ==> item_wf(#[trigger] s[i])
    &&& forall|i: int, j: int|
        #![trigger s[i], s[j]]
        0 <= i < j < s.len() ==> distinct_identity(s[i], s[j])
}

/// No existing row already carries the identity a new row would bring.
pub open spec fn identity_fresh(s: Seq<Item>, n: NewItem) -> bool {
    forall|i: int|
        #![trigger s[i]]
        0 <= i < s.len() ==> {
            &&& !(new_text_of(n) is Some && text_of(s[i]) == new_text_of(n))
            &&& !(new_image_of(n) is Some && image_of(s[i]) == new_image_of(n))
        }
}

/// The display order of the history: newest first, ties broken by id.
pub open spec fn history_sorted(s: Seq<Item>) -> bool {
    forall|i: int, j: int|
        #![trigger s[i], s[j]]
        0 <= i < j < s.len() ==> recency_leq(s[i], s[j])
}

/// The rows a purge with this cutoff keeps: those at or past the cutoff.
pub open spec fn kept_after(cutoff: i64) -> spec_fn(Item) -> bool {
    |it: Item| it.timestamp >= cutoff
}

/// The mathematical sum of all stored payload sizes.
pub open spec fn sum_sizes(s: Seq<Item>) -> int
    decreases s.len(),
{
    if s.len() == 0 {
        0
    } else {
        sum_sizes(s.drop_last()) + s.last().size_bytes
    }
}

/// The durable record of history entries: the single place rows live,
/// with insert, touch, find, delete and aggregate queries against it.
pub struct Ledger {
    items: Vec<Item>,
    next_id: i32,
}

impl View for Ledger {
    type V = Seq<Item>;

    closed spec fn view(&self) -> Seq<Item> {
        self.items@
    }
}

impl Ledger {
    /// The id the next inserted row will receive.
    pub closed spec fn spec_next_id(&self) -> int {
        self.next_id as int
    }

    /// Rows are well formed and identity-unique, and all ids stay below the
    /// next id to be assigned.
    pub closed spec fn wf(&self) -> bool {
        &&& wf_entries(self.items@)
        &&& 1 <= self.next_id
        &&& forall|i: int| 0 <= i < self.items@.len() ==> (#[trigger] self.items@[i]).id < self.next_id
    }

    /// A well-formed ledger has well-formed, identity-unique rows.
    pub proof fn lemma_wf_entries(&self)
        requires
            self.wf(),
        ensures
            wf_entries(self@),
    {
    }

    pub fn new() -> (l: Ledger)
        ensures
            l.wf(),
            l@ == Seq::<Item>::empty(),
            l.spec_next_id() == 1,
    {
        Ledger { items: Vec::new(), next_id: 1 }
    }

    /// Whether this many more rows can still receive fresh ids.
    pub fn can_accept(&self, k: i32) -> (b: bool)
        requires
            k >= 0,
        ensures
            b == (self.spec_next_id() + k <= i32::MAX),
    {
        self.next_id <= i32::MAX - k
    }

    pub fn len(&self) -> (n: usize)
        ensures
            n == self@.len(),
    {
        self.items.len()
    }

    /// Appends a new row under a fresh id and returns that id.
    pub fn insert(&mut self, n: NewItem) -> (id: i32)
        requires
            old(self).wf(),
            new_item_wf(n),
            old(self).spec_next_id() < i32::MAX,
            identity_fresh(old(self)@, n),
        ensures
            final(self).wf(),
            id == old(self).spec_next_id(),
            final(self).spec_next_id() == old(self).spec_next_id() + 1,
            final(self)@ == old(self)@.push(item_of(n, id)),
    {
        let id = self.next_id;
        self.next_id = self.next_id + 1;
        let it = Item {
            id,
            text: n.text,
            image: n.image,
            image_width: n.image_width,
            image_height: n.image_height,
            timestamp: n.timestamp,
            size_bytes: n.size_bytes,
            source_app: n.source_app,
        };
        proof {
            assert(it == item_of(n, id));
        }
        self.items.push(it);
        proof {
            let s0 = old(self)@;
            let s1 = self.items@;
            assert forall|x: int, y: int| #![trigger s1[x], s1[y]]
                0 <= x < y < s1.len() implies distinct_identity(s1[x], s1[y]) by {
                if y < s1.len() - 1 {
                    assert(s1[x] == s0[x] && s1[y] == s0[y]);
                } else {
                    assert(s1[x] == s0[x]);
                    assert(s1[y] == it);
                }
            }
        }
        id
    }

    /// Index of the text entry with content `t`, if one exists.
    fn find_text_index(&self, t: &String) -> (r: Option<usize>)
        ensures
            match r {
                Some(i) => i < self@.len() && is_text_entry(self@[i as int], t@),
                None => forall|i: int| 0 <= i < self@.len() ==> !is_text_entry(#[trigger] self@[i], t@),
            },
    {
        let mut i: usize = 0;
        while i < self.items.len()
            invariant
                i <= self.items@.len(),
                forall|j: int| 0 <= j < i ==> !is_text_entry(#[trigger] self.items@[j], t@),
            decreases self.items@.len() - i,
        {
            match &self.items[i].text {
                Some(s) => {
                    if s.eq(t) {
                        return Some(i);
                    }
                },
                None => {},
            }
            i = i + 1;
        }
        None
    }

    /// Index of the image entry whose content reference is `r`, if one exists.
    fn find_image_index(&self, r: &String) -> (res: Option<usize>)
        ensures
            match res {
                Some(i) => i < self@.len() && is_image_entry(self@[i as int], r@),
                None => forall|i: int|
                    0 <= i < self@.len() ==> !is_image_entry(#[trigger] self@[i], r@),
            },
    {
        let mut i: usize = 0;
        while i < self.items.len()
            invariant
                i <= self.items@.len(),
                forall|j: int| 0 <= j < i ==> !is_image_entry(#[trigger] self.items@[j], r@),
            decreases self.items@.len() - i,
        {
            match &self.items[i].image {
                Some(s) => {
                    if s.eq(r) {
                        return Some(i);
                    }
                },
                None => {},
            }
            i = i + 1;
        }
        None
    }

    /// Refreshes the timestamp of the row at `i` and returns the one it had.
    fn touch_at(&mut self, i: usize, now: i64) -> (prev: i64)
        requires
            old(self).wf(),
            i < old(self)@.len(),
        ensures
            final(self).wf(),
            final(self).spec_next_id() == old(self).spec_next_id(),
            prev == old(self)@[i as int].timestamp,
            final(self)@ == old(self)@.update(i as int, with_timestamp(old(self)@[i as int], now)),
    {
        let prev = self.items[i].timestamp;
        self.items[i].timestamp = now;
        proof {
            let s0 = old(self)@;
            let s1 = self.items@;
            assert(s1 =~= s0.update(i as int, with_timestamp(s0[i as int], now)));
            assert forall|x: int, y: int| #![trigger s1[x], s1[y]]
                0 <= x < y < s1.len() implies distinct_identity(s1[x], s1[y]) by {
                assert(distinct_identity(s0[x], s0[y]));
            }
        }
        prev
    }

    /// Moves the text entry with content `t` to "now"; returns the timestamp
    /// it overwrote, or None when no such entry exists (the ledger is kept).
    pub fn touch_text(&mut self, t: &String, now: i64) -> (r: Option<i64>)
        requires
            old(self).wf(),
        ensures
            final(self).wf(),
            final(self).spec_next_id() == old(self).spec_next_id(),
            (r is Some) == (exists|i: int|
                0 <= i < old(self)@.len() && is_text_entry(#[trigger] old(self)@[i], t@)),
            r matches Some(prev) ==> exists|i: int|
                0 <= i < old(self)@.len() && is_text_entry(#[trigger] old(self)@[i], t@) && prev
                    == old(self)@[i].timestamp && final(self)@ == old(self)@.update(
                    i,
                    with_timestamp(old(self)@[i], now),
                ),
            r is None ==> final(self)@ == old(self)@,
    {
        match self.find_text_index(t) {
            Some(i) => Some(self.touch_at(i, now)),
            None => None,
        }
    }

    /// Moves the image entry with content reference `ref_name` to "now";
    /// returns the timestamp it overwrote, or None when no such entry exists.
    pub fn touch_image(&mut self, ref_name: &String, now: i64) -> (r: Option<i64>)
        requires
            old(self).wf(),
        ensures
            final(self).wf(),
            final(self).spec_next_id() == old(self).spec_next_id(),
            (r is Some) == (exists|i: int|
                0 <= i < old(self)@.len() && is_image_entry(#[trigger] old(self)@[i], ref_name@)),
            r matches Some(prev) ==> exists|i: int|
                0 <= i < old(self)@.len() && is_image_entry(#[trigger] old(self)@[i], ref_name@)
                    && prev == old(self)@[i].timestamp && final(self)@ == old(self)@.update(
                    i,
                    with_timestamp(old(self)@[i], now),
                ),
            r is None ==> final(self)@ == old(self)@,
    {
        match self.find_image_index(ref_name) {
            Some(i) => Some(self.touch_at(i, now)),
            None => None,
        }
    }

    /// Moves the row with the given id to "now"; returns the timestamp it
    /// overwrote, or None when no such row exists.
    pub fn touch_by_id(&mut self, id: i32, now: i64) -> (r: Option<i64>)
        requires
            old(self).wf(),
        ensures
            final(self).wf(),
            final(self).spec_next_id() == old(self).spec_next_id(),
            (r is Some) == (exists|i: int|
                0 <= i < old(self)@.len() && (#[trigger] old(self)@[i]).id == id),
            r matches Some(prev) ==> exists|i: int|
                0 <= i < old(self)@.len() && (#[trigger] old(self)@[i]).id == id && prev == old(
                    self,
                )@[i].timestamp && final(self)@ == old(self)@.update(
                    i,
                    with_timestamp(old(self)@[i], now),
                ),
            r is None ==> final(self)@ == old(self)@,
    {
        let mut i: usize = 0;
        while i < self.items.len()
            invariant
                old(self).wf(),
                self == old(self),
                i <= self.items@.len(),
                forall|j: int| 0 <= j < i ==> (#[trigger] self.items@[j]).id != id,
            decreases self.items@.len() - i,
        {
            if self.items[i].id == id {
                return Some(self.touch_at(i, now));
            }
            i = i + 1;
        }
        None
    }

    /// A copy of the text entry with content `t`, if one exists.
    pub fn find_by_text(&self, t: &String) -> (r: Option<Item>)
        ensures
            (r is Some) == (exists|i: int|
                0 <= i < self@.len() && is_text_entry(#[trigger] self@[i], t@)),
            r matches Some(it) ==> is_text_entry(it, t@) && self@.contains(it),
    {
        match self.find_text_index(t) {
            Some(i) => {
                let it = self.items[i].clone();
                proof {
                    assert(self@[i as int] == it);
                }
                Some(it)
            },
            None => None,
        }
    }

    /// A copy of the image entry whose content reference is `ref_name`, if any.
    pub fn find_by_image_ref(&self, ref_name: &String) -> (r: Option<Item>)
        ensures
            (r is Some) == (exists|i: int|
                0 <= i < self@.len() && is_image_entry(#[trigger] self@[i], ref_name@)),
            r matches Some(it) ==> is_image_entry(it, ref_name@) && self@.contains(it),
    {
        match self.find_image_index(ref_name) {
            Some(i) => {
                let it = self.items[i].clone();
                proof {
                    assert(self@[i as int] == it);
                }
                Some(it)
            },
            None => None,
        }
    }

    /// A copy of the row with the given id, if one exists.
    pub fn find_by_id(&self, id: i32) -> (r: Option<Item>)
        ensures
            (r is Some) == (exists|i: int|
                0 <= i < self@.len() && (#[trigger] self@[i]).id == id),
            r matches Some(it) ==> it.id == id && self@.contains(it),
    {
        let mut i: usize = 0;
        while i < self.items.len()
            invariant
                i <= self.items@.len(),
                forall|j: int| 0 <= j < i ==> (#[trigger] self.items@[j]).id != id,
            decreases self.items@.len() - i,
        {
            if self.items[i].id == id {
                let it = self.items[i].clone();
                proof {
                    assert(self@[i as int] == it);
                }
                return Some(it);
            }
            i = i + 1;
        }
        None
    }

    /// Removes the row with the given id; reports whether one was there.
    pub fn delete(&mut self, id: i32) -> (r: bool)
        requires
            old(self).wf(),
        ensures
            final(self).wf(),
            final(self).spec_next_id() == old(self).spec_next_id(),
            r == (exists|i: int| 0 <= i < old(self)@.len() && (#[trigger] old(self)@[i]).id == id),
            r ==> exists|i: int|
                0 <= i < old(self)@.len() && (#[trigger] old(self)@[i]).id == id && final(self)@
                    == old(self)@.remove(i),
            !r ==> final(self)@ == old(self)@,
    {
        let mut i: usize = 0;
        while i < self.items.len()
            invariant
                old(self).wf(),
                self == old(self),
                i <= self.items@.len(),
                forall|j: int| 0 <= j < i ==> (#[trigger] self.items@[j]).id != id,
            decreases self.items@.len() - i,
        {
            if self.items[i].id == id {
                self.items.remove(i);
                proof {
                    lemma_wf_remove(old(self)@, i as int);
                }
                return true;
            }
            i = i + 1;
        }
        false
    }

    /// Removes every row strictly older than the cutoff; the rest keep
    /// their order.
    pub fn delete_where_older_than(&mut self, cutoff: i64)
        requires
            old(self).wf(),
        ensures
            final(self).wf(),
            final(self).spec_next_id() == old(self).spec_next_id(),
            final(self)@ == old(self)@.filter(kept_after(cutoff)),
    {
        broadcast use Seq::lemma_filter_push;

        let pred = Ghost(kept_after(cutoff));
        let mut kept: Vec<Item> = Vec::new();
        let mut i: usize = 0;
        proof {
            assert(self.items@.subrange(0, 0) =~= Seq::<Item>::empty());
            reveal(Seq::filter);
        }
        while i < self.items.len()
            invariant
                old(self).wf(),
                self == old(self),
                i <= self.items@.len(),
                kept@ == self.items@.subrange(0, i as int).filter(pred@),
                pred@ == kept_after(cutoff),
            decreases self.items@.len() - i,
        {
            proof {
                assert(self.items@.subrange(0, i as int + 1) =~= self.items@.subrange(
                    0,
                    i as int,
                ).push(self.items@[i as int]));
                self.items@.subrange(0, i as int).lemma_filter_push(
                    self.items@[i as int],
                    pred@,
                );
            }
            if self.items[i].timestamp >= cutoff {
                kept.push(self.items[i].clone());
            }
            i = i + 1;
        }
        proof {
            assert(self.items@.subrange(0, self.items@.len() as int) =~= self.items@);
        }
        self.items = kept;
        proof {
            lemma_wf_filter(old(self)@, pred@);
        }
    }

    /// Removes every row.
    pub fn delete_all(&mut self)
        requires
            old(self).wf(),
        ensures
            final(self).wf(),
            final(self).spec_next_id() == old(self).spec_next_id(),
            final(self)@ == Seq::<Item>::empty(),
    {
        self.items.clear();
    }

    /// The total payload size over all rows, capped at the machine maximum.
    pub fn sum_size_bytes(&self) -> (r: i64)
        requires
            self.wf(),
        ensures
            r == if sum_sizes(self@) <= i64::MAX {
                sum_sizes(self@)
            } else {
                i64::MAX as int
            },
            r >= 0,
    {
        let mut acc: i64 = 0;
        let mut i: usize = 0;
        proof {
            assert(self.items@.subrange(0, 0) =~= Seq::<Item>::empty());
            lemma_sum_nonneg(self.items@.subrange(0, 0));
        }
        while i < self.items.len()
            invariant
                self.wf(),
                i <= self.items@.len(),
                0 <= acc,
                acc == if sum_sizes(self.items@.subrange(0, i as int)) <= i64::MAX {
                    sum_sizes(self.items@.subrange(0, i as int))
                } else {
                    i64::MAX as int
                },
            decreases self.items@.len() - i,
        {
            proof {
                lemma_sum_take(self.items@, i as int);
                assert(item_wf(self.items@[i as int]));
            }
            let x = self.items[i].size_bytes as i64;
            if acc > i64::MAX - x {
                acc = i64::MAX;
            } else {
                acc = acc + x;
            }
            i = i + 1;
        }
        proof {
            assert(self.items@.subrange(0, self.items@.len() as int) =~= self.items@);
        }
        acc
    }

    /// All rows, newest first; rows with equal timestamps keep id order.
    pub fn list_all_ordered_by_timestamp_desc(&self) -> (r: Vec<Item>)
        ensures
            r@.to_multiset() == self@.to_multiset(),
            history_sorted(r@),
    {
        broadcast use vstd::seq_lib::group_to_multiset_ensures;

        let mut out: Vec<Item> = Vec::new();
        let mut i: usize = 0;
        proof {
            assert(self.items@.subrange(0, 0) =~= Seq::<Item>::empty());
            assert(out@ =~= Seq::<Item>::empty());
        }
        while i < self.items.len()
            invariant
                i <= self.items@.len(),
                history_sorted(out@),
                out@.to_multiset() == self.items@.subrange(0, i as int).to_multiset(),
            decreases self.items@.len() - i,
        {
            let it = self.items[i].clone();
            let ghost pre = out@;
            let mut p: usize = 0;
            while p < out.len() && recency_before(&out[p], &it)
                invariant
                    out@ == pre,
                    p <= out@.len(),
                    forall|k: int| 0 <= k < p ==> recency_leq(#[trigger] out@[k], it),
                decreases out@.len() - p,
            {
                p = p + 1;
            }
            proof {
                assert forall|k: int| p <= k < pre.len() implies recency_leq(
                    it,
                    #[trigger] pre[k],
                ) by {
                    assert(!recency_leq(pre[p as int], it));
                    if k > p {
                        assert(recency_leq(pre[p as int], pre[k]));
                    }
                }
            }
            out.insert(p, it);
            proof {
                let post = out@;
                assert(post == pre.insert(p as int, it));
                assert forall|x: int, y: int| #![trigger post[x], post[y]]
                    0 <= x < y < post.len() implies recency_leq(post[x], post[y]) by {
                    if x < p && y < p {
                        assert(post[x] == pre[x] && post[y] == pre[y]);
                    } else if x < p && y == p {
                        assert(post[x] == pre[x] && post[y] == it);
                    } else if x < p && y > p {
                        assert(post[x] == pre[x] && post[y] == pre[y - 1]);
                    } else if x == p {
                        assert(post[x] == it && post[y] == pre[y - 1]);
                    } else {
                        assert(post[x] == pre[x - 1] && post[y] == pre[y - 1]);
                    }
                }
                to_multiset_insert(pre, p as int, it);
                assert(it == self.items@[i as int]);
                assert(self.items@.subrange(0, i as int + 1) =~= self.items@.subrange(
                    0,
                    i as int,
                ).push(self.items@[i as int]));
                to_multiset_build(self.items@.subrange(0, i as int), self.items@[i as int]);
            }
            i = i + 1;
        }
        proof {
            assert(self.items@.subrange(0, self.items@.len() as int) =~= self.items@);
        }
        out
    }
}

/// Newest-first comparison used by the history listing.
fn recency_before(a: &Item, b: &Item) -> (r: bool)
    ensures
        r == recency_leq(*a, *b),
{
    a.timestamp > b.timestamp || (a.timestamp == b.timestamp && a.id <= b.id)
}

/// Removing a row keeps the remaining rows well formed and identity-unique.
proof fn lemma_wf_remove(s: Seq<Item>, i: int)
    requires
        wf_entries(s),
        0 <= i < s.len(),
    ensures
        wf_entries(s.remove(i)),
{
    let t = s.remove(i);
    assert forall|x: int| 0 <= x < t.len() implies item_wf(#[trigger] t[x]) by {
        if x < i {
            assert(t[x] == s[x]);
        } else {
            assert(t[x] == s[x + 1]);
        }
    }
    assert forall|x: int, y: int| #![trigger t[x], t[y]]
        0 <= x < y < t.len() implies distinct_identity(t[x], t[y]) by {
        let sx: int = if x < i {
            x
        } else {
            x + 1
        };
        let sy: int = if y < i {
            y
        } else {
            y + 1
        };
        assert(t[x] == s[sx] && t[y] == s[sy]);
        assert(distinct_identity(s[sx], s[sy]));
    }
}

/// Filtering rows keeps the kept rows well formed and identity-unique.
proof fn lemma_wf_filter(s: Seq<Item>, pred: spec_fn(Item) -> bool)
    requires
        wf_entries(s),
    ensures
        wf_entries(s.filter(pred)),
        forall|k: int| 0 <= k < s.filter(pred).len() ==> s.contains(#[trigger] s.filter(pred)[k]),
    decreases s.len(),
{
    reveal(Seq::filter);
    let out = s.filter(pred);
    if s.len() > 0 {
        let pre = s.drop_last();
        assert forall|x: int, y: int| #![trigger pre[x], pre[y]]
            0 <= x < y < pre.len() implies distinct_identity(pre[x], pre[y]) by {
            assert(pre[x] == s[x] && pre[y] == s[y]);
        }
        assert(wf_entries(pre));
        lemma_wf_filter(pre, pred);
        let sub = pre.filter(pred);
        assert forall|k: int| 0 <= k < sub.len() implies s.contains(#[trigger] sub[k]) by {
            assert(pre.contains(sub[k]));
            let j = choose|j: int| 0 <= j < pre.len() && pre[j] == sub[k];
            assert(s[j] == sub[k]);
        }
        if pred(s.last()) {
            assert(out == sub.push(s.last()));
            assert forall|x: int, y: int| #![trigger out[x], out[y]]
                0 <= x < y < out.len() implies distinct_identity(out[x], out[y]) by {
                if y < out.len() - 1 {
                    assert(out[x] == sub[x] && out[y] == sub[y]);
                } else {
                    assert(out[x] == sub[x] && out[y] == s.last());
                    assert(s.contains(sub[x]));
                    let j = choose|j: int| 0 <= j < s.len() && s[j] == sub[x];
                    if j < s.len() - 1 {
                        assert(distinct_identity(s[j], s[s.len() - 1]));
                    } else {
                        assert(pre.contains(sub[x]));
                        let j2 = choose|j2: int| 0 <= j2 < pre.len() && pre[j2] == sub[x];
                        assert(s[j2] == sub[x]);
                        assert(distinct_identity(s[j2], s[s.len() - 1]));
                    }
                }
            }
            assert forall|x: int| 0 <= x < out.len() implies item_wf(#[trigger] out[x]) by {
                if x < out.len() - 1 {
                    assert(item_wf(sub[x]));
                } else {
                    assert(item_wf(s[s.len() - 1]));
                }
            }
            assert forall|k: int| 0 <= k < out.len() implies s.contains(#[trigger] out[k]) by {
                if k < out.len() - 1 {
                    assert(s.contains(sub[k]));
                } else {
                    assert(out[k] == s[s.len() - 1]);
                }
            }
        } else {
            assert(out == sub);
        }
    }
}

/// Each prefix extends the running payload sum by one row's size.
proof fn lemma_sum_take(s: Seq<Item>, i: int)
    requires
        0 <= i < s.len(),
    ensures
        sum_sizes(s.subrange(0, i + 1)) == sum_sizes(s.subrange(0, i)) + s[i].size_bytes,
{
    assert(s.subrange(0, i + 1).drop_last() =~= s.subrange(0, i));
    assert(s.subrange(0, i + 1).last() == s[i]);
}

/// With well-formed rows the payload sum is never negative.
proof fn lemma_sum_nonneg(s: Seq<Item>)
    requires
        forall|i: int| 0 <= i < s.len() ==> item_wf(#[trigger] s[i]),
    ensures
        sum_sizes(s) >= 0,
    decreases s.len(),
{
    if s.len() > 0 {
        let pre = s.drop_last();
        assert forall|i: int| 0 <= i < pre.len() implies item_wf(#[trigger] pre[i]) by {
            assert(pre[i] == s[i]);
        }
        lemma_sum_nonneg(pre);
        assert(item_wf(s[s.len() - 1]));
    }
}

/// Rows in the recency order never show an older row above a newer one.
pub proof fn lemma_history_ordering(s: Seq<Item>, i: int, j: int)
    requires
        history_sorted(s),
        0 <= i < s.len(),
        0 <= j < s.len(),
        s[i].timestamp > s[j].timestamp,
    ensures
        i < j,
{
    if j < i {
        assert(recency_leq(s[j], s[i]));
    }
}

/// Every well-formed row is exactly one of a text entry or an image entry.
pub proof fn lemma_entries_disjoint(s: Seq<Item>)
    requires
        wf_entries(s),
    ensures
        forall|i: int|
            0 <= i < s.len() ==> ((#[trigger] s[i]).text is Some) != (s[i].image is Some),
{
    assert forall|i: int|
        0 <= i < s.len() implies ((#[trigger] s[i]).text is Some) != (s[i].image is Some) by {
        assert(item_wf(s[i]));
    }
}

} // verus!
