//! Captured images, kept for the later steps of a conversation.
//!
//! An image is stored under the id of its run. It expires some time after its last access,
//! and only so many are held at once: the one that was not accessed for longest goes
//! first.

use crate::chars::same_text;
use crate::synapse::vision::copy_bytes;
use vstd::prelude::*;
use vstd::string::*;

verus! {

/// How long a captured image is kept after its last access, in nanoseconds.
pub const IMAGE_TTL: u128 = 300_000_000_000;

/// How many images are held at once.
pub const MAX_IMAGES: usize = 16;

struct Entry {
    run_id: String,
    bytes: Vec<u8>,
    last_access: u128,
}

/// A stored image, and the time of its last access on a clock that never goes back, in
/// nanoseconds.
pub ghost struct EntryView {
    pub bytes: Seq<u8>,
    pub last_access: u128,
}

/// Captured images by run id.
pub struct LiveImageStore {
    entries: Vec<Entry>,
}

spec fn entry_view(e: Entry) -> EntryView {
    EntryView { bytes: e.bytes@, last_access: e.last_access }
}

spec fn entries_map(s: Seq<Entry>) -> Map<Seq<char>, EntryView>
    decreases s.len(),
{
    if s.len() == 0 {
        Map::empty()
    } else {
        entries_map(s.drop_last()).insert(s.last().run_id@, entry_view(s.last()))
    }
}

spec fn distinct_runs(s: Seq<Entry>) -> bool {
    forall|i: int, j: int|
        0 <= i < j < s.len() ==> (#[trigger] s[i]).run_id@ != (#[trigger] s[j]).run_id@
}

/// The map of some entries holds each of them, and nothing else.
proof fn lemma_entries(s: Seq<Entry>)
    requires
        distinct_runs(s),
    ensures
        forall|i: int|
            0 <= i < s.len() ==> entries_map(s).contains_key((#[trigger] s[i]).run_id@) && entries_map(
                s,
            )[s[i].run_id@] == entry_view(s[i]),
        forall|k: Seq<char>| #[trigger]
            entries_map(s).contains_key(k) ==> exists|i: int|
                0 <= i < s.len() && (#[trigger] s[i]).run_id@ == k,
        entries_map(s).dom().finite(),
        entries_map(s).dom().len() == s.len(),
    decreases s.len(),
{
    if s.len() > 0 {
        let rest = s.drop_last();
        assert(distinct_runs(rest)) by {
            assert forall|i: int, j: int| 0 <= i < j < rest.len() implies (#[trigger] rest[i]).run_id@
                != (#[trigger] rest[j]).run_id@ by {
                assert(s[i].run_id@ != s[j].run_id@);
            }
        }
        lemma_entries(rest);
        let last = s.last();
        assert(!entries_map(rest).contains_key(last.run_id@)) by {
            if entries_map(rest).contains_key(last.run_id@) {
                let i = choose|i: int| 0 <= i < rest.len() && (#[trigger] rest[i]).run_id@ == last.run_id@;
                assert(s[i].run_id@ == s[s.len() - 1].run_id@);
            }
        }
        assert forall|i: int| 0 <= i < s.len() implies entries_map(s).contains_key(
            (#[trigger] s[i]).run_id@,
        ) && entries_map(s)[s[i].run_id@] == entry_view(s[i]) by {
            if i < s.len() - 1 {
                assert(rest[i] == s[i]);
                assert(s[i].run_id@ != s[s.len() - 1].run_id@);
            }
        }
        assert forall|k: Seq<char>| #[trigger] entries_map(s).contains_key(k) implies exists|i: int|
            0 <= i < s.len() && (#[trigger] s[i]).run_id@ == k by {
            if k != last.run_id@ {
                assert(entries_map(rest).contains_key(k));
                let i = choose|i: int| 0 <= i < rest.len() && (#[trigger] rest[i]).run_id@ == k;
                assert(s[i].run_id@ == k);
            } else {
                assert(s[s.len() - 1].run_id@ == k);
            }
        }
        assert(entries_map(s).dom() =~= entries_map(rest).dom().insert(last.run_id@));
    }
}

/// There are no more live images than images.
proof fn lemma_live_is_smaller(m: Map<Seq<char>, EntryView>, now: u128)
    requires
        m.dom().finite(),
    ensures
        live(m, now).dom().finite(),
        live(m, now).dom().len() <= m.dom().len(),
{
    assert(live(m, now).dom() =~= m.dom().intersect(live(m, now).dom()));
    vstd::set_lib::lemma_len_intersect(m.dom(), live(m, now).dom());
}

/// How long ago a time was; none if it is still to come.
pub open spec fn age(last_access: u128, now: u128) -> int {
    if now >= last_access {
        now - last_access
    } else {
        0
    }
}

pub open spec fn is_live(e: EntryView, now: u128) -> bool {
    age(e.last_access, now) < IMAGE_TTL
}

/// The images that have not expired.
pub open spec fn live(m: Map<Seq<char>, EntryView>, now: u128) -> Map<Seq<char>, EntryView> {
    Map::new(|k: Seq<char>| m.contains_key(k) && is_live(m[k], now), |k: Seq<char>| m[k])
}

/// Whether no image of `m` was accessed before the one under `k`.
pub open spec fn is_oldest(m: Map<Seq<char>, EntryView>, k: Seq<char>) -> bool {
    m.contains_key(k) && forall|j: Seq<char>| #[trigger]
        m.contains_key(j) ==> m[k].last_access <= m[j].last_access
}

/// Whether `r` is what pruning leaves of `m`: the live images, each as it was, or as many of
/// them as may be held, none of which was accessed before one that goes.
pub open spec fn is_pruned(
    m: Map<Seq<char>, EntryView>,
    now: u128,
    r: Map<Seq<char>, EntryView>,
) -> bool {
    let all = live(m, now);
    &&& forall|k: Seq<char>| #[trigger]
        r.contains_key(k) ==> all.contains_key(k) && r[k] == all[k]
    &&& if all.dom().len() <= MAX_IMAGES {
        r == all
    } else {
        r.dom().len() == MAX_IMAGES
    }
    &&& forall|k: Seq<char>, d: Seq<char>|
        #![trigger r.contains_key(k), all.contains_key(d)]
        r.contains_key(k) && all.contains_key(d) && !r.contains_key(d) ==> all[d].last_access
            <= r[k].last_access
}

/// Whether `r` is `m`, without its oldest image if that is one too many. The image under
/// `keep` stays.
pub open spec fn is_capped(
    m: Map<Seq<char>, EntryView>,
    keep: Seq<char>,
    r: Map<Seq<char>, EntryView>,
) -> bool {
    if m.dom().len() <= MAX_IMAGES {
        r == m
    } else {
        exists|k: Seq<char>| #[trigger]
            is_oldest(m.remove(keep), k) && r == m.remove(k)
    }
}

/// Whether looking for the image of a run gives `r` and leaves the store with `now_stored`: the
/// image is used now, and what is no longer live is gone.
pub open spec fn is_refreshed(
    m: Map<Seq<char>, EntryView>,
    run_id: Seq<char>,
    now: u128,
    r: Option<Vec<u8>>,
    now_stored: Map<Seq<char>, EntryView>,
) -> bool {
    &&& r is Some <==> live(m, now).contains_key(run_id)
    &&& match r {
        Some(bytes) => {
            &&& bytes@ == m[run_id].bytes
            &&& now_stored == live(m, now).insert(
                run_id,
                (EntryView { bytes: bytes@, last_access: now }),
            )
        },
        None => now_stored == live(m, now),
    }
}

impl View for LiveImageStore {
    type V = Map<Seq<char>, EntryView>;

    closed spec fn view(&self) -> Map<Seq<char>, EntryView> {
        entries_map(self.entries@)
    }
}

impl LiveImageStore {
    /// No run has two images.
    pub closed spec fn has_distinct_runs(&self) -> bool {
        distinct_runs(self.entries@)
    }

    /// There are not too many images.
    pub closed spec fn is_within_limit(&self) -> bool {
        self.entries@.len() <= MAX_IMAGES
    }

    /// No run has two images, and there are not too many.
    pub open spec fn wf(&self) -> bool {
        self.has_distinct_runs() && self.is_within_limit()
    }

    pub fn new() -> (r: Self)
        ensures
            r.wf(),
            r@ == Map::<Seq<char>, EntryView>::empty(),
    {
        LiveImageStore { entries: Vec::new() }
    }

    /// How many images are held.
    pub fn len(&self) -> (r: usize)
        requires
            self.wf(),
        ensures
            r == self@.dom().len(),
            r <= MAX_IMAGES,
    {
        proof {
            lemma_entries(self.entries@);
        }
        self.entries.len()
    }

    /// Drops the images that have expired.
    fn expire(&mut self, now: u128)
        requires
            old(self).has_distinct_runs(),
        ensures
            final(self).has_distinct_runs(),
            final(self).entries@.len() <= old(self).entries@.len(),
            final(self)@ == live(old(self)@, now),
    {
        let mut held: Vec<Entry> = Vec::new();
        std::mem::swap(&mut held, &mut self.entries);
        let ghost all = held@;
        let mut kept: Vec<Entry> = Vec::new();
        let ghost mut from: Seq<int> = Seq::empty();
        assert(live(entries_map(all.take(0)), now) =~= entries_map(kept@));
        for e in it: held
            invariant
                it.seq() == all,
                distinct_runs(all),
                kept@.len() == from.len(),
                forall|i: int|
                    0 <= i < from.len() ==> 0 <= #[trigger] from[i] < it.index() && kept@[i]
                        == all[from[i]],
                forall|i: int, j: int|
                    0 <= i < j < from.len() ==> (#[trigger] from[i]) < (#[trigger] from[j]),
                kept@.len() <= it.index(),
                entries_map(kept@) == live(entries_map(all.take(it.index())), now),
        {
            let ghost n = it.index();
            let ghost before = all.take(n);
            proof {
                assert(all.take(n + 1).drop_last() =~= before);
                assert(all.take(n + 1).last() == e);
                assert(distinct_runs(before)) by {
                    assert forall|i: int, j: int| 0 <= i < j < before.len() implies (
                    #[trigger] before[i]).run_id@ != (#[trigger] before[j]).run_id@ by {
                        assert(all[i].run_id@ != all[j].run_id@);
                    }
                }
                lemma_entries(before);
                if entries_map(before).contains_key(e.run_id@) {
                    let i = choose|i: int|
                        0 <= i < before.len() && (#[trigger] before[i]).run_id@ == e.run_id@;
                    assert(all[i].run_id@ == all[n].run_id@);
                }
            }
            let elapsed: u128 = if now >= e.last_access {
                now - e.last_access
            } else {
                0
            };
            if elapsed < IMAGE_TTL {
                let ghost shown = entry_view(e);
                let ghost id = e.run_id@;
                let ghost was = kept@;
                kept.push(e);
                proof {
                    from = from.push(n);
                    assert(kept@.drop_last() =~= was);
                    assert(live(entries_map(all.take(n + 1)), now) =~= live(
                        entries_map(before),
                        now,
                    ).insert(id, shown));
                }
            } else {
                assert(live(entries_map(all.take(n + 1)), now) =~= live(entries_map(before), now));
            }
        }
        assert(all.take(all.len() as int) =~= all);
        assert(distinct_runs(kept@)) by {
            assert forall|i: int, j: int| 0 <= i < j < kept@.len() implies (#[trigger] kept@[i]).run_id@
                != (#[trigger] kept@[j]).run_id@ by {
                assert(from[i] < from[j]);
                assert(all[from[i]].run_id@ != all[from[j]].run_id@);
            }
        }
        self.entries = kept;
    }

    /// Drops the images that have expired. If there are too many then, those that were not
    /// accessed for longest go.
    pub fn prune(&mut self, now: u128)
        requires
            old(self).has_distinct_runs(),
        ensures
            final(self).wf(),
            is_pruned(old(self)@, now, final(self)@),
    {
        let ghost all = live(self@, now);
        self.expire(now);
        proof {
            lemma_entries(self.entries@);
        }
        while self.entries.len() > MAX_IMAGES
            invariant
                self.has_distinct_runs(),
                self@.dom().len() == self.entries@.len(),
                forall|k: Seq<char>| #[trigger]
                    self@.contains_key(k) ==> all.contains_key(k) && self@[k] == all[k],
                self@ == all || all.dom().len() > MAX_IMAGES && self.entries@.len() >= MAX_IMAGES,
                forall|k: Seq<char>, d: Seq<char>|
                    #![trigger self@.contains_key(k), all.contains_key(d)]
                    self@.contains_key(k) && all.contains_key(d) && !self@.contains_key(d)
                        ==> all[d].last_access <= self@[k].last_access,
            decreases self.entries@.len(),
        {
            let ghost before = self@;
            let n = self.entries.len();
            let i = self.oldest_of(n);
            let ghost gone = self.entries@[i as int].run_id@;
            self.take_out(i);
            proof {
                lemma_entries(self.entries@);
                assert forall|k: Seq<char>, d: Seq<char>|
                    #![trigger self@.contains_key(k), all.contains_key(d)]
                    self@.contains_key(k) && all.contains_key(d) && !self@.contains_key(d) implies
                    all[d].last_access <= self@[k].last_access by {
                    assert(before.contains_key(k));
                    if d != gone {
                        assert(!before.contains_key(d));
                    }
                }
            }
        }
    }

    /// Where the image of a run stands.
    fn position(&self, run_id: &str) -> (r: Option<usize>)
        requires
            self.wf(),
        ensures
            r is Some <==> self@.contains_key(run_id@),
            r matches Some(i) ==> i < self.entries@.len() && self.entries@[i as int].run_id@
                == run_id@,
    {
        proof {
            lemma_entries(self.entries@);
        }
        let mut i: usize = 0;
        while i < self.entries.len()
            invariant
                i <= self.entries@.len(),
                forall|k: int| 0 <= k < i ==> (#[trigger] self.entries@[k]).run_id@ != run_id@,
                forall|k: int|
                    0 <= k < self.entries@.len() ==> self@.contains_key(
                        (#[trigger] self.entries@[k]).run_id@,
                    ),
            decreases self.entries@.len() - i,
        {
            if same_text(&self.entries[i].run_id, run_id) {
                return Some(i);
            }
            i += 1;
        }
        None
    }

    /// Takes the image at a position out.
    fn take_out(&mut self, i: usize) -> (r: Entry)
        requires
            distinct_runs(old(self).entries@),
            i < old(self).entries@.len(),
        ensures
            distinct_runs(final(self).entries@),
            final(self).entries@ == old(self).entries@.remove(i as int),
            r == old(self).entries@[i as int],
            final(self)@ == old(self)@.remove(r.run_id@),
    {
        let ghost all = self.entries@;
        let r = self.entries.remove(i);
        proof {
            let rest = self.entries@;
            assert(rest == all.remove(i as int));
            assert forall|a: int| 0 <= a < rest.len() implies (#[trigger] rest[a]) == all[if a < i {
                a
            } else {
                a + 1
            }] by {}
            assert(distinct_runs(rest)) by {
                assert forall|a: int, b: int| 0 <= a < b < rest.len() implies (#[trigger] rest[a]).run_id@
                    != (#[trigger] rest[b]).run_id@ by {
                    let x = if a < i {
                        a
                    } else {
                        a + 1
                    };
                    let y = if b < i {
                        b
                    } else {
                        b + 1
                    };
                    assert(all[x].run_id@ != all[y].run_id@);
                }
            }
            lemma_entries(all);
            lemma_entries(rest);
            let m = entries_map(all).remove(r.run_id@);
            assert forall|k: Seq<char>| #[trigger] m.contains_key(k) == entries_map(rest).contains_key(
                k,
            ) by {
                if m.contains_key(k) {
                    let a = choose|a: int| 0 <= a < all.len() && (#[trigger] all[a]).run_id@ == k;
                    assert(a != i);
                    assert(rest[if a < i {
                        a
                    } else {
                        a - 1
                    }] == all[a]);
                }
                if entries_map(rest).contains_key(k) {
                    let a = choose|a: int| 0 <= a < rest.len() && (#[trigger] rest[a]).run_id@ == k;
                    let x = if a < i {
                        a
                    } else {
                        a + 1
                    };
                    assert(all[x].run_id@ == k);
                    if x < i {
                        assert(all[x].run_id@ != all[i as int].run_id@);
                    } else {
                        assert(all[i as int].run_id@ != all[x].run_id@);
                    }
                }
            }
            assert forall|k: Seq<char>| #[trigger] m.contains_key(k) implies m[k] == entries_map(
                rest,
            )[k] by {
                let a = choose|a: int| 0 <= a < all.len() && (#[trigger] all[a]).run_id@ == k;
                assert(a != i);
                let y = if a < i {
                    a
                } else {
                    a - 1
                };
                assert(rest[y] == all[a]);
                assert(rest[y].run_id@ == k);
            }
            assert(entries_map(rest) =~= m);
        }
        r
    }

    /// Adds the image of a run that has none, behind the others.
    fn add_entry(&mut self, e: Entry)
        requires
            distinct_runs(old(self).entries@),
            !old(self)@.contains_key(e.run_id@),
        ensures
            distinct_runs(final(self).entries@),
            final(self).entries@ == old(self).entries@.push(e),
            final(self)@ == old(self)@.insert(e.run_id@, entry_view(e)),
    {
        let ghost all = self.entries@;
        proof {
            lemma_entries(all);
        }
        self.entries.push(e);
        proof {
            assert(self.entries@.drop_last() =~= all);
            assert(distinct_runs(self.entries@)) by {
                assert forall|a: int, b: int| 0 <= a < b < self.entries@.len() implies (
                #[trigger] self.entries@[a]).run_id@ != (#[trigger] self.entries@[b]).run_id@ by {
                    assert(all[a] == self.entries@[a]);
                    if b < all.len() {
                        assert(all[a].run_id@ != all[b].run_id@);
                    }
                }
            }
        }
    }

    /// The position of the oldest of the first `n` images.
    fn oldest_of(&self, n: usize) -> (r: usize)
        requires
            self.has_distinct_runs(),
            0 < n <= self.entries@.len(),
        ensures
            r < n,
            n == self.entries@.len() ==> is_oldest(self@, self.entries@[r as int].run_id@),
            n == self.entries@.len() - 1 ==> is_oldest(
                self@.remove(self.entries@.last().run_id@),
                self.entries@[r as int].run_id@,
            ),
    {
        let mut best: usize = 0;
        let mut i: usize = 1;
        while i < n
            invariant
                best < i <= n <= self.entries@.len(),
                forall|k: int|
                    0 <= k < i ==> self.entries@[best as int].last_access <= (
                    #[trigger] self.entries@[k]).last_access,
            decreases n - i,
        {
            if self.entries[i].last_access < self.entries[best].last_access {
                best = i;
            }
            i += 1;
        }
        proof {
            let all = self.entries@;
            lemma_entries(all);
            let last = all.len() - 1;
            let m = if n == all.len() {
                self@
            } else {
                self@.remove(all.last().run_id@)
            };
            let k = all[best as int].run_id@;
            if n >= last {
                if n == last {
                    assert(all[best as int].run_id@ != all[last].run_id@);
                }
                assert(m.contains_key(k));
                assert forall|j: Seq<char>| #[trigger] m.contains_key(j) implies m[k].last_access
                    <= m[j].last_access by {
                    let a = choose|a: int| 0 <= a < all.len() && (#[trigger] all[a]).run_id@ == j;
                    assert(a < n);
                    assert(all[best as int].last_access <= all[a].last_access);
                }
            }
        }
        best
    }

    /// Stores an image under a run id, in the place of any image it had. If that is one
    /// image too many, the one that was not accessed for longest goes.
    pub fn put(&mut self, run_id: &str, bytes: Vec<u8>, now: u128)
        requires
            old(self).wf(),
        ensures
            final(self).wf(),
            is_capped(
                live(old(self)@, now).insert(
                    run_id@,
                    (EntryView { bytes: bytes@, last_access: now }),
                ),
                run_id@,
                final(self)@,
            ),
    {
        let ghost shown = EntryView { bytes: bytes@, last_access: now };
        proof {
            lemma_entries(self.entries@);
            lemma_live_is_smaller(self@, now);
        }
        self.prune(now);
        let ghost kept = self@;
        if let Some(i) = self.position(run_id) {
            self.take_out(i);
        }
        assert(self@ =~= kept.remove(run_id@));
        let entry = Entry { run_id: String::from_str(run_id), bytes, last_access: now };
        self.add_entry(entry);
        assert(self@ =~= kept.insert(run_id@, shown));
        proof {
            lemma_entries(self.entries@);
        }
        if self.entries.len() > MAX_IMAGES {
            let n = self.entries.len() - 1;
            let i = self.oldest_of(n);
            let ghost m = self@;
            let ghost k = self.entries@[i as int].run_id@;
            self.take_out(i);
            assert(is_oldest(m.remove(run_id@), k) && self@ == m.remove(k));
        }
    }

    /// The image of a run, if there is one that has not expired. It stays for another
    /// while.
    pub fn get_refresh(&mut self, run_id: &str, now: u128) -> (r: Option<Vec<u8>>)
        requires
            old(self).wf(),
        ensures
            final(self).wf(),
            is_refreshed(old(self)@, run_id@, now, r, final(self)@),
    {
        proof {
            lemma_entries(self.entries@);
            lemma_live_is_smaller(self@, now);
        }
        self.prune(now);
        proof {
            lemma_entries(self.entries@);
        }
        let ghost kept = self@;
        if let Some(i) = self.position(run_id) {
            let mut entry = self.take_out(i);
            let bytes = copy_bytes(&entry.bytes);
            entry.last_access = now;
            self.add_entry(entry);
            assert(self@ =~= kept.insert(
                run_id@,
                (EntryView { bytes: bytes@, last_access: now }),
            ));
            Some(bytes)
        } else {
            None
        }
    }
}

// ---- Laws ----

/// An image that was stored is found until it expires, whatever had to go for it.
pub proof fn law_stored_image_is_found(
    m: Map<Seq<char>, EntryView>,
    run_id: Seq<char>,
    bytes: Seq<u8>,
    now: u128,
    stored: Map<Seq<char>, EntryView>,
    later: u128,
)
    requires
        is_capped(
            live(m, now).insert(run_id, (EntryView { bytes, last_access: now })),
            run_id,
            stored,
        ),
        age(now, later) < IMAGE_TTL,
    ensures
        live(stored, later).contains_key(run_id),
        live(stored, later)[run_id].bytes == bytes,
{
}

/// An image that was not accessed for the whole time to live is gone.
pub proof fn law_unused_image_expires(m: Map<Seq<char>, EntryView>, run_id: Seq<char>, now: u128)
    requires
        m.contains_key(run_id),
        age(m[run_id].last_access, now) >= IMAGE_TTL,
    ensures
        !live(m, now).contains_key(run_id),
{
}

/// Storing an image leaves the others alone: each is as it was, has expired, or was the
/// oldest of one too many.
pub proof fn law_storing_keeps_others(
    m: Map<Seq<char>, EntryView>,
    run_id: Seq<char>,
    e: EntryView,
    now: u128,
    stored: Map<Seq<char>, EntryView>,
    other: Seq<char>,
)
    requires
        is_capped(live(m, now).insert(run_id, e), run_id, stored),
        other != run_id,
        m.contains_key(other),
        is_live(m[other], now),
    ensures
        stored.contains_key(other) ==> stored[other] == m[other],
        !stored.contains_key(other) ==> is_oldest(live(m, now).insert(run_id, e).remove(run_id), other),
{
}

/// What is kept after storing an image is a part of the live images and the new one, each as it
/// was. All are kept where there are not too many, and else as many as may be, none of which
/// was accessed before one that is dropped. Only where the clock has gone back can the new
/// image be older than one that is dropped.
pub proof fn law_newest_images_are_kept(
    before: LiveImageStore,
    run_id: Seq<char>,
    e: EntryView,
    now: u128,
    stored: Map<Seq<char>, EntryView>,
)
    requires
        before.wf(),
        is_capped(live(before@, now).insert(run_id, e), run_id, stored),
    ensures
        ({
            let all = live(before@, now).insert(run_id, e);
            &&& all.dom().finite()
            &&& stored.dom().len() == if all.dom().len() <= MAX_IMAGES {
                all.dom().len()
            } else {
                MAX_IMAGES as nat
            }
            &&& all.dom().len() <= MAX_IMAGES ==> stored == all
            &&& forall|k: Seq<char>| #[trigger]
                stored.contains_key(k) ==> all.contains_key(k) && stored[k] == all[k]
            &&& forall|k: Seq<char>, d: Seq<char>|
                #![trigger stored.contains_key(k), all.contains_key(d)]
                stored.contains_key(k) && all.contains_key(d) && !stored.contains_key(d) && (k
                    != run_id || all[d].last_access <= e.last_access) ==> all[d].last_access
                    <= stored[k].last_access
        }),
{
    lemma_entries(before.entries@);
    let kept = live(before@, now);
    let all = kept.insert(run_id, e);
    lemma_live_is_smaller(before@, now);
    assert(all.dom() =~= kept.dom().insert(run_id));
    if all.dom().len() > MAX_IMAGES {
        let k = choose|k: Seq<char>| #[trigger]
            is_oldest(all.remove(run_id), k) && stored == all.remove(k);
        assert(stored.dom() =~= all.dom().remove(k));
        assert forall|j: Seq<char>, d: Seq<char>|
            #![trigger stored.contains_key(j), all.contains_key(d)]
            stored.contains_key(j) && all.contains_key(d) && !stored.contains_key(d) && (j
                != run_id || all[d].last_access <= e.last_access) implies all[d].last_access
            <= stored[j].last_access by {
            assert(d == k);
            if j != run_id {
                assert(all.remove(run_id).contains_key(j));
            }
        }
    }
}

/// An image is kept for five minutes after it was last used, and no longer, and a clock that went
/// back makes it no older.
pub proof fn law_images_live_five_minutes(
    m: Map<Seq<char>, EntryView>,
    run_id: Seq<char>,
    now: u128,
)
    requires
        m.contains_key(run_id),
    ensures
        live(m, now).contains_key(run_id) <==> now - m[run_id].last_access < 5 * 60 * 1_000_000_000,
        live(m, now).contains_key(run_id) ==> live(m, now)[run_id] == m[run_id],
        now <= m[run_id].last_access ==> live(m, now).contains_key(run_id),
        forall|k: Seq<char>| #[trigger] live(m, now).contains_key(k) ==> m.contains_key(k),
{
}

/// Pruning leaves sixteen images at most, drops none that is live while there are no more than
/// that, and else drops only those that were used longest ago.
pub proof fn law_pruning_keeps_sixteen(
    m: Map<Seq<char>, EntryView>,
    now: u128,
    r: Map<Seq<char>, EntryView>,
    k: Seq<char>,
    d: Seq<char>,
)
    requires
        is_pruned(m, now, r),
    ensures
        r.dom().len() <= 16,
        live(m, now).dom().len() <= 16 ==> r == live(m, now),
        live(m, now).dom().len() > 16 ==> r.dom().len() == 16,
        r.contains_key(k) ==> m.contains_key(k) && r[k] == m[k] && is_live(m[k], now),
        r.contains_key(k) && m.contains_key(d) && is_live(m[d], now) && !r.contains_key(d)
            ==> m[d].last_access <= r[k].last_access,
{
    if r.contains_key(k) {
        assert(live(m, now).contains_key(k));
    }
    if m.contains_key(d) && is_live(m[d], now) {
        assert(live(m, now).contains_key(d));
    }
}

/// Storing into a full store drops one image, and never the one that is stored.
pub proof fn law_stored_image_is_kept(
    m: Map<Seq<char>, EntryView>,
    keep: Seq<char>,
    r: Map<Seq<char>, EntryView>,
)
    requires
        m.contains_key(keep),
        is_capped(m, keep, r),
    ensures
        r.contains_key(keep) && r[keep] == m[keep],
        m.dom().len() <= 16 ==> r == m,
        m.dom().len() > 16 ==> exists|k: Seq<char>| k != keep && m.contains_key(k) && r == #[trigger] m.remove(k),
{
    if m.dom().len() > 16 {
        let k = choose|k: Seq<char>| #[trigger] is_oldest(m.remove(keep), k) && r == m.remove(k);
        assert(m.remove(keep).contains_key(k));
        assert(k != keep && m.contains_key(k) && r == m.remove(k));
    }
}

/// An image that is looked for and found counts as used: it is found again for five minutes from
/// then, with the same bytes. Looking for it leaves the other live images as they are.
pub proof fn law_use_keeps_an_image(
    m: Map<Seq<char>, EntryView>,
    run_id: Seq<char>,
    now: u128,
    r: Option<Vec<u8>>,
    stored: Map<Seq<char>, EntryView>,
    later: u128,
    other: Seq<char>,
)
    requires
        is_refreshed(m, run_id, now, r, stored),
    ensures
        r is Some <==> m.contains_key(run_id) && is_live(m[run_id], now),
        r matches Some(bytes) ==> bytes@ == m[run_id].bytes,
        r matches Some(bytes) ==> (later - now < 5 * 60 * 1_000_000_000 ==> live(
            stored,
            later,
        ).contains_key(run_id) && live(stored, later)[run_id].bytes == bytes@),
        r is None ==> !stored.contains_key(run_id),
        other != run_id ==> (stored.contains_key(other) <==> m.contains_key(other) && is_live(
            m[other],
            now,
        )),
        other != run_id && stored.contains_key(other) ==> stored[other] == m[other],
{
}

} // verus!
