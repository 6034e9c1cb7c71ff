//! The AUR lookup cache of one run: what is known of each name that was
//! ever asked for, so that no name is fetched twice.

use vstd::prelude::*;
use crate::names::{find_name, has_name, lemma_position, lemma_position_push, position};
use crate::package::{texts, AurPackage, AurPackageView};
use crate::protocol::{find_record, record_named, records_of};

verus! {

/// What the cache holds for a name.
#[derive(Debug)]
pub enum CacheEntry {
    /// A fetch was started and has not been answered yet.
    InFlight,
    /// The AUR has this record under the name.
    Found(AurPackage),
    /// The AUR has no package of that name.
    Missing,
    /// The fetch failed.
    Failed,
}

pub enum EntryView {
    InFlight,
    Found(AurPackageView),
    Missing,
    Failed,
}

impl View for CacheEntry {
    type V = EntryView;

    open spec fn view(&self) -> EntryView {
        match self {
            CacheEntry::InFlight => EntryView::InFlight,
            CacheEntry::Found(p) => EntryView::Found(p@),
            CacheEntry::Missing => EntryView::Missing,
            CacheEntry::Failed => EntryView::Failed,
        }
    }
}

/// What a caller is to do about a name.
#[derive(Debug)]
pub enum Lookup {
    /// Nothing was known: the caller performs the fetch and reports back.
    Fetch,
    /// A fetch is under way: the caller waits for its answer.
    Pending,
    /// The record is known.
    Found(AurPackage),
    /// The name is known not to exist.
    Missing,
    /// The fetch for the name is known to have failed.
    Failed,
}

pub enum LookupView {
    Fetch,
    Pending,
    Found(AurPackageView),
    Missing,
    Failed,
}

impl View for Lookup {
    type V = LookupView;

    open spec fn view(&self) -> LookupView {
        match self {
            Lookup::Fetch => LookupView::Fetch,
            Lookup::Pending => LookupView::Pending,
            Lookup::Found(p) => LookupView::Found(p@),
            Lookup::Missing => LookupView::Missing,
            Lookup::Failed => LookupView::Failed,
        }
    }
}

/// The cache as a map from names to what is known of them.
pub type CacheView = Map<Seq<char>, EntryView>;

/// What a lookup of `name` answers on cache `m`.
pub open spec fn lookup_answer(m: CacheView, name: Seq<char>) -> LookupView {
    if !m.dom().contains(name) {
        LookupView::Fetch
    } else {
        match m[name] {
            EntryView::InFlight => LookupView::Pending,
            EntryView::Found(p) => LookupView::Found(p),
            EntryView::Missing => LookupView::Missing,
            EntryView::Failed => LookupView::Failed,
        }
    }
}

/// The cache after a lookup of `name`: a name that was not known is now in
/// flight, and nothing else changes.
pub open spec fn after_lookup(m: CacheView, name: Seq<char>) -> CacheView {
    if m.dom().contains(name) {
        m
    } else {
        m.insert(name, EntryView::InFlight)
    }
}

/// The entry that the answer to a fetch leaves.
pub open spec fn answer_entry(answer: Option<AurPackage>) -> EntryView {
    match answer {
        Some(p) => EntryView::Found(p@),
        None => EntryView::Missing,
    }
}

/// The names of one run with what is known of each.
#[derive(Debug)]
pub struct AurCache {
    pub names: Vec<String>,
    pub entries: Vec<CacheEntry>,
}

impl View for AurCache {
    type V = CacheView;

    open spec fn view(&self) -> CacheView {
        Map::new(
            |n: Seq<char>| has_name(texts(self.names@), n),
            |n: Seq<char>| self.entries@[position(texts(self.names@), n)]@,
        )
    }
}

impl AurCache {
    /// Each name has one entry.
    pub open spec fn wf(&self) -> bool {
        self.names@.len() == self.entries@.len()
    }

    /// An empty cache.
    pub fn new() -> (r: AurCache)
        ensures
            r.wf(),
            r@ == Map::<Seq<char>, EntryView>::empty(),
    {
        let r = AurCache { names: Vec::new(), entries: Vec::new() };
        proof {
            assert forall|n: Seq<char>| !has_name(texts(r.names@), n) by {
                lemma_position(texts(r.names@), n);
            }
            assert(r@ =~= Map::<Seq<char>, EntryView>::empty());
        }
        r
    }

    /// Tells whether anything is known of `name`, a fetch under way
    /// included.
    pub fn knows(&self, name: &String) -> (r: bool)
        requires
            self.wf(),
        ensures
            r == self@.dom().contains(name@),
    {
        find_name(&self.names, name).is_some()
    }

    /// Puts `entry` under `name`, in place of what was there.
    fn put(&mut self, name: &String, entry: CacheEntry)
        requires
            old(self).wf(),
        ensures
            final(self).wf(),
            final(self)@ == old(self)@.insert(name@, entry@),
    {
        let ghost before = texts(self.names@);
        let ghost old_entries = self.entries@;
        let ghost ev = entry@;
        match find_name(&self.names, name) {
            Some(i) => {
                proof {
                    lemma_position(before, name@);
                }
                self.entries.set(i, entry);
                proof {
                    assert(texts(self.names@) == before);
                    assert(self.entries@ == old_entries.update(i as int, self.entries@[i as int]));
                    assert(self.entries@[i as int]@ == ev);
                    assert forall|n: Seq<char>| has_name(before, n) && n != name@ implies position(
                        before,
                        n,
                    ) != i by {
                        lemma_position(before, n);
                    }
                    let want = old(self)@.insert(name@, ev);
                    assert forall|n: Seq<char>| want.dom().contains(n) implies #[trigger] self@[n]
                        == want[n] by {
                        lemma_position(before, n);
                    }
                    assert(self@ =~= want);
                }
            },
            None => {
                self.names.push(name.clone());
                self.entries.push(entry);
                proof {
                    assert(texts(self.names@) =~= before.push(name@));
                    assert forall|n: Seq<char>|
                        has_name(texts(self.names@), n) == (has_name(before, n) || n == name@) by {
                        lemma_position_push(before, name@, n);
                        lemma_position(before, n);
                    }
                    assert forall|n: Seq<char>| has_name(before, n) implies self.entries@[position(
                        texts(self.names@),
                        n,
                    )] == old_entries[position(before, n)] by {
                        lemma_position_push(before, name@, n);
                        lemma_position(before, n);
                    }
                    lemma_position_push(before, name@, name@);
                    assert(self@ =~= old(self)@.insert(name@, ev));
                }
            },
        }
    }

    /// Looks `name` up. A name of which nothing is known is marked as being
    /// fetched, and the caller is told to fetch it; every later lookup of
    /// that name is answered from the cache.
    pub fn get_or_fetch(&mut self, name: &String) -> (r: Lookup)
        requires
            old(self).wf(),
        ensures
            final(self).wf(),
            r@ == lookup_answer(old(self)@, name@),
            final(self)@ == after_lookup(old(self)@, name@),
    {
        match find_name(&self.names, name) {
            Some(i) => {
                proof {
                    lemma_position(texts(self.names@), name@);
                }
                match &self.entries[i] {
                    CacheEntry::InFlight => Lookup::Pending,
                    CacheEntry::Found(p) => Lookup::Found(p.duplicate()),
                    CacheEntry::Missing => Lookup::Missing,
                    CacheEntry::Failed => Lookup::Failed,
                }
            },
            None => {
                self.put(name, CacheEntry::InFlight);
                Lookup::Fetch
            },
        }
    }

    /// Records the answer to a fetch of `name`: the record, or that there is
    /// none.
    pub fn store(&mut self, name: &String, answer: Option<AurPackage>)
        requires
            old(self).wf(),
        ensures
            final(self).wf(),
            final(self)@ == old(self)@.insert(name@, answer_entry(answer)),
    {
        match answer {
            Some(p) => self.put(name, CacheEntry::Found(p)),
            None => self.put(name, CacheEntry::Missing),
        }
    }

    /// Records that the fetch of `name` failed.
    pub fn fail(&mut self, name: &String)
        requires
            old(self).wf(),
        ensures
            final(self).wf(),
            final(self)@ == old(self)@.insert(name@, EntryView::Failed),
    {
        self.put(name, CacheEntry::Failed);
    }
}

/// The names from index `from` on that are to be fetched when the cache is
/// `m`: those of which nothing is known, each once, in their order.
pub open spec fn to_fetch(m: CacheView, names: Seq<Seq<char>>, from: int) -> Seq<Seq<char>>
    decreases names.len() - from,
{
    if from < 0 || from >= names.len() {
        Seq::empty()
    } else if m.dom().contains(names[from]) {
        to_fetch(m, names, from + 1)
    } else {
        seq![names[from]] + to_fetch(after_lookup(m, names[from]), names, from + 1)
    }
}

/// The cache `m` after a lookup of each of the names from index `from` on.
pub open spec fn after_lookups(m: CacheView, names: Seq<Seq<char>>, from: int) -> CacheView
    decreases names.len() - from,
{
    if from < 0 || from >= names.len() {
        m
    } else {
        after_lookups(after_lookup(m, names[from]), names, from + 1)
    }
}

/// What one answer of the AUR leaves for `name`: the first record of that
/// name, or that there is none.
pub open spec fn record_entry(records: Seq<AurPackageView>, name: Seq<char>) -> EntryView {
    match record_named(records, name) {
        Some(record) => EntryView::Found(record),
        None => EntryView::Missing,
    }
}

/// The cache `m` after the answer `records` to a request for the names from
/// index `from` on was stored.
pub open spec fn after_answer(
    m: CacheView,
    names: Seq<Seq<char>>,
    records: Seq<AurPackageView>,
    from: int,
) -> CacheView
    decreases names.len() - from,
{
    if from < 0 || from >= names.len() {
        m
    } else {
        after_answer(
            m.insert(names[from], record_entry(records, names[from])),
            names,
            records,
            from + 1,
        )
    }
}

impl AurCache {
    /// Looks up all of `names` at once and hands out those that are to be
    /// fetched, in one request: the names of which nothing was known, each
    /// once. They are marked as being fetched.
    pub fn batch(&mut self, names: &Vec<String>) -> (r: Vec<String>)
        requires
            old(self).wf(),
        ensures
            final(self).wf(),
            texts(r@) == to_fetch(old(self)@, texts(names@), 0),
            final(self)@ == after_lookups(old(self)@, texts(names@), 0),
    {
        let ghost all = texts(names@);
        let mut r: Vec<String> = Vec::new();
        let mut i: usize = 0;
        proof {
            assert(texts(r@) =~= Seq::<Seq<char>>::empty());
            assert(texts(r@) + to_fetch(self@, all, 0) =~= to_fetch(self@, all, 0));
        }
        while i < names.len()
            invariant
                0 <= i <= names@.len(),
                all == texts(names@),
                self.wf(),
                texts(r@) + to_fetch(self@, all, i as int) == to_fetch(old(self)@, all, 0),
                after_lookups(self@, all, i as int) == after_lookups(old(self)@, all, 0),
            decreases names@.len() - i,
        {
            proof {
                assert(all[i as int] == names@[i as int]@);
            }
            let ghost m = self@;
            match self.get_or_fetch(&names[i]) {
                Lookup::Fetch => {
                    let ghost before = texts(r@);
                    r.push(names[i].clone());
                    proof {
                        let one = seq![all[i as int]];
                        assert(texts(r@) =~= before + one);
                        assert((before + one) + to_fetch(self@, all, i + 1) =~= before + (one
                            + to_fetch(self@, all, i + 1)));
                    }
                },
                _ => {},
            }
            i = i + 1;
        }
        proof {
            assert(texts(r@) + Seq::<Seq<char>>::empty() =~= texts(r@));
        }
        r
    }

    /// Stores the AUR's answer to a request for `names`: for each name its
    /// record, or that there is none.
    pub fn store_all(&mut self, names: &Vec<String>, records: &Vec<AurPackage>)
        requires
            old(self).wf(),
        ensures
            final(self).wf(),
            final(self)@ == after_answer(old(self)@, texts(names@), records_of(records@), 0),
    {
        let ghost all = texts(names@);
        let ghost recs = records_of(records@);
        let mut i: usize = 0;
        while i < names.len()
            invariant
                0 <= i <= names@.len(),
                all == texts(names@),
                recs == records_of(records@),
                self.wf(),
                after_answer(self@, all, recs, i as int) == after_answer(old(self)@, all, recs, 0),
            decreases names@.len() - i,
        {
            proof {
                assert(all[i as int] == names@[i as int]@);
            }
            let found: Option<AurPackage> = find_record(records, &names[i]);
            self.store(&names[i], found);
            i = i + 1;
        }
    }
}

/// A batch asks for no name that is known and for no name twice, and leaves
/// every name that was looked up known, together with all that was known
/// before.
pub proof fn lemma_batch_asks_once(m: CacheView, names: Seq<Seq<char>>, from: int)
    requires
        0 <= from <= names.len(),
    ensures
        forall|k: int|
            0 <= k < to_fetch(m, names, from).len() ==> !m.dom().contains(
                #[trigger] to_fetch(m, names, from)[k],
            ),
        crate::names::distinct_names(to_fetch(m, names, from)),
        forall|j: int|
            from <= j < names.len() ==> after_lookups(m, names, from).dom().contains(
                #[trigger] names[j],
            ),
        forall|n: Seq<char>|
            m.dom().contains(n) ==> #[trigger] after_lookups(m, names, from).dom().contains(n),
    decreases names.len() - from,
{
    if from < names.len() {
        let x = names[from];
        if m.dom().contains(x) {
            lemma_batch_asks_once(m, names, from + 1);
        } else {
            let next = after_lookup(m, x);
            lemma_batch_asks_once(next, names, from + 1);
            let tail = to_fetch(next, names, from + 1);
            let all = to_fetch(m, names, from);
            assert(all == seq![x] + tail);
            assert forall|k: int| 0 <= k < all.len() implies !m.dom().contains(
                #[trigger] all[k],
            ) by {
                if k > 0 {
                    assert(all[k] == tail[k - 1]);
                    assert(!next.dom().contains(tail[k - 1]));
                }
            }
            assert forall|i: int, j: int| 0 <= i < j < all.len() implies all[i] != all[j] by {
                assert(all[j] == tail[j - 1]);
                assert(!next.dom().contains(tail[j - 1]));
                if i > 0 {
                    assert(all[i] == tail[i - 1]);
                }
            }
            assert(next.dom().contains(x));
            assert forall|n: Seq<char>| m.dom().contains(n) implies #[trigger] after_lookups(
                m,
                names,
                from,
            ).dom().contains(n) by {
                assert(next.dom().contains(n));
            }
        }
    }
}

/// A name is fetched at most once: the lookup that asks for the fetch makes
/// the name known, and a known name stays known, and is never asked to be
/// fetched again, through every later lookup, answer or failure of whatever
/// name.
pub proof fn lemma_fetch_at_most_once(
    m: CacheView,
    name: Seq<char>,
    other: Seq<char>,
    entry: EntryView,
)
    ensures
        lookup_answer(m, name) is Fetch <==> !m.dom().contains(name),
        after_lookup(m, name).dom().contains(name),
        !(lookup_answer(after_lookup(m, name), name) is Fetch),
        m.dom().contains(name) ==> after_lookup(m, other).dom().contains(name),
        m.dom().contains(name) ==> m.insert(other, entry).dom().contains(name),
{
}

} // verus!
