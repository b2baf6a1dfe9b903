use vstd::prelude::*;

verus! {

/// Largest number of entries that insertion keeps.
pub const CACHE_LIMIT: usize = 10;

/// A prompt and the response that was received for it, as mathematical text.
pub type EntryView = (Seq<char>, Seq<char>);

/// One cached request: the full prompt text and the verbatim response.
#[derive(Debug)]
pub struct CacheEntry {
    pub prompt: String,
    pub response: String,
}

impl View for CacheEntry {
    type V = EntryView;

    open spec fn view(&self) -> EntryView {
        (self.prompt@, self.response@)
    }
}

/// Entries in insertion order: the oldest first, the newest last.
#[derive(Debug)]
pub struct Cache {
    pub entries: Vec<CacheEntry>,
}

impl View for Cache {
    type V = Seq<EntryView>;

    open spec fn view(&self) -> Seq<EntryView> {
        self.entries@.map_values(|e: CacheEntry| e@)
    }
}

/// The entries after inserting `e`: when the cache holds `CACHE_LIMIT` or more
/// entries the oldest one is dropped, then `e` goes to the end.
pub open spec fn inserted(s: Seq<EntryView>, e: EntryView) -> Seq<EntryView> {
    if s.len() >= CACHE_LIMIT {
        s.drop_first().push(e)
    } else {
        s.push(e)
    }
}

/// The entries after inserting each of `items` in turn.
pub open spec fn inserted_all(s: Seq<EntryView>, items: Seq<EntryView>) -> Seq<EntryView>
    decreases items.len(),
{
    if items.len() == 0 {
        s
    } else {
        inserted(inserted_all(s, items.drop_last()), items.last())
    }
}

/// `i` is the position of the first entry whose prompt is `p`.
pub open spec fn first_match_at(s: Seq<EntryView>, p: Seq<char>, i: int) -> bool {
    0 <= i < s.len() && s[i].0 == p && forall|j: int| 0 <= j < i ==> s[j].0 != p
}

/// The response of the first (oldest) entry whose prompt is `p`, if any.
pub open spec fn lookup_spec(s: Seq<EntryView>, p: Seq<char>) -> Option<Seq<char>> {
    if exists|i: int| 0 <= i < s.len() && s[i].0 == p {
        let i = choose|i: int| first_match_at(s, p, i);
        Some(s[i].1)
    } else {
        None
    }
}

/// A search that stops at the first match finds exactly what `lookup_spec` names.
proof fn lemma_first_match(s: Seq<EntryView>, p: Seq<char>, i: int)
    requires
        first_match_at(s, p, i),
    ensures
        lookup_spec(s, p) == Some(s[i].1),
{
    assert(exists|k: int| 0 <= k < s.len() && s[k].0 == p);
    let k = choose|k: int| first_match_at(s, p, k);
    assert(first_match_at(s, p, k));
    assert(k == i) by {
        if k < i {
            assert(s[k].0 != p);
        }
        if i < k {
            assert(s[i].0 != p);
        }
    }
}

/// Where the window of kept entries starts among `n` entries inserted in turn.
pub open spec fn window_start(n: int) -> int {
    if n > CACHE_LIMIT {
        n - CACHE_LIMIT
    } else {
        0
    }
}

/// From a cache within its bound, inserting `items` keeps exactly the last
/// `CACHE_LIMIT` entries of the old entries followed by `items`, in order.
pub proof fn lemma_window(s: Seq<EntryView>, items: Seq<EntryView>)
    requires
        s.len() <= CACHE_LIMIT,
    ensures
        inserted_all(s, items) == (s + items).subrange(
            window_start((s.len() + items.len()) as int),
            (s.len() + items.len()) as int,
        ),
    decreases items.len(),
{
    let n: int = (s.len() + items.len()) as int;
    if items.len() == 0 {
        assert(s + items =~= s);
        assert((s + items).subrange(0, n) =~= s);
    } else {
        let d = items.drop_last();
        let e = items.last();
        lemma_window(s, d);
        let prev = (s + d).subrange(window_start(n - 1), n - 1);
        assert(inserted_all(s, items) == inserted(prev, e));
        assert(forall|k: int| 0 <= k < n - 1 ==> (s + d)[k] == (s + items)[k]);
        assert((s + items)[n - 1] == e);
        if n - 1 >= CACHE_LIMIT {
            assert(prev.drop_first().push(e) =~= (s + items).subrange(n - CACHE_LIMIT, n));
        } else {
            assert(prev.push(e) =~= (s + items).subrange(0, n));
        }
    }
}

/// Bounded size: from a cache within its bound, any sequence of insertions
/// leaves at most `CACHE_LIMIT` entries (every prefix of `items` is itself
/// such a sequence, so this holds after each insertion).
pub proof fn lemma_size_bounded(s: Seq<EntryView>, items: Seq<EntryView>)
    requires
        s.len() <= CACHE_LIMIT,
    ensures
        inserted_all(s, items).len() <= CACHE_LIMIT,
{
    lemma_window(s, items);
}

/// FIFO eviction: inserting `CACHE_LIMIT + 1` distinct entries into an empty
/// cache keeps the second through the last, in insertion order; the first is gone.
pub proof fn lemma_fifo_eviction(items: Seq<EntryView>)
    requires
        items.len() == CACHE_LIMIT + 1,
        forall|i: int, j: int| 0 <= i < j < items.len() ==> items[i] != items[j],
    ensures
        inserted_all(Seq::empty(), items) == items.subrange(1, CACHE_LIMIT + 1),
        !inserted_all(Seq::empty(), items).contains(items[0]),
{
    let empty = Seq::<EntryView>::empty();
    lemma_window(empty, items);
    assert(empty + items =~= items);
    let w = items.subrange(1, CACHE_LIMIT + 1);
    if w.contains(items[0]) {
        let k = choose|k: int| 0 <= k < w.len() && w[k] == items[0];
        assert(items[k + 1] == items[0]);
    }
}

/// Lookup correctness: after inserting `(p, r)` into a cache that holds no
/// entry for `p`, and then fewer than `CACHE_LIMIT` further entries (so that
/// `(p, r)` is not evicted), looking up `p` gives `r`.
pub proof fn lemma_lookup_after_insert(
    s: Seq<EntryView>,
    p: Seq<char>,
    r: Seq<char>,
    later: Seq<EntryView>,
)
    requires
        s.len() <= CACHE_LIMIT,
        lookup_spec(s, p) is None,
        later.len() < CACHE_LIMIT,
    ensures
        lookup_spec(inserted_all(inserted(s, (p, r)), later), p) == Some(r),
{
    let all = seq![(p, r)] + later;
    lemma_inserted_all_append(s, (p, r), later);
    lemma_window(s, all);
    let full = s + all;
    let n: int = (s.len() + all.len()) as int;
    let st = window_start(n);
    let w = full.subrange(st, n);
    let i = s.len() - st;
    assert(full[s.len() as int] == (p, r));
    assert(w[i] == (p, r));
    assert forall|j: int| 0 <= j < i implies w[j].0 != p by {
        assert(w[j] == s[st + j]);
        if s[st + j].0 == p {
            assert(exists|k: int| 0 <= k < s.len() && s[k].0 == p);
        }
    }
    lemma_first_match(w, p, i);
}

/// Inserting one entry and then `later` is inserting `[e] + later`.
proof fn lemma_inserted_all_append(s: Seq<EntryView>, e: EntryView, later: Seq<EntryView>)
    ensures
        inserted_all(inserted(s, e), later) == inserted_all(s, seq![e] + later),
    decreases later.len(),
{
    let all = seq![e] + later;
    if later.len() == 0 {
        assert(all.drop_last() =~= Seq::<EntryView>::empty());
        assert(inserted_all(s, all.drop_last()) == s);
    } else {
        lemma_inserted_all_append(s, e, later.drop_last());
        assert(all.drop_last() =~= seq![e] + later.drop_last());
        assert(all.last() == later.last());
    }
}

/// Lookup miss: when no entry of the cache and none of the inserted items has
/// the prompt `p`, looking up `p` finds nothing.
pub proof fn lemma_lookup_miss(s: Seq<EntryView>, p: Seq<char>, items: Seq<EntryView>)
    requires
        s.len() <= CACHE_LIMIT,
        lookup_spec(s, p) is None,
        forall|i: int| 0 <= i < items.len() ==> items[i].0 != p,
    ensures
        lookup_spec(inserted_all(s, items), p) is None,
{
    lemma_window(s, items);
    let full = s + items;
    let n: int = (s.len() + items.len()) as int;
    let w = full.subrange(window_start(n), n);
    if exists|k: int| 0 <= k < w.len() && w[k].0 == p {
        let k = choose|k: int| 0 <= k < w.len() && w[k].0 == p;
        let m = window_start(n) + k;
        assert(full[m] == w[k]);
        if m < s.len() {
            assert(s[m].0 == p);
        } else {
            assert(items[m - s.len()].0 == p);
        }
    }
}

/// Eviction ignores lookups: from a non-empty cache within its bound, inserting
/// just enough entries to overflow it once evicts the oldest entry and keeps
/// the rest in order. Looking an entry up (`Cache::lookup` takes `&self`)
/// changes nothing of this.
pub proof fn lemma_evicts_oldest(s: Seq<EntryView>, items: Seq<EntryView>)
    requires
        1 <= s.len() <= CACHE_LIMIT,
        s.len() + items.len() == CACHE_LIMIT + 1,
    ensures
        inserted_all(s, items) == s.drop_first() + items,
{
    lemma_window(s, items);
    assert((s + items).subrange(1, CACHE_LIMIT + 1) =~= s.drop_first() + items);
}

impl Cache {
    /// An empty cache.
    pub fn new() -> (r: Cache)
        ensures
            r@ == Seq::<EntryView>::empty(),
    {
        let r = Cache { entries: Vec::new() };
        assert(r@ =~= Seq::<EntryView>::empty());
        r
    }

    /// Number of entries held.
    pub fn len(&self) -> (r: usize)
        ensures
            r == self@.len(),
    {
        self.entries.len()
    }

    /// Appends a new entry; when `CACHE_LIMIT` or more entries are held, the
    /// oldest one is removed first. Prompts are not deduplicated.
    pub fn add_entry(&mut self, prompt: String, response: String)
        ensures
            final(self)@ == inserted(old(self)@, (prompt@, response@)),
            old(self)@.len() < CACHE_LIMIT ==> final(self)@.len() == old(self)@.len() + 1,
            old(self)@.len() >= CACHE_LIMIT ==> final(self)@.len() == old(self)@.len(),
    {
        let ghost s = self@;
        if self.entries.len() >= CACHE_LIMIT {
            let _oldest = self.entries.remove(0);
        }
        self.entries.push(CacheEntry { prompt, response });
        proof {
            if s.len() >= CACHE_LIMIT {
                assert(self@ =~= s.drop_first().push((prompt@, response@)));
            } else {
                assert(self@ =~= s.push((prompt@, response@)));
            }
        }
    }

    /// The response of the first (oldest) entry whose prompt equals `prompt`,
    /// compared character by character. The cache is left as it is.
    pub fn lookup(&self, prompt: &String) -> (r: Option<String>)
        ensures
            r matches Some(x) ==> lookup_spec(self@, prompt@) == Some(x@),
            r is None ==> lookup_spec(self@, prompt@) is None,
            r matches Some(x) ==> exists|i: int|
                first_match_at(self@, prompt@, i) && x@ == #[trigger] self@[i].1,
            r is None <==> forall|i: int| 0 <= i < self@.len() ==> #[trigger] self@[i].0 != prompt@,
    {
        let mut i: usize = 0;
        while i < self.entries.len()
            invariant
                i <= self.entries.len(),
                forall|j: int| 0 <= j < i ==> self@[j].0 != prompt@,
            decreases self.entries.len() - i,
        {
            if self.entries[i].prompt == *prompt {
                proof {
                    lemma_first_match(self@, prompt@, i as int);
                }
                return Some(self.entries[i].response.clone());
            }
            i += 1;
        }
        None
    }
}

} // verus!
