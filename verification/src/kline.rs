//! Daily K-line records and the cache that holds fetched windows.
//!
//! The cache is keyed by symbol and window size. An entry is fresh for
//! five minutes after it was fetched. It holds at most a hundred entries:
//! when a new key arrives at a full cache, the entry fetched longest ago
//! makes room. Instants are nanoseconds on a clock that never goes back.

use crate::text::{
    chars_of,
    find_char,
    index_of_char,
    lemma_index_of_char,
    same_text,
    string_from,
    strings_seq,
};
use vstd::prelude::*;

verus! {

/// One daily bar as the quote service writes it: the date `YYYY-MM-DD` and
/// six decimal numbers, each kept as written.
#[derive(Debug, Clone)]
pub struct KlineBar {
    pub date: String,
    pub open: String,
    pub close: String,
    pub high: String,
    pub low: String,
    pub volume: String,
    pub amount: String,
}

/// The comma-separated fields of `s` from `from` on. A text without a
/// comma is one field; a comma at the end is followed by an empty field.
pub open spec fn fields_from(s: Seq<char>, from: int) -> Seq<Seq<char>>
    decreases s.len() - from,
{
    if !(0 <= from <= s.len()) {
        Seq::empty()
    } else {
        let end = index_of_char(s, ',', from);
        if end >= s.len() {
            seq![s.subrange(from, s.len() as int)]
        } else {
            proof {
                lemma_index_of_char(s, ',', from);
            }
            seq![s.subrange(from, end)] + fields_from(s, end + 1)
        }
    }
}

/// The comma-separated fields of a line.
pub fn split_fields(line: &str) -> (fields: Vec<String>)
    ensures
        strings_seq(fields@) == fields_from(line@, 0),
{
    let chars = chars_of(line);
    let mut fields: Vec<String> = Vec::new();
    let mut from: usize = 0;
    assert(strings_seq(fields@) + fields_from(chars@, 0) =~= fields_from(chars@, 0));
    loop
        invariant
            from <= chars.len(),
            chars@ == line@,
            strings_seq(fields@) + fields_from(chars@, from as int) == fields_from(chars@, 0),
        decreases chars.len() - from,
    {
        let end = find_char(&chars, ',', from);
        let ghost before = strings_seq(fields@);
        let field = string_from(&chars, from, end);
        let ghost value = field@;
        fields.push(field);
        assert(strings_seq(fields@) =~= before.push(value));
        if end >= chars.len() {
            assert(before.push(value) =~= before + fields_from(chars@, from as int));
            return fields;
        }
        assert(before.push(value) + fields_from(chars@, end + 1) =~= before + fields_from(
            chars@,
            from as int,
        ));
        from = end + 1;
    }
}

/// The bar that a line of the quote service stands for: its first seven
/// comma-separated fields, if it has that many.
pub fn parse_kline(line: &str) -> (bar: Option<KlineBar>)
    ensures
        bar is Some == (fields_from(line@, 0).len() >= 7),
        bar matches Some(b) ==> {
            let fields = fields_from(line@, 0);
            &&& b.date@ == fields[0]
            &&& b.open@ == fields[1]
            &&& b.close@ == fields[2]
            &&& b.high@ == fields[3]
            &&& b.low@ == fields[4]
            &&& b.volume@ == fields[5]
            &&& b.amount@ == fields[6]
        },
{
    let fields = split_fields(line);
    assert(strings_seq(fields@).len() == fields.len());
    if fields.len() < 7 {
        return None;
    }
    assert(forall|i: int| 0 <= i < fields.len() ==> strings_seq(fields@)[i] == fields@[i]@);
    Some(
        KlineBar {
            date: fields[0].clone(),
            open: fields[1].clone(),
            close: fields[2].clone(),
            high: fields[3].clone(),
            low: fields[4].clone(),
            volume: fields[5].clone(),
            amount: fields[6].clone(),
        },
    )
}

/// How long an entry stays fresh, in nanoseconds: five minutes.
pub const CACHE_TTL_NANOS: u64 = 300000000000;

/// The largest number of entries.
pub const MAX_CACHE_ENTRIES: usize = 100;

/// A cached window: its key, what was fetched, and when.
pub struct CacheEntry<V> {
    pub symbol: String,
    pub window: usize,
    pub value: V,
    pub fetched_at: u64,
}

/// The time from `fetched_at` to `now`; none if `now` is not later.
pub open spec fn age(fetched_at: u64, now: u64) -> int {
    if now >= fetched_at {
        now - fetched_at
    } else {
        0
    }
}

/// Whether an entry fetched at `fetched_at` is fresh at `now`.
pub open spec fn fresh(fetched_at: u64, now: u64) -> bool {
    age(fetched_at, now) < 300000000000
}

/// Whether an entry has the given key.
pub open spec fn has_key<V>(e: CacheEntry<V>, symbol: Seq<char>, window: usize) -> bool {
    e.symbol@ == symbol && e.window == window
}

/// The index of the first entry at or behind `from` with the given key.
pub open spec fn position_from<V>(
    entries: Seq<CacheEntry<V>>,
    symbol: Seq<char>,
    window: usize,
    from: int,
) -> Option<int>
    decreases entries.len() - from,
{
    if !(0 <= from < entries.len()) {
        None
    } else if has_key(entries[from], symbol, window) {
        Some(from)
    } else {
        position_from(entries, symbol, window, from + 1)
    }
}

/// The index of the entry with the given key.
pub open spec fn position_of<V>(
    entries: Seq<CacheEntry<V>>,
    symbol: Seq<char>,
    window: usize,
) -> Option<int> {
    position_from(entries, symbol, window, 0)
}

/// The index, among the first `n` entries, of the one fetched longest ago;
/// of several fetched at the same time, the first.
pub open spec fn oldest_in<V>(entries: Seq<CacheEntry<V>>, n: int) -> int
    decreases n,
{
    if n <= 1 || n > entries.len() {
        0
    } else {
        let best = oldest_in(entries, n - 1);
        if entries[n - 1].fetched_at < entries[best].fetched_at {
            n - 1
        } else {
            best
        }
    }
}

/// No two entries have the same key.
pub open spec fn distinct_keys<V>(entries: Seq<CacheEntry<V>>) -> bool {
    forall|i: int, j: int|
        0 <= i < j < entries.len() ==> !has_key(
            #[trigger] entries[i],
            (#[trigger] entries[j]).symbol@,
            entries[j].window,
        )
}

/// The entries after `e` is put in: in place of the entry with its key if
/// there is one; else at the end, after the oldest entry has left a full
/// cache.
pub open spec fn with_entry<V>(entries: Seq<CacheEntry<V>>, e: CacheEntry<V>) -> Seq<
    CacheEntry<V>,
> {
    match position_of(entries, e.symbol@, e.window) {
        Some(i) => entries.update(i, e),
        None => if entries.len() >= 100 {
            entries.remove(oldest_in(entries, entries.len() as int)).push(e)
        } else {
            entries.push(e)
        },
    }
}

/// The entry found for a key has that key and is the first that has it;
/// if none is found, no entry has the key.
pub proof fn lemma_position_from<V>(
    entries: Seq<CacheEntry<V>>,
    symbol: Seq<char>,
    window: usize,
    from: int,
)
    requires
        0 <= from <= entries.len(),
    ensures
        match position_from(entries, symbol, window, from) {
            Some(i) => from <= i < entries.len() && has_key(entries[i], symbol, window)
                && forall|k: int| from <= k < i ==> !has_key(#[trigger] entries[k], symbol, window),
            None => forall|k: int|
                from <= k < entries.len() ==> !has_key(#[trigger] entries[k], symbol, window),
        },
    decreases entries.len() - from,
{
    if from < entries.len() && !has_key(entries[from], symbol, window) {
        lemma_position_from(entries, symbol, window, from + 1);
    }
}

/// The oldest of the first `n` entries is one of them, and none of them
/// was fetched before it.
pub proof fn lemma_oldest_in<V>(entries: Seq<CacheEntry<V>>, n: int)
    requires
        1 <= n <= entries.len(),
    ensures
        0 <= oldest_in(entries, n) < n,
        forall|k: int|
            0 <= k < n ==> entries[oldest_in(entries, n)].fetched_at <= (
            #[trigger] entries[k]).fetched_at,
    decreases n,
{
    if n > 1 {
        lemma_oldest_in(entries, n - 1);
    }
}

/// A bounded cache of fetched windows.
pub struct KlineCache<V> {
    entries: Vec<CacheEntry<V>>,
}

impl<V> KlineCache<V> {
    /// The entries, in the order in which their keys arrived.
    pub closed spec fn entries(&self) -> Seq<CacheEntry<V>> {
        self.entries@
    }

    /// The cache holds at most a hundred entries, no two with the same key.
    pub open spec fn wf(&self) -> bool {
        self.entries().len() <= 100 && distinct_keys(self.entries())
    }

    /// An empty cache.
    pub fn new() -> (cache: Self)
        ensures
            cache.wf(),
            cache.entries().len() == 0,
    {
        KlineCache { entries: Vec::new() }
    }

    /// The number of entries.
    pub fn len(&self) -> (n: usize)
        ensures
            n == self.entries().len(),
    {
        self.entries.len()
    }

    fn index_of(&self, symbol: &str, window: usize) -> (r: Option<usize>)
        ensures
            match r {
                Some(i) => position_of(self.entries(), symbol@, window) == Some(i as int) && i
                    < self.entries.len(),
                None => position_of(self.entries(), symbol@, window) is None,
            },
    {
        let mut i: usize = 0;
        while i < self.entries.len()
            invariant
                i <= self.entries.len(),
                position_from(self.entries@, symbol@, window, i as int) == position_of(
                    self.entries@,
                    symbol@,
                    window,
                ),
            decreases self.entries.len() - i,
        {
            if self.entries[i].window == window && same_text(
                self.entries[i].symbol.as_str(),
                symbol,
            ) {
                return Some(i);
            }
            i += 1;
        }
        None
    }

    /// The cached window for a key, if there is one and it is fresh at
    /// `now`.
    pub fn get(&self, symbol: &str, window: usize, now: u64) -> (r: Option<&V>)
        ensures
            match position_of(self.entries(), symbol@, window) {
                Some(i) => if fresh(self.entries()[i].fetched_at, now) {
                    r == Some(&self.entries()[i].value)
                } else {
                    r is None
                },
                None => r is None,
            },
    {
        match self.index_of(symbol, window) {
            None => None,
            Some(i) => {
                let entry = &self.entries[i];
                let age = if now >= entry.fetched_at {
                    now - entry.fetched_at
                } else {
                    0
                };
                if age < CACHE_TTL_NANOS {
                    Some(&entry.value)
                } else {
                    None
                }
            },
        }
    }

    /// Puts a window fetched at `now` in the cache.
    pub fn insert(&mut self, symbol: String, window: usize, value: V, now: u64)
        requires
            old(self).wf(),
        ensures
            final(self).wf(),
            final(self).entries() == with_entry(
                old(self).entries(),
                CacheEntry { symbol, window, value, fetched_at: now },
            ),
    {
        let ghost before = self.entries@;
        let ghost key = symbol@;
        proof {
            lemma_position_from(before, key, window, 0);
        }
        let found = self.index_of(symbol.as_str(), window);
        let entry = CacheEntry { symbol, window, value, fetched_at: now };
        match found {
            Some(i) => {
                self.entries.set(i, entry);
            },
            None => {
                if self.entries.len() >= MAX_CACHE_ENTRIES {
                    let victim = self.oldest();
                    self.entries.remove(victim);
                }
                self.entries.push(entry);
            },
        }
    }

    /// The index of the entry fetched longest ago.
    fn oldest(&self) -> (r: usize)
        requires
            self.entries.len() >= 1,
        ensures
            r == oldest_in(self.entries(), self.entries.len() as int),
            r < self.entries.len(),
    {
        let mut best: usize = 0;
        let mut n: usize = 1;
        while n < self.entries.len()
            invariant
                1 <= n <= self.entries.len(),
                best == oldest_in(self.entries@, n as int),
                best < n,
            decreases self.entries.len() - n,
        {
            if self.entries[n].fetched_at < self.entries[best].fetched_at {
                best = n;
            }
            n += 1;
        }
        best
    }
}

/// A full cache makes room by dropping an entry that no other entry is
/// older than.
pub proof fn lemma_eviction_drops_oldest<V>(entries: Seq<CacheEntry<V>>, k: int)
    requires
        entries.len() >= 1,
        0 <= k < entries.len(),
    ensures
        entries[oldest_in(entries, entries.len() as int)].fetched_at <= entries[k].fetched_at,
{
    lemma_oldest_in(entries, entries.len() as int);
}

} // verus!
