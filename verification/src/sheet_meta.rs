//! Per-chart annotations collected from the community pattern sheets.
use vstd::prelude::*;
use vstd::string::*;
use crate::model::{Difficulty, Mode};
use crate::text::{without_white, contains_str, occurs_at, seq_contains, seq_starts_with, starts_with_str, str_eq, trim_to_string, trimmed};
use crate::wrappers::{str_to_lowercase, unicode_lowercase};
use crate::recommend::remove_white;

verus! {

/// Whether the chart is commonly played with a random modifier, and which.
#[derive(Copy, Clone, Debug, PartialEq, Eq, Structural)]
pub enum GoldMeta {
    Unmarked,
    HalfRandom,
    MaxRandom,
    Random,
}

/// Whether the chart needs the auxiliary keys.
#[derive(Copy, Clone, Debug, PartialEq, Eq, Structural)]
pub enum AssistMeta {
    Unmarked,
    Used,
    Caution,
    NotUsed,
}

/// The label that the cache file gives a random-modifier mark.
pub open spec fn gold_label(g: GoldMeta) -> Seq<char> {
    match g {
        GoldMeta::Unmarked => seq![],
        GoldMeta::HalfRandom => seq!['핲', '랜'],
        GoldMeta::MaxRandom => seq!['맥', '랜'],
        GoldMeta::Random => seq!['랜', '덤'],
    }
}

/// The label that the cache file gives an assist-key mark.
pub open spec fn assist_label(a: AssistMeta) -> Seq<char> {
    match a {
        AssistMeta::Unmarked => seq![],
        AssistMeta::Used => seq!['사', '용'],
        AssistMeta::Caution => seq!['주', '의'],
        AssistMeta::NotUsed => seq!['미', '사', '용'],
    }
}

impl GoldMeta {
    /// Whether nothing is marked.
    pub fn is_none(&self) -> (r: bool)
        ensures
            r == (*self == GoldMeta::Unmarked),
    {
        matches!(self, GoldMeta::Unmarked)
    }

    /// The label the sheets and the cache file use.
    pub fn as_str(&self) -> (r: &'static str)
        ensures
            r@ == gold_label(*self),
    {
        match self {
            GoldMeta::Unmarked => {
                proof {
                    reveal_strlit("");
                }
                ""
            },
            GoldMeta::HalfRandom => {
                proof {
                    reveal_strlit("핲랜");
                }
                "핲랜"
            },
            GoldMeta::MaxRandom => {
                proof {
                    reveal_strlit("맥랜");
                }
                "맥랜"
            },
            GoldMeta::Random => {
                proof {
                    reveal_strlit("랜덤");
                }
                "랜덤"
            },
        }
    }
}

impl AssistMeta {
    /// Whether nothing is marked.
    pub fn is_none(&self) -> (r: bool)
        ensures
            r == (*self == AssistMeta::Unmarked),
    {
        matches!(self, AssistMeta::Unmarked)
    }

    /// The label the sheets and the cache file use.
    pub fn as_str(&self) -> (r: &'static str)
        ensures
            r@ == assist_label(*self),
    {
        match self {
            AssistMeta::Unmarked => {
                proof {
                    reveal_strlit("");
                }
                ""
            },
            AssistMeta::Used => {
                proof {
                    reveal_strlit("사용");
                }
                "사용"
            },
            AssistMeta::Caution => {
                proof {
                    reveal_strlit("주의");
                }
                "주의"
            },
            AssistMeta::NotUsed => {
                proof {
                    reveal_strlit("미사용");
                }
                "미사용"
            },
        }
    }
}

/// Annotations of one chart.
#[derive(Debug, PartialEq, Eq)]
pub struct PatternSheetMetaItem {
    pub gold: GoldMeta,
    pub note: String,
    pub assist_key: AssistMeta,
    pub keypart: bool,
}

/// Plain-value model of an annotation.
pub struct MetaView {
    pub gold: GoldMeta,
    pub note: Seq<char>,
    pub assist_key: AssistMeta,
    pub keypart: bool,
}

impl View for PatternSheetMetaItem {
    type V = MetaView;

    open spec fn view(&self) -> MetaView {
        MetaView { gold: self.gold, note: self.note@, assist_key: self.assist_key, keypart: self.keypart }
    }
}

/// The annotation that says nothing.
pub open spec fn empty_meta() -> MetaView {
    MetaView { gold: GoldMeta::Unmarked, note: Seq::empty(), assist_key: AssistMeta::Unmarked, keypart: false }
}

impl PatternSheetMetaItem {
    /// An annotation that says nothing.
    pub fn empty() -> (r: PatternSheetMetaItem)
        ensures
            r@ == empty_meta(),
    {
        PatternSheetMetaItem { gold: GoldMeta::Unmarked, note: String::new(), assist_key: AssistMeta::Unmarked, keypart: false }
    }

    /// A copy of the annotation.
    pub fn duplicate(&self) -> (r: PatternSheetMetaItem)
        ensures
            r@ == self@,
    {
        PatternSheetMetaItem { gold: self.gold, note: self.note.clone(), assist_key: self.assist_key, keypart: self.keypart }
    }

    /// Whether the annotation says anything at all.
    pub fn has_content(&self) -> (r: bool)
        ensures
            r == (self.gold != GoldMeta::Unmarked || self@.note.len() > 0 || self.assist_key
                != AssistMeta::Unmarked || self.keypart),
    {
        !self.gold.is_none() || !self.note.as_str().is_empty() || !self.assist_key.is_none() || self.keypart
    }
}

/// `!value`, the test that leaves `keypart: false` out of the cache file.
pub fn is_false(val: &bool) -> (r: bool)
    ensures
        r == !*val,
{
    !*val
}

/// One stored annotation with the chart it belongs to.
pub struct PatternMetaEntry {
    pub song_id: String,
    pub mode: Mode,
    pub diff: Difficulty,
    pub meta: PatternSheetMetaItem,
}

/// Annotations keyed by (song id, mode, difficulty), one per key.
pub struct PatternSheetMeta {
    items: Vec<PatternMetaEntry>,
}

/// The key of entry `e`.
pub open spec fn entry_key(e: PatternMetaEntry) -> (Seq<char>, Mode, Difficulty) {
    (e.song_id@, e.mode, e.diff)
}

/// The annotation of each key that occurs in `s` (of one of its entries, when it occurs more than once).
pub closed spec fn map_of(s: Seq<PatternMetaEntry>) -> Map<(Seq<char>, Mode, Difficulty), MetaView> {
    Map::new(
        |k: (Seq<char>, Mode, Difficulty)| exists|i: int| 0 <= i < s.len() && entry_key(s[i]) == k,
        |k: (Seq<char>, Mode, Difficulty)|
            {
                let i = choose|i: int| 0 <= i < s.len() && entry_key(s[i]) == k;
                s[i].meta@
            },
    )
}

/// No key occurs twice in `s`.
pub open spec fn distinct_keys(s: Seq<PatternMetaEntry>) -> bool {
    forall|i: int, j: int| 0 <= i < j < s.len() ==> entry_key(#[trigger] s[i]) != entry_key(#[trigger] s[j])
}

/// The annotations that the entries `s` make when stored in order, a later entry of a
/// chart replacing an earlier one.
pub open spec fn entries_map(s: Seq<PatternMetaEntry>) -> Map<(Seq<char>, Mode, Difficulty), MetaView>
    decreases s.len(),
{
    if s.len() == 0 {
        Map::empty()
    } else {
        entries_map(s.drop_last()).insert(entry_key(s.last()), s.last().meta@)
    }
}

/// Entries with the same keys and annotations make the same map.
proof fn lemma_entries_map_views(a: Seq<PatternMetaEntry>, b: Seq<PatternMetaEntry>)
    requires
        a.len() == b.len(),
        forall|j: int| 0 <= j < a.len() ==> entry_key(#[trigger] a[j]) == entry_key(b[j]) && a[j].meta@ == b[j].meta@,
    ensures
        entries_map(a) == entries_map(b),
    decreases a.len(),
{
    if a.len() > 0 {
        lemma_entries_map_views(a.drop_last(), b.drop_last());
        assert(entry_key(a[a.len() - 1]) == entry_key(b[b.len() - 1]));
    }
}

/// Storing entries with distinct keys in order gives the map of those entries.
proof fn lemma_entries_map_distinct(s: Seq<PatternMetaEntry>)
    requires
        distinct_keys(s),
    ensures
        entries_map(s) == map_of(s),
    decreases s.len(),
{
    if s.len() == 0 {
        assert(map_of(s) =~= Map::empty());
    } else {
        let t = s.drop_last();
        let n = t.len() as int;
        let e = s.last();
        let k = entry_key(e);
        assert(distinct_keys(t)) by {
            assert forall|a: int, b: int| 0 <= a < b < t.len() implies entry_key(#[trigger] t[a]) != entry_key(#[trigger] t[b]) by {
                assert(t[a] == s[a]);
                assert(t[b] == s[b]);
            }
        }
        lemma_entries_map_distinct(t);
        assert forall|x: int| 0 <= x < t.len() implies entry_key(#[trigger] t[x]) != k by {
            assert(t[x] == s[x]);
            assert(s[n] == e);
        }
        assert(map_of(s) =~= map_of(t).insert(k, e.meta@)) by {
            assert forall|kk| #[trigger] map_of(s).contains_key(kk) == map_of(t).insert(k, e.meta@).contains_key(kk) by {
                if kk == k {
                    assert(entry_key(s[n]) == kk);
                } else if map_of(s).contains_key(kk) {
                    let x = choose|x: int| 0 <= x < s.len() && entry_key(s[x]) == kk;
                    assert(x != n);
                    assert(t[x] == s[x]);
                } else if map_of(t).contains_key(kk) {
                    let x = choose|x: int| 0 <= x < t.len() && entry_key(t[x]) == kk;
                    assert(t[x] == s[x]);
                }
            }
            assert forall|kk| #[trigger] map_of(s).contains_key(kk) implies map_of(s)[kk] == map_of(t).insert(k, e.meta@)[kk] by {
                let x = choose|x: int| 0 <= x < s.len() && entry_key(s[x]) == kk;
                if kk == k {
                    if x != n {
                        assert(t[x] == s[x]);
                    }
                } else {
                    assert(x != n);
                    assert(t[x] == s[x]);
                    let y = choose|y: int| 0 <= y < t.len() && entry_key(t[y]) == kk;
                    assert(t[y] == s[y]);
                    if y != x {
                        if y < x {
                            assert(entry_key(s[y]) != entry_key(s[x]));
                        } else {
                            assert(entry_key(s[x]) != entry_key(s[y]));
                        }
                    }
                }
            }
        }
    }
}

impl PatternSheetMeta {
    /// No key occurs twice.
    #[verifier::type_invariant]
    spec fn wf(&self) -> bool {
        forall|i: int, j: int|
            0 <= i < j < self.items@.len() ==> entry_key(#[trigger] self.items@[i]) != entry_key(
                #[trigger] self.items@[j],
            )
    }

    /// The annotations as a map from key to annotation.
    pub closed spec fn entries(&self) -> Map<(Seq<char>, Mode, Difficulty), MetaView> {
        map_of(self.items@)
    }

    /// A store without annotations.
    pub fn new() -> (r: PatternSheetMeta)
        ensures
            r.entries() == Map::<(Seq<char>, Mode, Difficulty), MetaView>::empty(),
    {
        let r = PatternSheetMeta { items: Vec::new() };
        assert(r.entries() =~= Map::<(Seq<char>, Mode, Difficulty), MetaView>::empty());
        r
    }

    /// Position of the entry with key `(song_id, mode, diff)` among `items`.
    fn find(items: &Vec<PatternMetaEntry>, song_id: &str, mode: Mode, diff: Difficulty) -> (r: Option<usize>)
        ensures
            match r {
                Some(i) => i < items@.len() && entry_key(items@[i as int]) == (song_id@, mode, diff),
                None => forall|i: int| 0 <= i < items@.len() ==> entry_key(items@[i]) != (song_id@, mode, diff),
            },
    {
        let mut i: usize = 0;
        while i < items.len()
            invariant
                i <= items@.len(),
                forall|j: int| 0 <= j < i ==> entry_key(items@[j]) != (song_id@, mode, diff),
            decreases items@.len() - i,
        {
            let e = &items[i];
            if e.mode == mode && e.diff == diff && str_eq(e.song_id.as_str(), song_id) {
                return Some(i);
            }
            i = i + 1;
        }
        None
    }

    /// The annotation of chart `(song_id, mode, diff)`, or an empty one.
    pub fn get(&self, song_id: &str, mode: Mode, diff: Difficulty) -> (r: PatternSheetMetaItem)
        ensures
            r@ == (if self.entries().contains_key((song_id@, mode, diff)) {
                self.entries()[(song_id@, mode, diff)]
            } else {
                empty_meta()
            }),
    {
        proof {
            use_type_invariant(self);
        }
        let ghost k = (song_id@, mode, diff);
        match Self::find(&self.items, song_id, mode, diff) {
            Some(i) => {
                proof {
                    assert(self.entries().contains_key(k));
                    let j = choose|j: int| 0 <= j < self.items@.len() && entry_key(self.items@[j]) == k;
                    if j != i {
                        if j < i {
                            assert(entry_key(self.items@[j]) != entry_key(self.items@[i as int]));
                        } else {
                            assert(entry_key(self.items@[i as int]) != entry_key(self.items@[j]));
                        }
                    }
                }
                self.items[i].meta.duplicate()
            },
            None => {
                assert(!self.entries().contains_key(k));
                PatternSheetMetaItem::empty()
            },
        }
    }

    /// The annotations of a cache file: its entries stored in order.
    pub fn from_entries(entries: Vec<PatternMetaEntry>) -> (r: PatternSheetMeta)
        ensures
            r.entries() == entries_map(entries@),
    {
        let mut meta = PatternSheetMeta::new();
        let mut i: usize = 0;
        assert(entries@.take(0) =~= Seq::<PatternMetaEntry>::empty());
        while i < entries.len()
            invariant
                i <= entries@.len(),
                meta.entries() == entries_map(entries@.take(i as int)),
            decreases entries.len() - i,
        {
            let e = &entries[i];
            let ghost before = meta.entries();
            meta.insert(e.song_id.as_str().to_owned(), e.mode, e.diff, e.meta.duplicate());
            proof {
                let t = entries@.take(i + 1);
                assert(t.drop_last() =~= entries@.take(i as int));
                assert(t.last() == entries@[i as int]);
            }
            i = i + 1;
        }
        assert(entries@.take(entries@.len() as int) =~= entries@);
        meta
    }

    /// The entries that the cache file is written from, one per chart.
    pub fn to_entries(&self) -> (r: Vec<PatternMetaEntry>)
        ensures
            distinct_keys(r@),
            entries_map(r@) == self.entries(),
    {
        proof {
            use_type_invariant(self);
        }
        let mut out: Vec<PatternMetaEntry> = Vec::new();
        let mut i: usize = 0;
        while i < self.items.len()
            invariant
                i <= self.items@.len(),
                out@.len() == i,
                forall|j: int| 0 <= j < i ==> entry_key(#[trigger] out@[j]) == entry_key(self.items@[j])
                    && out@[j].meta@ == self.items@[j].meta@,
            decreases self.items@.len() - i,
        {
            let e = &self.items[i];
            out.push(PatternMetaEntry {
                song_id: e.song_id.as_str().to_owned(),
                mode: e.mode,
                diff: e.diff,
                meta: e.meta.duplicate(),
            });
            i = i + 1;
        }
        proof {
            assert(distinct_keys(out@)) by {
                assert forall|a: int, b: int| 0 <= a < b < out@.len() implies entry_key(#[trigger] out@[a]) != entry_key(#[trigger] out@[b]) by {
                    assert(entry_key(self.items@[a]) != entry_key(self.items@[b]));
                }
            }
            lemma_entries_map_views(out@, self.items@);
            lemma_entries_map_distinct(self.items@);
        }
        out
    }

    /// Stores `meta` for chart `(song_id, mode, diff)`, replacing what was stored for it.
    pub fn insert(&mut self, song_id: String, mode: Mode, diff: Difficulty, meta: PatternSheetMetaItem)
        ensures
            final(self).entries() == old(self).entries().insert((song_id@, mode, diff), meta@),
    {
        proof {
            use_type_invariant(&*self);
        }
        let ghost k = (song_id@, mode, diff);
        let mut items: Vec<PatternMetaEntry> = Vec::new();
        std::mem::swap(&mut items, &mut self.items);
        let ghost before = items@;
        match Self::find(&items, song_id.as_str(), mode, diff) {
            Some(i) => {
                let e = PatternMetaEntry { song_id, mode, diff, meta };
                items.set(i, e);
                proof {
                    assert forall|a: int, b: int| 0 <= a < b < items@.len() implies entry_key(
                        #[trigger] items@[a],
                    ) != entry_key(#[trigger] items@[b]) by {
                        if a != i && b != i {
                            assert(items@[a] == before[a]);
                            assert(items@[b] == before[b]);
                        } else if a == i {
                            assert(entry_key(before[a]) == k);
                            assert(items@[b] == before[b]);
                        } else {
                            assert(entry_key(before[b]) == k);
                            assert(items@[a] == before[a]);
                        }
                    }
                    let old_map = Map::new(
                        |kk: (Seq<char>, Mode, Difficulty)|
                            exists|x: int| 0 <= x < before.len() && entry_key(before[x]) == kk,
                        |kk: (Seq<char>, Mode, Difficulty)|
                            {
                                let x = choose|x: int| 0 <= x < before.len() && entry_key(before[x]) == kk;
                                before[x].meta@
                            },
                    );
                    assert(map_of(items@) =~= old_map.insert(k, meta@)) by {
                        assert forall|kk| #[trigger] map_of(items@).contains_key(kk) == old_map.insert(k, meta@).contains_key(kk) by {
                            if kk == k {
                                assert(entry_key(items@[i as int]) == kk);
                            } else if map_of(items@).contains_key(kk) {
                                let x = choose|x: int| 0 <= x < items@.len() && entry_key(items@[x]) == kk;
                                assert(x != i);
                                assert(before[x] == items@[x]);
                            } else if old_map.contains_key(kk) {
                                let x = choose|x: int| 0 <= x < before.len() && entry_key(before[x]) == kk;
                                assert(x != i);
                                assert(before[x] == items@[x]);
                            }
                        }
                        assert forall|kk| #[trigger] map_of(items@).contains_key(kk) implies map_of(items@)[kk] == old_map.insert(k, meta@)[kk] by {
                            let x = choose|x: int| 0 <= x < items@.len() && entry_key(items@[x]) == kk;
                            if kk == k {
                                if x != i {
                                    if x < i {
                                        assert(entry_key(items@[x]) != entry_key(items@[i as int]));
                                    } else {
                                        assert(entry_key(items@[i as int]) != entry_key(items@[x]));
                                    }
                                }
                            } else {
                                assert(x != i);
                                assert(before[x] == items@[x]);
                                assert(old_map.contains_key(kk));
                                let y = choose|y: int| 0 <= y < before.len() && entry_key(before[y]) == kk;
                                if y != x {
                                    if y < x {
                                        assert(entry_key(before[y]) != entry_key(before[x]));
                                    } else {
                                        assert(entry_key(before[x]) != entry_key(before[y]));
                                    }
                                }
                            }
                        }
                    }
                }
            },
            None => {
                let e = PatternMetaEntry { song_id, mode, diff, meta };
                items.push(e);
                proof {
                    let n = before.len() as int;
                    assert forall|a: int, b: int| 0 <= a < b < items@.len() implies entry_key(
                        #[trigger] items@[a],
                    ) != entry_key(#[trigger] items@[b]) by {
                        assert(items@[a] == before[a]);
                        if b < n {
                            assert(items@[b] == before[b]);
                        }
                    }
                    let old_map = Map::new(
                        |kk: (Seq<char>, Mode, Difficulty)|
                            exists|x: int| 0 <= x < before.len() && entry_key(before[x]) == kk,
                        |kk: (Seq<char>, Mode, Difficulty)|
                            {
                                let x = choose|x: int| 0 <= x < before.len() && entry_key(before[x]) == kk;
                                before[x].meta@
                            },
                    );
                    assert(map_of(items@) =~= old_map.insert(k, meta@)) by {
                        assert forall|kk| #[trigger] map_of(items@).contains_key(kk) == old_map.insert(k, meta@).contains_key(kk) by {
                            if kk == k {
                                assert(entry_key(items@[n]) == kk);
                            } else if map_of(items@).contains_key(kk) {
                                let x = choose|x: int| 0 <= x < items@.len() && entry_key(items@[x]) == kk;
                                assert(x != n);
                                assert(before[x] == items@[x]);
                            } else if old_map.contains_key(kk) {
                                let x = choose|x: int| 0 <= x < before.len() && entry_key(before[x]) == kk;
                                assert(before[x] == items@[x]);
                            }
                        }
                        assert forall|kk| #[trigger] map_of(items@).contains_key(kk) implies map_of(items@)[kk] == old_map.insert(k, meta@)[kk] by {
                            let x = choose|x: int| 0 <= x < items@.len() && entry_key(items@[x]) == kk;
                            if kk == k {
                                assert(x == n);
                            } else {
                                assert(x != n);
                                assert(before[x] == items@[x]);
                                let y = choose|y: int| 0 <= y < before.len() && entry_key(before[y]) == kk;
                                if y != x {
                                    if y < x {
                                        assert(entry_key(before[y]) != entry_key(before[x]));
                                    } else {
                                        assert(entry_key(before[x]) != entry_key(before[y]));
                                    }
                                }
                            }
                        }
                    }
                }
            },
        }
        self.items = items;
    }
}


/// Storing an annotation and reading it back gives the annotation; other charts keep theirs.
pub proof fn lemma_get_after_insert(
    before: Map<(Seq<char>, Mode, Difficulty), MetaView>,
    k: (Seq<char>, Mode, Difficulty),
    meta: MetaView,
    other: (Seq<char>, Mode, Difficulty),
)
    requires
        other != k,
    ensures
        before.insert(k, meta).contains_key(k),
        before.insert(k, meta)[k] == meta,
        before.insert(k, meta).contains_key(other) == before.contains_key(other),
        before.contains_key(other) ==> before.insert(k, meta)[other] == before[other],
{
}

/// Position of the last header equal to `key` among the first `n`.
pub open spec fn last_header_match(headers: Seq<Seq<char>>, n: int, key: Seq<char>) -> Option<int>
    decreases n,
{
    if n <= 0 {
        None
    } else if headers[n - 1] == key {
        Some(n - 1)
    } else {
        last_header_match(headers, n - 1, key)
    }
}

/// The cell of `row` under header `key`, pairing headers and cells position by position;
/// where a header repeats, the later column wins.
pub open spec fn cell_under(headers: Seq<Seq<char>>, row: Seq<Seq<char>>, key: Seq<char>) -> Option<Seq<char>> {
    let n = if headers.len() < row.len() { headers.len() as int } else { row.len() as int };
    match last_header_match(headers, n, key) {
        Some(i) => Some(row[i]),
        None => None,
    }
}

/// The header search finds the last of the first `n` headers that equals `key`.
proof fn lemma_last_header_match_meaning(headers: Seq<Seq<char>>, n: int, key: Seq<char>)
    requires
        0 <= n <= headers.len(),
    ensures
        match last_header_match(headers, n, key) {
            Some(i) => 0 <= i < n && headers[i] == key && forall|j: int| i < j < n ==> #[trigger] headers[j] != key,
            None => forall|j: int| 0 <= j < n ==> #[trigger] headers[j] != key,
        },
    decreases n,
{
    if n > 0 && headers[n - 1] != key {
        lemma_last_header_match_meaning(headers, n - 1, key);
    }
}

/// The cell under header `key`: where some column that both the header line and the row
/// reach is headed `key`, the cell of the last such column; otherwise none.
pub proof fn lemma_cell_under_meaning(headers: Seq<Seq<char>>, row: Seq<Seq<char>>, key: Seq<char>)
    ensures
        ({
            let n = if headers.len() < row.len() { headers.len() as int } else { row.len() as int };
            match cell_under(headers, row, key) {
                Some(v) => exists|i: int|
                    0 <= i < n && #[trigger] headers[i] == key && row[i] == v && forall|j: int|
                        i < j < n ==> #[trigger] headers[j] != key,
                None => forall|j: int| 0 <= j < n ==> #[trigger] headers[j] != key,
            }
        }),
{
    let n = if headers.len() < row.len() { headers.len() as int } else { row.len() as int };
    lemma_last_header_match_meaning(headers, n, key);
    match last_header_match(headers, n, key) {
        Some(i) => {
            assert(headers[i] == key && row[i] == row[i]);
        },
        None => {},
    }
}

/// The trimmed cell under the first of `keys` that is a header, or the empty text.
pub open spec fn picked(headers: Seq<Seq<char>>, row: Seq<Seq<char>>, keys: Seq<Seq<char>>) -> Seq<char>
    decreases keys.len(),
{
    if keys.len() == 0 {
        Seq::empty()
    } else {
        match cell_under(headers, row, keys[0]) {
            Some(v) => trimmed(v),
            None => picked(headers, row, keys.drop_first()),
        }
    }
}

/// The cell of `row` under header `key`.
pub fn cell_under_header<'a>(headers: &Vec<String>, row: &'a Vec<String>, key: &str) -> (r: Option<&'a String>)
    ensures
        match r {
            Some(v) => cell_under(headers.deep_view(), row.deep_view(), key@) == Some(v@),
            None => cell_under(headers.deep_view(), row.deep_view(), key@) is None,
        },
{
    let n = if headers.len() < row.len() { headers.len() } else { row.len() };
    let mut found: Option<usize> = None;
    let mut i: usize = 0;
    while i < n
        invariant
            n <= headers@.len(),
            n <= row@.len(),
            n == (if headers@.len() < row@.len() { headers@.len() } else { row@.len() }),
            i <= n,
            found == (match last_header_match(headers.deep_view(), i as int, key@) {
                Some(j) => Some(j as usize),
                None => None::<usize>,
            }),
            forall|j: int| #![trigger last_header_match(headers.deep_view(), j, key@)] 0 <= j <= i ==>
                match last_header_match(headers.deep_view(), j, key@) { Some(x) => 0 <= x < j, None => true },
        decreases n - i,
    {
        proof {
            assert(headers.deep_view()[i as int] == headers@[i as int]@);
        }
        if str_eq(headers[i].as_str(), key) {
            found = Some(i);
        }
        i = i + 1;
        proof {
            let h = headers.deep_view();
            assert(last_header_match(h, i as int, key@) == if h[i - 1] == key@ { Some(i - 1) } else { last_header_match(h, i - 1, key@) });
        }
    }
    match found {
        Some(j) => {
            proof {
                assert(row.deep_view()[j as int] == row@[j as int]@);
            }
            Some(&row[j])
        },
        None => None,
    }
}

/// The trimmed cell under the first of `keys` that is a header, or the empty text.
pub fn pick(headers: &Vec<String>, row: &Vec<String>, keys: &[&str]) -> (r: String)
    ensures
        r@ == picked(headers.deep_view(), row.deep_view(), keys@.map_values(|k: &str| k@)),
{
    let ghost ks = keys@.map_values(|k: &str| k@);
    let mut i: usize = 0;
    assert(ks.skip(0) =~= ks);
    while i < keys.len()
        invariant
            i <= keys@.len(),
            ks == keys@.map_values(|k: &str| k@),
            picked(headers.deep_view(), row.deep_view(), ks) == picked(headers.deep_view(), row.deep_view(), ks.skip(i as int)),
            forall|j: int| 0 <= j < i ==> cell_under(headers.deep_view(), row.deep_view(), ks[j]) is None,
        decreases keys@.len() - i,
    {
        proof {
            assert(ks.skip(i as int).drop_first() =~= ks.skip(i + 1));
            assert(ks.skip(i as int)[0] == keys@[i as int]@);
        }
        match cell_under_header(headers, row, keys[i]) {
            Some(v) => {
                return trim_to_string(v.as_str());
            },
            None => {},
        }
        i = i + 1;
    }
    proof {
        assert(ks.skip(i as int).len() == 0);
    }
    String::new()
}

/// The random-modifier mark that a sheet cell writes.
pub open spec fn gold_from_text(raw: Seq<char>) -> GoldMeta {
    if raw.len() == 0 {
        GoldMeta::Unmarked
    } else if seq_contains(raw, seq!['[', 'H', ']']) {
        GoldMeta::HalfRandom
    } else if seq_contains(raw, seq!['[', 'M', ']']) {
        GoldMeta::MaxRandom
    } else {
        GoldMeta::Random
    }
}

/// The assist-key mark that a sheet cell writes.
pub open spec fn assist_from_text(raw: Seq<char>) -> AssistMeta {
    if seq_contains(raw, seq!['❌']) {
        AssistMeta::Used
    } else if seq_contains(raw, seq!['⚠', '\u{fe0f}']) || seq_starts_with(raw, seq!['⚠']) {
        AssistMeta::Caution
    } else if seq_contains(raw, seq!['✅']) {
        AssistMeta::NotUsed
    } else {
        AssistMeta::Unmarked
    }
}

/// The column names under which each annotation appears in the sheets.
pub open spec fn gold_keys() -> Seq<Seq<char>> {
    seq![seq!['황', '배', ' ', '여', '부'], seq!['황', '배', '여', '부']]
}

/// Headers of the note column.
pub open spec fn note_keys() -> Seq<Seq<char>> {
    seq![seq!['비', '고'], seq!['N', 'o', 't', 'e']]
}

/// Headers of the key-part column.
pub open spec fn keypart_keys() -> Seq<Seq<char>> {
    seq![seq!['키', '파', '트', ' ', '위', '주'], seq!['키', '파', '트', '위', '주']]
}

/// Headers of the assist-key column.
pub open spec fn assist_keys() -> Seq<Seq<char>> {
    seq![seq!['보', '조', ' ', '키', ' ', '여', '부'], seq!['보', '조', '키', '여', '부']]
}

/// The annotation a sheet row of mode `mode` gives: the random marker, the note, the
/// key-part flag (8B sheets only) and the auxiliary-key marker.
pub open spec fn meta_from_row(mode: Mode, headers: Seq<Seq<char>>, row: Seq<Seq<char>>) -> MetaView {
    MetaView {
        gold: gold_from_text(picked(headers, row, gold_keys())),
        note: picked(headers, row, note_keys()),
        assist_key: assist_from_text(picked(headers, row, assist_keys())),
        keypart: mode == Mode::B8 && picked(headers, row, keypart_keys()).len() > 0,
    }
}

/// `s` holds `[`, `c` and `]` one after the other.
pub open spec fn has_bracket_mark(s: Seq<char>, c: char) -> bool {
    exists|i: int| 0 <= i && i + 3 <= s.len() && #[trigger] s[i] == '[' && s[i + 1] == c && s[i + 2] == ']'
}

/// Containing the text `[c]` is holding the bracket mark of `c`.
proof fn lemma_bracket_mark(s: Seq<char>, c: char)
    ensures
        seq_contains(s, seq!['[', c, ']']) == has_bracket_mark(s, c),
{
    let needle = seq!['[', c, ']'];
    if seq_contains(s, needle) {
        let i = choose|i: int| occurs_at(s, needle, i);
        assert(s.subrange(i, i + 3)[0] == s[i]);
        assert(s.subrange(i, i + 3)[1] == s[i + 1]);
        assert(s.subrange(i, i + 3)[2] == s[i + 2]);
        assert(s[i] == '[' && s[i + 1] == c && s[i + 2] == ']');
    }
    if has_bracket_mark(s, c) {
        let i = choose|i: int| 0 <= i && i + 3 <= s.len() && #[trigger] s[i] == '[' && s[i + 1] == c && s[i + 2] == ']';
        assert(s.subrange(i, i + 3) =~= needle);
        assert(occurs_at(s, needle, i));
    }
}

/// The random-modifier mark of a sheet row, in terms of the trimmed cell under the
/// random-mark header: an empty cell marks nothing; a cell holding `[H]` marks the half
/// random; one holding `[M]` but not `[H]` marks the max random; any other cell marks
/// the plain random.
pub proof fn lemma_gold_mark_meaning(mode: Mode, headers: Seq<Seq<char>>, row: Seq<Seq<char>>)
    ensures
        ({
            let raw = picked(headers, row, gold_keys());
            let g = meta_from_row(mode, headers, row).gold;
            &&& raw.len() == 0 ==> g == GoldMeta::Unmarked
            &&& raw.len() > 0 && has_bracket_mark(raw, 'H') ==> g == GoldMeta::HalfRandom
            &&& raw.len() > 0 && !has_bracket_mark(raw, 'H') && has_bracket_mark(raw, 'M') ==> g
                == GoldMeta::MaxRandom
            &&& raw.len() > 0 && !has_bracket_mark(raw, 'H') && !has_bracket_mark(raw, 'M') ==> g
                == GoldMeta::Random
        }),
{
    let raw = picked(headers, row, gold_keys());
    lemma_bracket_mark(raw, 'H');
    lemma_bracket_mark(raw, 'M');
}

/// Reads the annotation of one sheet row.
pub fn pattern_meta_value(mode: Mode, headers: &Vec<String>, row: &Vec<String>) -> (r: PatternSheetMetaItem)
    ensures
        r@ == meta_from_row(mode, headers.deep_view(), row.deep_view()),
{
    proof {
        reveal_strlit("황배 여부");
        reveal_strlit("황배여부");
        reveal_strlit("비고");
        reveal_strlit("Note");
        reveal_strlit("키파트 위주");
        reveal_strlit("키파트위주");
        reveal_strlit("보조 키 여부");
        reveal_strlit("보조키여부");
        reveal_strlit("[H]");
        reveal_strlit("[M]");
        reveal_strlit("❌");
        reveal_strlit("⚠️");
        reveal_strlit("⚠");
        reveal_strlit("✅");
        assert("[H]"@ =~= seq!['[', 'H', ']']);
        assert("[M]"@ =~= seq!['[', 'M', ']']);
        assert("❌"@ =~= seq!['❌']);
        assert("⚠️"@ =~= seq!['⚠', '\u{fe0f}']);
        assert("⚠"@ =~= seq!['⚠']);
        assert("✅"@ =~= seq!['✅']);
    }
    let gold_names: [&str; 2] = ["황배 여부", "황배여부"];
    assert(gold_names@.len() == 2);
    assert(gold_names@[0] == "황배 여부");
    assert(gold_names@.map_values(|k: &str| k@) =~~= gold_keys());
    let raw_gold = pick(headers, row, &gold_names);
    let gold = if raw_gold.as_str().is_empty() {
        GoldMeta::Unmarked
    } else if contains_str(raw_gold.as_str(), "[H]") {
        GoldMeta::HalfRandom
    } else if contains_str(raw_gold.as_str(), "[M]") {
        GoldMeta::MaxRandom
    } else {
        GoldMeta::Random
    };
    let note_names: [&str; 2] = ["비고", "Note"];
    assert(note_names@.map_values(|k: &str| k@) =~~= note_keys());
    let note = pick(headers, row, &note_names);
    let mut keypart = false;
    if mode == Mode::B8 {
        let keypart_names: [&str; 2] = ["키파트 위주", "키파트위주"];
        assert(keypart_names@.map_values(|k: &str| k@) =~~= keypart_keys());
        let raw_keypart = pick(headers, row, &keypart_names);
        if !raw_keypart.as_str().is_empty() {
            keypart = true;
        }
    }
    let assist_names: [&str; 2] = ["보조 키 여부", "보조키여부"];
    assert(assist_names@.map_values(|k: &str| k@) =~~= assist_keys());
    let raw_assist = pick(headers, row, &assist_names);
    let assist_key = if contains_str(raw_assist.as_str(), "❌") {
        AssistMeta::Used
    } else if contains_str(raw_assist.as_str(), "⚠️") || starts_with_str(raw_assist.as_str(), "⚠") {
        AssistMeta::Caution
    } else if contains_str(raw_assist.as_str(), "✅") {
        AssistMeta::NotUsed
    } else {
        AssistMeta::Unmarked
    };
    PatternSheetMetaItem { gold, note, assist_key, keypart }
}


/// A sheet title as a fallback song key: trimmed, lower-cased, without white space.
pub fn norm(value: &str) -> (r: String)
    ensures
        r@ == without_white(unicode_lowercase(trimmed(value@))),
{
    let t = trim_to_string(value);
    let lower = str_to_lowercase(t.as_str());
    remove_white(lower.as_str())
}

} // verus!
