//! Recommendation vocabulary, level labels and the provider-cache addressing.
use vstd::prelude::*;
use vstd::string::*;
use crate::model::{difficulty_label, difficulty_from_label, mode_from_label, Difficulty, Mode};
use crate::gateway::{RECOMMEND_PROTOCOL_ID, protocol_id};
use crate::text::{char_is_white, decimal_value, i64_to_decimal, int_decimal, is_white, parse_i32, str_eq, without_white};
use std::collections::HashSet;
use crate::wrappers::{str_to_lowercase, string_push, unicode_lowercase};

verus! {

/// Why an entry was recommended.
#[derive(Debug, Clone, Copy, PartialEq, Eq, Structural)]
pub enum RecommendReasonKind {
    /// Close below the top-50 cut line.
    Top50Attack,
    /// Ranked 41st to 50th in the top 50.
    Top50Defend,
    /// The session is going up: a slightly harder chart.
    Climbing,
    /// The session is going down: a comfortable chart.
    Recovery,
    /// An old 90-99% record worth another try.
    Retry,
    /// Not played yet.
    Unplayed,
}

/// The badge that a reason is shown with.
pub open spec fn badge_text(k: RecommendReasonKind) -> Seq<char> {
    match k {
        RecommendReasonKind::Top50Attack => seq!['B', 'E', 'S', 'T'],
        RecommendReasonKind::Top50Defend => seq!['D', 'E', 'F'],
        RecommendReasonKind::Climbing => seq!['P', 'U', 'S', 'H'],
        RecommendReasonKind::Recovery => seq!['R', 'E', 'S', 'T'],
        RecommendReasonKind::Retry => seq!['R', 'E', 'T', 'R', 'Y'],
        RecommendReasonKind::Unplayed => seq!['C', 'L', 'R'],
    }
}

impl RecommendReasonKind {
    /// The short badge shown next to an entry.
    pub fn badge_label(&self) -> (r: &'static str)
        ensures
            r@ == badge_text(*self),
    {
        match self {
            RecommendReasonKind::Top50Attack => {
                proof { reveal_strlit("BEST"); }
                "BEST"
            },
            RecommendReasonKind::Top50Defend => {
                proof { reveal_strlit("DEF"); }
                "DEF"
            },
            RecommendReasonKind::Climbing => {
                proof { reveal_strlit("PUSH"); }
                "PUSH"
            },
            RecommendReasonKind::Recovery => {
                proof { reveal_strlit("REST"); }
                "REST"
            },
            RecommendReasonKind::Retry => {
                proof { reveal_strlit("RETRY"); }
                "RETRY"
            },
            RecommendReasonKind::Unplayed => {
                proof { reveal_strlit("CLR"); }
                "CLR"
            },
        }
    }
}

/// A reason with its human-readable detail and, for top-50 reasons, the rank.
#[derive(Debug, Clone, PartialEq)]
pub struct RecommendReason {
    pub kind: RecommendReasonKind,
    pub detail: String,
    pub rank: Option<usize>,
}

/// Ordering strategy of the local recommender.
#[derive(Debug, Clone, Copy, PartialEq, Eq, Structural)]
pub enum RecommendStrategy {
    Smart,
    Classic,
}

impl RecommendStrategy {
    /// The strategy that the settings flag `smart` selects.
    pub fn from_smart_flag(smart: bool) -> (r: RecommendStrategy)
        ensures
            r == (if smart { RecommendStrategy::Smart } else { RecommendStrategy::Classic }),
    {
        if smart {
            RecommendStrategy::Smart
        } else {
            RecommendStrategy::Classic
        }
    }

    /// Whether this is the smart strategy.
    pub fn is_smart(&self) -> (r: bool)
        ensures
            r == (*self == RecommendStrategy::Smart),
    {
        matches!(self, RecommendStrategy::Smart)
    }

    /// The default strategy.
    pub fn default_strategy() -> (r: RecommendStrategy)
        ensures
            r == RecommendStrategy::Smart,
    {
        RecommendStrategy::Smart
    }
}

/// A dimension that a provider's cached answer varies with.
#[derive(Clone, Copy, Debug, PartialEq, Eq, Structural, Hash)]
pub enum VaryDim {
    SongId,
    Mode,
    Diff,
    VId,
}

/// Freshness of a recommendation source.
#[derive(Debug, Clone, Copy, PartialEq, Eq, Structural)]
pub enum SourceStatus {
    /// The source answered with current data.
    Current,
    Stale,
    Skipped,
    Error,
}

/// Direction of the current play session.
#[derive(Debug, Clone, Copy, PartialEq, Eq, Structural)]
pub enum SessionTrend {
    Climbing,
    Steady,
    Recovery,
}

/// Text of a base-game pack code, after lower-casing and removing white space.
pub open spec fn base_bundle_codes() -> Seq<Seq<char>> {
    seq![
        "r"@, "rv"@, "respect"@, "respect/v"@, "p1"@, "portable1"@, "p2"@, "portable2"@, "gg"@,
        "guiltygear"@, "guilty gear"@
    ]
}

/// `dlc_code` names a pack that every copy of the game includes (the base game,
/// Portable 1 and 2, Guilty Gear), ignoring case and white space.
pub open spec fn is_base_bundle_code(dlc_code: Seq<char>) -> bool {
    base_bundle_codes().contains(without_white(unicode_lowercase(dlc_code)))
}

/// The base packs, by code: a code is a base-bundle code exactly when, lower-cased and
/// without white space, it is `r`, `rv`, `respect`, `respect/v`, `p1`, `portable1`, `p2`,
/// `portable2`, `gg`, `guiltygear` or `guilty gear`.
pub proof fn lemma_base_bundle_code_list(dlc_code: Seq<char>)
    ensures
        ({
            let k = without_white(unicode_lowercase(dlc_code));
            is_base_bundle_code(dlc_code) == (k == seq!['r'] || k == seq!['r', 'v'] || k == seq![
                'r',
                'e',
                's',
                'p',
                'e',
                'c',
                't',
            ] || k == seq!['r', 'e', 's', 'p', 'e', 'c', 't', '/', 'v'] || k == seq!['p', '1'] || k
                == seq!['p', 'o', 'r', 't', 'a', 'b', 'l', 'e', '1'] || k == seq!['p', '2'] || k == seq![
                'p',
                'o',
                'r',
                't',
                'a',
                'b',
                'l',
                'e',
                '2',
            ] || k == seq!['g', 'g'] || k == seq!['g', 'u', 'i', 'l', 't', 'y', 'g', 'e', 'a', 'r']
                || k == seq!['g', 'u', 'i', 'l', 't', 'y', ' ', 'g', 'e', 'a', 'r'])
        }),
{
    reveal_strlit("r");
    reveal_strlit("rv");
    reveal_strlit("respect");
    reveal_strlit("respect/v");
    reveal_strlit("p1");
    reveal_strlit("portable1");
    reveal_strlit("p2");
    reveal_strlit("portable2");
    reveal_strlit("gg");
    reveal_strlit("guiltygear");
    reveal_strlit("guilty gear");
    let k = without_white(unicode_lowercase(dlc_code));
    let codes = base_bundle_codes();
    assert(codes[0] =~= seq!['r']);
    assert(codes[1] =~= seq!['r', 'v']);
    assert(codes[2] =~= seq!['r', 'e', 's', 'p', 'e', 'c', 't']);
    assert(codes[3] =~= seq!['r', 'e', 's', 'p', 'e', 'c', 't', '/', 'v']);
    assert(codes[4] =~= seq!['p', '1']);
    assert(codes[5] =~= seq!['p', 'o', 'r', 't', 'a', 'b', 'l', 'e', '1']);
    assert(codes[6] =~= seq!['p', '2']);
    assert(codes[7] =~= seq!['p', 'o', 'r', 't', 'a', 'b', 'l', 'e', '2']);
    assert(codes[8] =~= seq!['g', 'g']);
    assert(codes[9] =~= seq!['g', 'u', 'i', 'l', 't', 'y', 'g', 'e', 'a', 'r']);
    assert(codes[10] =~= seq!['g', 'u', 'i', 'l', 't', 'y', ' ', 'g', 'e', 'a', 'r']);
    if codes.contains(k) {
        let i = choose|i: int| 0 <= i < codes.len() && codes[i] == k;
    }
    if k == codes[0] || k == codes[1] || k == codes[2] || k == codes[3] || k == codes[4] || k == codes[5]
        || k == codes[6] || k == codes[7] || k == codes[8] || k == codes[9] || k == codes[10] {
        assert(codes.contains(k));
    }
}

/// `s` without its white-space characters.
pub fn remove_white(s: &str) -> (r: String)
    ensures
        r@ == without_white(s@),
{
    let n = s.unicode_len();
    let mut out = String::new();
    let mut i: usize = 0;
    while i < n
        invariant
            n == s@.len(),
            i <= n,
            out@ == without_white(s@.take(i as int)),
        decreases n - i,
    {
        let c = s.get_char(i);
        proof {
            assert(s@.take(i + 1) =~= s@.take(i as int).push(c));
            vstd::seq_lib::lemma_seq_take_len(s@, i as int);
            reveal(Seq::filter);
            assert(s@.take(i + 1).drop_last() =~= s@.take(i as int));
        }
        if !char_is_white(c) {
            string_push(&mut out, c);
        }
        i = i + 1;
    }
    assert(s@.take(n as int) =~= s@);
    out
}

/// Whether a pack is part of the base game.
pub fn is_base_bundle_dlc(dlc_code: &str) -> (r: bool)
    ensures
        r == is_base_bundle_code(dlc_code@),
{
    let lower = str_to_lowercase(dlc_code);
    let dlc = remove_white(lower.as_str());
    let names: [&str; 11] = ["r", "rv", "respect", "respect/v", "p1", "portable1", "p2", "portable2", "gg", "guiltygear", "guilty gear"];
    let ghost codes = names@.map_values(|k: &str| k@);
    assert(codes =~= base_bundle_codes());
    let mut i: usize = 0;
    while i < 11
        invariant
            i <= 11,
            names@.len() == 11,
            codes == names@.map_values(|k: &str| k@),
            codes == base_bundle_codes(),
            dlc@ == without_white(unicode_lowercase(dlc_code@)),
            forall|j: int| 0 <= j < i ==> codes[j] != dlc@,
        decreases 11 - i,
    {
        if str_eq(dlc.as_str(), names[i]) {
            assert(codes[i as int] == dlc@);
            assert(base_bundle_codes()[i as int] == dlc@);
            assert(base_bundle_codes().contains(dlc@));
            return true;
        }
        i = i + 1;
    }
    assert(!codes.contains(dlc@));
    false
}

/// The level labels: "1" to "15" for the normal tabs, then "SC1" to "SC15".
pub open spec fn level_label_texts() -> Seq<Seq<char>> {
    seq![
        "1"@, "2"@, "3"@, "4"@, "5"@, "6"@, "7"@, "8"@, "9"@, "10"@, "11"@, "12"@, "13"@, "14"@,
        "15"@, "SC1"@, "SC2"@, "SC3"@, "SC4"@, "SC5"@, "SC6"@, "SC7"@, "SC8"@, "SC9"@, "SC10"@,
        "SC11"@, "SC12"@, "SC13"@, "SC14"@, "SC15"@
    ]
}

/// Level labels: "1" to "15" for the normal tabs, then "SC1" to "SC15".
pub fn level_labels() -> (r: [&'static str; 30])
    ensures
        r@.map_values(|t: &str| t@) == level_label_texts(),
{
    let r = [
        "1", "2", "3", "4", "5", "6", "7", "8", "9", "10", "11", "12", "13", "14", "15", "SC1",
        "SC2", "SC3", "SC4", "SC5", "SC6", "SC7", "SC8", "SC9", "SC10", "SC11", "SC12", "SC13",
        "SC14", "SC15",
    ];
    assert(r@.map_values(|t: &str| t@) =~= level_label_texts());
    r
}

/// Position of a chart level among the level labels: levels 1-15 of the SC tab come after
/// those of the other tabs; other levels have none.
pub open spec fn level_index(difficulty: Seq<char>, level: Option<u32>) -> Option<int> {
    match level {
        Some(lvl) if 1 <= lvl <= 15 => if difficulty == difficulty_label(Difficulty::SC) {
            Some(15 + lvl - 1)
        } else {
            Some(lvl - 1)
        },
        _ => None,
    }
}

/// Index of a chart level among the level labels.
pub fn pattern_level_index(difficulty: &str, level: Option<u32>) -> (r: Option<usize>)
    ensures
        match r {
            Some(i) => level_index(difficulty@, level) == Some(i as int),
            None => level_index(difficulty@, level) is None,
        },
{
    let lvl = match level {
        Some(l) => l,
        None => return None,
    };
    if lvl == 0 || lvl > 15 {
        return None;
    }
    if str_eq(difficulty, Difficulty::SC.as_str()) {
        Some(15 + (lvl as usize - 1))
    } else {
        Some(lvl as usize - 1)
    }
}

/// Every level index lies inside the label table.
pub proof fn lemma_level_index_in_table(difficulty: Seq<char>, level: Option<u32>)
    ensures
        level_index(difficulty, level) matches Some(i) ==> 0 <= i < 30,
{
}

/// Reads a provider's cached answers for a recommendation source.
pub struct ProviderCacheReader {
    pub source_id: String,
    pub source_label: String,
    pub cache_dir: String,
    pub vary: Vec<VaryDim>,
    /// Whole seconds of the time to live.
    pub ttl_secs: u64,
    /// Nanoseconds of the time to live beyond its whole seconds.
    pub ttl_nanos: u32,
}

/// Debug name of a mode (`B4`...), as the cache file names spell it.
pub open spec fn mode_debug_name(m: Mode) -> Seq<char> {
    match m {
        Mode::B4 => seq!['B', '4'],
        Mode::B5 => seq!['B', '5'],
        Mode::B6 => seq!['B', '6'],
        Mode::B8 => seq!['B', '8'],
    }
}

/// One part of a cache key.
pub open spec fn key_part(d: VaryDim, song_id: i32, mode: Mode, diff: Difficulty, v_id: Option<Seq<char>>) -> Seq<char> {
    match d {
        VaryDim::SongId => int_decimal(song_id as int),
        VaryDim::Mode => mode_debug_name(mode),
        VaryDim::Diff => difficulty_label(diff),
        VaryDim::VId => match v_id {
            Some(v) => v,
            None => Seq::empty(),
        },
    }
}

/// The parts for `dims`, joined with `_`.
pub open spec fn joined_key(dims: Seq<VaryDim>, song_id: i32, mode: Mode, diff: Difficulty, v_id: Option<Seq<char>>) -> Seq<char>
    decreases dims.len(),
{
    if dims.len() == 0 {
        Seq::empty()
    } else if dims.len() == 1 {
        key_part(dims[0], song_id, mode, diff, v_id)
    } else {
        joined_key(dims.drop_last(), song_id, mode, diff, v_id) + seq!['_'] + key_part(dims.last(), song_id, mode, diff, v_id)
    }
}

/// The cache key: `global` when nothing varies, else the varying parts joined with `_`.
pub open spec fn cache_key_text(dims: Seq<VaryDim>, song_id: i32, mode: Mode, diff: Difficulty, v_id: Option<Seq<char>>) -> Seq<char> {
    if dims.len() == 0 {
        seq!['g', 'l', 'o', 'b', 'a', 'l']
    } else {
        joined_key(dims, song_id, mode, diff, v_id)
    }
}

fn mode_debug(m: Mode) -> (r: &'static str)
    ensures
        r@ == mode_debug_name(m),
{
    match m {
        Mode::B4 => {
            proof { reveal_strlit("B4"); }
            "B4"
        },
        Mode::B5 => {
            proof { reveal_strlit("B5"); }
            "B5"
        },
        Mode::B6 => {
            proof { reveal_strlit("B6"); }
            "B6"
        },
        Mode::B8 => {
            proof { reveal_strlit("B8"); }
            "B8"
        },
    }
}

impl ProviderCacheReader {
    /// A reader of the answers cached in `cache_dir`, fresh for `ttl_secs` seconds and
    /// `ttl_nanos` nanoseconds.
    pub fn new(
        source_id: String,
        source_label: String,
        cache_dir: String,
        vary: Vec<VaryDim>,
        ttl_secs: u64,
        ttl_nanos: u32,
    ) -> (r: ProviderCacheReader)
        ensures
            r.source_id == source_id,
            r.source_label == source_label,
            r.cache_dir == cache_dir,
            r.vary == vary,
            r.ttl_secs == ttl_secs,
            r.ttl_nanos == ttl_nanos,
    {
        ProviderCacheReader { source_id, source_label, cache_dir, vary, ttl_secs, ttl_nanos }
    }

    /// The source's identifier.
    pub fn source_id(&self) -> (r: &str)
        ensures
            r@ == self.source_id@,
    {
        self.source_id.as_str()
    }

    /// The source's display name.
    pub fn source_label(&self) -> (r: &str)
        ensures
            r@ == self.source_label@,
    {
        self.source_label.as_str()
    }

    /// Name of the cached answer for chart `(song_id, mode, diff)` and user `v_id`.
    pub fn cache_key(&self, song_id: i32, mode: Mode, diff: Difficulty, v_id: Option<&str>) -> (r: String)
        ensures
            r@ == cache_key_text(self.vary@, song_id, mode, diff, match v_id { Some(v) => Some(v@), None => None }),
    {
        let ghost vid = match v_id { Some(v) => Some(v@), None => None };
        if self.vary.len() == 0 {
            proof { reveal_strlit("global"); }
            return "global".to_owned();
        }
        let mut key = String::new();
        let mut i: usize = 0;
        while i < self.vary.len()
            invariant
                i <= self.vary@.len(),
                self.vary@.len() > 0,
                vid == (match v_id { Some(v) => Some(v@), None => None }),
                key@ == joined_key(self.vary@.take(i as int), song_id, mode, diff, vid),
            decreases self.vary@.len() - i,
        {
            proof {
                assert(self.vary@.take(i + 1).drop_last() =~= self.vary@.take(i as int));
                assert(self.vary@.take(i + 1).last() == self.vary@[i as int]);
                if i == 0 {
                    assert(self.vary@.take(1)[0] == self.vary@[0]);
                }
            }
            let ghost before = key@;
            let ghost part = key_part(self.vary@[i as int], song_id, mode, diff, vid);
            if i > 0 {
                string_push(&mut key, '_');
            }
            let ghost mid = key@;
            match self.vary[i] {
                VaryDim::SongId => {
                    let t = i64_to_decimal(song_id as i64);
                    key.append(t.as_str());
                    assert(t@ == part);
                },
                VaryDim::Mode => {
                    key.append(mode_debug(mode));
                },
                VaryDim::Diff => {
                    key.append(diff.as_str());
                },
                VaryDim::VId => {
                    match v_id {
                        Some(v) => {
                            key.append(v);
                            assert(v@ == part);
                        },
                        None => {
                            assert(part =~= Seq::<char>::empty());
                        },
                    }
                },
            }
            proof {
                assert(key@ =~= mid + part);
                if i > 0 {
                    assert(key@ =~= before + seq!['_'] + part);
                } else {
                    assert(key@ =~= part);
                }
            }
            i = i + 1;
        }
        assert(self.vary@.take(self.vary@.len() as int) =~= self.vary@);
        key
    }
}


/// The fields of one entry of a provider's answer that decide whether it is kept.
#[derive(Debug, Clone)]
pub struct ProviderEntryHead {
    pub song_id: i32,
    pub mode: String,
    pub diff: String,
}

/// What the reader makes of a provider's cached answer: the source's status, and the
/// entries it keeps (index in the answer, song, mode and difficulty), in answer order.
#[derive(Debug)]
pub struct ProviderPlan {
    pub status: SourceStatus,
    pub kept: Vec<(usize, i32, Mode, Difficulty)>,
}

/// The entries among `entries` whose mode and difficulty are known labels, in order.
pub open spec fn kept_entries(entries: Seq<ProviderEntryHead>) -> Seq<(usize, i32, Mode, Difficulty)>
    decreases entries.len(),
{
    if entries.len() == 0 {
        Seq::empty()
    } else {
        let prev = kept_entries(entries.drop_last());
        let e = entries.last();
        match (mode_from_label(e.mode@), difficulty_from_label(e.diff@)) {
            (Some(m), Some(d)) => prev.push(((entries.len() - 1) as usize, e.song_id, m, d)),
            _ => prev,
        }
    }
}

/// An answer that the reader refuses: none could be read, it names another protocol,
/// or it holds no entries.
pub open spec fn answer_refused(payload: Option<(String, Vec<ProviderEntryHead>)>) -> bool {
    match payload {
        None => true,
        Some((protocol, entries)) => protocol@ != protocol_id() || entries@.len() == 0,
    }
}

impl ProviderCacheReader {
    /// The answer is older than the time to live; an age that could not be read counts
    /// as the longest one. `elapsed` is whole seconds and the nanoseconds beyond them,
    /// and durations compare as such pairs do, seconds first.
    pub fn cache_is_stale(&self, elapsed: Option<(u64, u32)>) -> (r: bool)
        ensures
            r == match elapsed {
                None => true,
                Some((secs, nanos)) => secs > self.ttl_secs || (secs == self.ttl_secs && nanos
                    > self.ttl_nanos),
            },
    {
        match elapsed {
            None => true,
            Some((secs, nanos)) => secs > self.ttl_secs || (secs == self.ttl_secs && nanos > self.ttl_nanos),
        }
    }

    /// `recommend` after the cache file was read and parsed: the status and the entries
    /// kept for the answer `payload` (its protocol and entries; `None` when the file could
    /// not be read or parsed), whose age made it `is_stale` or not.
    pub fn plan_bundle(&self, payload: Option<(String, Vec<ProviderEntryHead>)>, is_stale: bool) -> (r: ProviderPlan)
        ensures
            answer_refused(payload) ==> r.status == SourceStatus::Error && r.kept@.len() == 0,
            !answer_refused(payload) ==> r.status == (if is_stale { SourceStatus::Stale } else { SourceStatus::Current })
                && r.kept@ == kept_entries(payload.unwrap().1@),
    {
        let (protocol, entries) = match payload {
            None => {
                return ProviderPlan { status: SourceStatus::Error, kept: Vec::new() };
            },
            Some(p) => p,
        };
        if !str_eq(protocol.as_str(), RECOMMEND_PROTOCOL_ID) || entries.len() == 0 {
            return ProviderPlan { status: SourceStatus::Error, kept: Vec::new() };
        }
        let mut kept: Vec<(usize, i32, Mode, Difficulty)> = Vec::new();
        let mut i: usize = 0;
        while i < entries.len()
            invariant
                i <= entries@.len(),
                kept@ == kept_entries(entries@.take(i as int)),
            decreases entries.len() - i,
        {
            let e = &entries[i];
            proof {
                assert(entries@.take(i + 1).drop_last() =~= entries@.take(i as int));
                assert(entries@.take(i + 1).last() == entries@[i as int]);
            }
            match (Mode::from_str(e.mode.as_str()), Difficulty::from_str(e.diff.as_str())) {
                (Some(m), Some(d)) => {
                    kept.push((i, e.song_id, m, d));
                },
                _ => {},
            }
            i = i + 1;
        }
        assert(entries@.take(entries@.len() as int) =~= entries@);
        ProviderPlan {
            status: if is_stale { SourceStatus::Stale } else { SourceStatus::Current },
            kept,
        }
    }
}


/// The reader keeps exactly the entries whose mode and difficulty it knows, in the
/// answer's order, each with its own song, mode and difficulty.
pub proof fn lemma_kept_entries_exact(entries: Seq<ProviderEntryHead>)
    requires
        entries.len() <= usize::MAX,
    ensures
        kept_entries(entries).len() <= entries.len(),
        forall|k: int| 0 <= k < kept_entries(entries).len() ==> {
            let (i, id, m, d) = #[trigger] kept_entries(entries)[k];
            &&& (i as int) < entries.len()
            &&& entries[i as int].song_id == id
            &&& mode_from_label(entries[i as int].mode@) == Some(m)
            &&& difficulty_from_label(entries[i as int].diff@) == Some(d)
        },
        forall|k1: int, k2: int|
            0 <= k1 < k2 < kept_entries(entries).len() ==> (#[trigger] kept_entries(entries)[k1]).0
                < (#[trigger] kept_entries(entries)[k2]).0,
        forall|i: int|
            0 <= i < entries.len() && mode_from_label(entries[i].mode@) is Some
                && difficulty_from_label(entries[i].diff@) is Some ==> exists|k: int|
                0 <= k < kept_entries(entries).len() && (#[trigger] kept_entries(entries)[k]).0 == i,
    decreases entries.len(),
{
    if entries.len() > 0 {
        let prev_entries = entries.drop_last();
        lemma_kept_entries_exact(prev_entries);
        let prev = kept_entries(prev_entries);
        let kept = kept_entries(entries);
        assert forall|k: int| 0 <= k < prev.len() implies (#[trigger] prev[k]).0 < entries.len() - 1 by {
        }
        assert forall|i: int|
            0 <= i < entries.len() && mode_from_label(entries[i].mode@) is Some
                && difficulty_from_label(entries[i].diff@) is Some implies exists|k: int|
                0 <= k < kept.len() && (#[trigger] kept[k]).0 == i by {
            if i < entries.len() - 1 {
                assert(entries[i] == prev_entries[i]);
                let k = choose|k: int| 0 <= k < prev.len() && (#[trigger] prev[k]).0 == i;
                assert(kept[k] == prev[k]);
            } else {
                assert(entries.last() == entries[i]);
                assert(kept == prev.push(((entries.len() - 1) as usize, entries[i].song_id,
                    mode_from_label(entries[i].mode@).unwrap(), difficulty_from_label(entries[i].diff@).unwrap())));
                assert(kept[kept.len() - 1].0 == i);
            }
        }
        assert forall|k: int| 0 <= k < kept.len() implies {
            let (i, id, m, d) = #[trigger] kept[k];
            &&& (i as int) < entries.len()
            &&& entries[i as int].song_id == id
            &&& mode_from_label(entries[i as int].mode@) == Some(m)
            &&& difficulty_from_label(entries[i as int].diff@) == Some(d)
        } by {
            if k < prev.len() {
                assert(kept[k] == prev[k]);
                assert(entries[prev[k].0 as int] == prev_entries[prev[k].0 as int]);
            }
        }
    }
}


/// A song as far as pack ownership is concerned: its id text and its pack code.
#[derive(Debug, Clone)]
pub struct SongPack {
    pub title: String,
    pub dlc_code: String,
}

/// Packs that every player owns.
pub open spec fn base_owned_codes() -> Set<Seq<char>> {
    set!["r"@, "rv"@, "p1"@, "p2"@, "gg"@]
}

/// A pack code compared without case and white space.
pub open spec fn pack_code(dlc_code: Seq<char>) -> Seq<char> {
    without_white(unicode_lowercase(dlc_code))
}

/// Song `song` has a record: its id text is an `i32` among `recorded`.
pub open spec fn song_recorded(song: SongPack, recorded: Set<i32>) -> bool {
    decimal_value(song.title@) matches Some(v) && i32::MIN <= v <= i32::MAX && recorded.contains(v as i32)
}

/// The non-empty packs of the songs among the first `n` of `songs` that have a record.
pub open spec fn recorded_codes(songs: Seq<SongPack>, recorded: Set<i32>, n: int) -> Set<Seq<char>> {
    Set::new(
        |c: Seq<char>|
            c.len() > 0 && exists|k: int|
                0 <= k < n && song_recorded(#[trigger] songs[k], recorded) && pack_code(songs[k].dlc_code@)
                    == c,
    )
}

/// The packs that the player owns: the base packs, and, when the records can be read, the
/// non-empty pack of every song with a record.
pub open spec fn owned_codes(songs: Seq<SongPack>, ready: bool, recorded: Set<i32>) -> Set<Seq<char>> {
    if ready {
        base_owned_codes().union(recorded_codes(songs, recorded, songs.len() as int))
    } else {
        base_owned_codes()
    }
}

/// Adds `code` to `codes` unless it is there.
fn insert_code(codes: &mut Vec<String>, code: String)
    requires
        old(codes).deep_view().no_duplicates(),
    ensures
        final(codes).deep_view().no_duplicates(),
        final(codes).deep_view().to_set() == old(codes).deep_view().to_set().insert(code@),
{
    let ghost before = codes.deep_view();
    let mut i: usize = 0;
    while i < codes.len() && !str_eq(codes[i].as_str(), code.as_str())
        invariant
            i <= codes@.len(),
            codes.deep_view() == before,
            forall|j: int| 0 <= j < i ==> before[j] != code@,
        decreases codes.len() - i,
    {
        i = i + 1;
    }
    if i == codes.len() {
        codes.push(code);
        proof {
            let after = codes.deep_view();
            let n = before.len() as int;
            assert(after =~= before.push(code@));
            assert forall|a: int, b: int| 0 <= a < after.len() && 0 <= b < after.len() && a != b implies after[a] != after[b] by {
                if a < n && b < n {
                } else if a < n {
                    assert(after[b] == code@);
                } else {
                    assert(after[a] == code@);
                }
            }
            assert(after.to_set() =~= before.to_set().insert(code@)) by {
                assert forall|c: Seq<char>| #[trigger] after.contains(c) == before.to_set().insert(code@).contains(c) by {
                    if after.contains(c) {
                        let j = choose|j: int| 0 <= j < after.len() && after[j] == c;
                        if j < n {
                            assert(before[j] == c);
                        }
                    }
                    if before.contains(c) {
                        let j = choose|j: int| 0 <= j < before.len() && before[j] == c;
                        assert(after[j] == c);
                    }
                    if c == code@ {
                        assert(after[n] == c);
                    }
                }
            }
        }
    } else {
        proof {
            assert(before[i as int] == code@);
            assert(before.to_set().insert(code@) =~= before.to_set());
        }
    }
}

/// The packs that the player owns, each once: the base packs, and, when the record store
/// is ready, the pack of every song whose id has a record (`get_owned_dlc_set`).
pub fn owned_dlc_set(songs: &[SongPack], rdb_ready: bool, recorded_ids: &HashSet<i32>) -> (r: Vec<String>)
    ensures
        r.deep_view().no_duplicates(),
        r.deep_view().to_set() == owned_codes(songs@, rdb_ready, recorded_ids@),
{
    broadcast use vstd::std_specs::hash::group_hash_axioms;

    let mut owned: Vec<String> = Vec::new();
    assert(owned.deep_view().to_set() =~= Set::<Seq<char>>::empty());
    insert_code(&mut owned, "r".to_owned());
    insert_code(&mut owned, "rv".to_owned());
    insert_code(&mut owned, "p1".to_owned());
    insert_code(&mut owned, "p2".to_owned());
    insert_code(&mut owned, "gg".to_owned());
    assert(owned.deep_view().to_set() =~= base_owned_codes());
    if !rdb_ready {
        return owned;
    }
    assert(recorded_codes(songs@, recorded_ids@, 0) =~= Set::<Seq<char>>::empty());
    let mut i: usize = 0;
    while i < songs.len()
        invariant
            i <= songs@.len(),
            owned.deep_view().no_duplicates(),
            owned.deep_view().to_set() == base_owned_codes().union(recorded_codes(songs@, recorded_ids@, i as int)),
        decreases songs.len() - i,
    {
        let song = &songs[i];
        let ghost before = owned.deep_view().to_set();
        let recorded = match parse_i32(song.title.as_str()) {
            Some(sid) => recorded_ids.contains(&sid),
            None => false,
        };
        if recorded {
            let lower = str_to_lowercase(song.dlc_code.as_str());
            let code = remove_white(lower.as_str());
            if code.as_str().unicode_len() > 0 {
                let ghost c = code@;
                insert_code(&mut owned, code);
                proof {
                    assert(song_recorded(songs@[i as int], recorded_ids@));
                    assert(recorded_codes(songs@, recorded_ids@, i + 1) =~= recorded_codes(songs@, recorded_ids@, i as int).insert(c)) by {
                        assert forall|x: Seq<char>| #[trigger] recorded_codes(songs@, recorded_ids@, i + 1).contains(x) == recorded_codes(songs@, recorded_ids@, i as int).insert(c).contains(x) by {
                            if recorded_codes(songs@, recorded_ids@, i + 1).contains(x) && x != c {
                                let k = choose|k: int|
                                    0 <= k < i + 1 && song_recorded(#[trigger] songs@[k], recorded_ids@) && pack_code(
                                        songs@[k].dlc_code@,
                                    ) == x;
                                assert(k < i);
                            }
                        }
                    }
                }
            } else {
                proof {
                    assert(recorded_codes(songs@, recorded_ids@, i + 1) =~= recorded_codes(songs@, recorded_ids@, i as int)) by {
                        assert forall|x: Seq<char>| #[trigger] recorded_codes(songs@, recorded_ids@, i + 1).contains(x) implies recorded_codes(songs@, recorded_ids@, i as int).contains(x) by {
                            let k = choose|k: int|
                                0 <= k < i + 1 && song_recorded(#[trigger] songs@[k], recorded_ids@) && pack_code(
                                    songs@[k].dlc_code@,
                                ) == x;
                            if k == i {
                                assert(x.len() == 0);
                            }
                        }
                    }
                }
            }
        } else {
            proof {
                assert(!song_recorded(songs@[i as int], recorded_ids@));
                assert(recorded_codes(songs@, recorded_ids@, i + 1) =~= recorded_codes(songs@, recorded_ids@, i as int)) by {
                    assert forall|x: Seq<char>| #[trigger] recorded_codes(songs@, recorded_ids@, i + 1).contains(x) implies recorded_codes(songs@, recorded_ids@, i as int).contains(x) by {
                        let k = choose|k: int|
                            0 <= k < i + 1 && song_recorded(#[trigger] songs@[k], recorded_ids@) && pack_code(
                                songs@[k].dlc_code@,
                            ) == x;
                        assert(k < i);
                    }
                }
            }
        }
        i = i + 1;
    }
    assert(owned.deep_view().to_set() =~= owned_codes(songs@, rdb_ready, recorded_ids@));
    owned
}


/// The base packs count as owned whatever the records say, and records only add packs.
pub proof fn lemma_base_packs_always_owned(songs: Seq<SongPack>, ready: bool, recorded: Set<i32>, more: Set<i32>)
    requires
        recorded.subset_of(more),
    ensures
        base_owned_codes().subset_of(owned_codes(songs, ready, recorded)),
        owned_codes(songs, ready, recorded).subset_of(owned_codes(songs, ready, more)),
{
    assert forall|c: Seq<char>| #[trigger] owned_codes(songs, ready, recorded).contains(c) implies owned_codes(songs, ready, more).contains(c) by {
        if ready && !base_owned_codes().contains(c) {
            let k = choose|k: int|
                0 <= k < songs.len() && song_recorded(#[trigger] songs[k], recorded) && pack_code(songs[k].dlc_code@) == c;
            assert(song_recorded(songs[k], more));
        }
    }
}

} // verus!
