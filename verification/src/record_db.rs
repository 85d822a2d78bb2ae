//! The play-record store: the Steam account it keys records by, how that account is
//! shown in logs, and what the store's queries make of the rows they read.
use vstd::prelude::*;
use vstd::string::*;
use std::collections::HashSet;
use crate::model::{Difficulty, Mode, difficulty_label, difficulty_from_label, mode_from_label};
use crate::text::{first_non_white, last_non_white_end, lemma_trimmed_idempotent, trimmed, trim_to_string, str_eq, decimal_value, parse_i32, i32_value, int_decimal, lemma_decimal_round_trip};


verus! {

/// Account key of records made while no Steam account is known.
pub const UNKNOWN_STEAM_ID: &'static str = "__unknown__";

/// The characters of [`UNKNOWN_STEAM_ID`].
pub open spec fn unknown_steam_id() -> Seq<char> {
    seq!['_', '_', 'u', 'n', 'k', 'n', 'o', 'w', 'n', '_', '_']
}

/// The account key that an optional Steam id stands for: the id without surrounding
/// white space, or [`unknown_steam_id`] when it is absent or blank.
pub open spec fn normalized_steam_id(steam_id: Option<Seq<char>>) -> Seq<char> {
    match steam_id {
        Some(s) => if trimmed(s).len() > 0 { trimmed(s) } else { unknown_steam_id() },
        None => unknown_steam_id(),
    }
}

/// Bytes that `c` takes in UTF-8.
pub open spec fn utf8_width(c: char) -> int {
    let u = c as u32;
    if u < 0x80 { 1 } else if u < 0x800 { 2 } else if u < 0x10000 { 3 } else { 4 }
}

/// Bytes that `s` takes in UTF-8 (what `str::len` returns).
pub open spec fn utf8_len(s: Seq<char>) -> int
    decreases s.len(),
{
    if s.len() == 0 { 0 } else { utf8_len(s.drop_last()) + utf8_width(s.last()) }
}

/// Byte offset `k` of `s` falls between two characters.
pub open spec fn on_char_boundary(s: Seq<char>, k: int) -> bool {
    exists|i: int| 0 <= i <= s.len() && #[trigger] utf8_len(s.take(i)) == k
}

/// The number of characters that make up the first `k` bytes of `s`.
pub open spec fn chars_in_bytes(s: Seq<char>, k: int) -> int {
    choose|i: int| 0 <= i <= s.len() && #[trigger] utf8_len(s.take(i)) == k
}

/// `mask_id` can cut `s`: every input but a long id whose fourth byte, or fourth byte
/// from the end, falls inside a character (on which byte slicing panics).
pub open spec fn maskable(s: Seq<char>) -> bool {
    s == unknown_steam_id() || utf8_len(s) <= 8 || (on_char_boundary(s, 4) && on_char_boundary(
        s,
        utf8_len(s) - 4,
    ))
}

/// How an account key is shown in logs: the unknown key as it is, a key of at most eight
/// bytes as `***`, any other as its first four bytes, `...` and its last four bytes.
pub open spec fn masked_id(s: Seq<char>) -> Seq<char> {
    if s == unknown_steam_id() {
        s
    } else if utf8_len(s) <= 8 {
        seq!['*', '*', '*']
    } else {
        s.take(chars_in_bytes(s, 4)) + seq!['.', '.', '.'] + s.skip(
            chars_in_bytes(s, utf8_len(s) - 4),
        )
    }
}

proof fn lemma_utf8_len_step(s: Seq<char>, i: int)
    requires
        0 <= i < s.len(),
    ensures
        utf8_len(s.take(i + 1)) == utf8_len(s.take(i)) + utf8_width(s[i]),
{
    assert(s.take(i + 1).drop_last() =~= s.take(i));
}

proof fn lemma_utf8_len_grows(s: Seq<char>, i: int, j: int)
    requires
        0 <= i < j <= s.len(),
    ensures
        utf8_len(s.take(i)) < utf8_len(s.take(j)),
    decreases j - i,
{
    lemma_utf8_len_step(s, j - 1);
    if i < j - 1 {
        lemma_utf8_len_grows(s, i, j - 1);
    }
}

/// Prefixes with the same byte length have the same number of characters.
proof fn lemma_boundary_unique(s: Seq<char>, i: int, j: int)
    requires
        0 <= i <= s.len(),
        0 <= j <= s.len(),
        utf8_len(s.take(i)) == utf8_len(s.take(j)),
    ensures
        i == j,
{
    if i < j {
        lemma_utf8_len_grows(s, i, j);
    } else if j < i {
        lemma_utf8_len_grows(s, j, i);
    }
}

/// Number of characters of `s` that fill its first `k` bytes, if `k` is a boundary.
fn chars_before_byte(s: &str, k: u128) -> (r: Option<usize>)
    ensures
        match r {
            Some(i) => i <= s@.len() && utf8_len(s@.take(i as int)) == k,
            None => !on_char_boundary(s@, k as int),
        },
{
    let n = s.unicode_len();
    let mut i: usize = 0;
    let mut bytes: u128 = 0;
    proof {
        assert(s@.take(0) =~= Seq::<char>::empty());
    }
    while i < n && bytes < k
        invariant
            n == s@.len(),
            i <= n,
            bytes == utf8_len(s@.take(i as int)),
            bytes <= 4 * i,
            forall|j: int| 0 <= j < i ==> #[trigger] utf8_len(s@.take(j)) < k,
        decreases n - i,
    {
        let c = s.get_char(i);
        let u = c as u32;
        let w: u128 = if u < 0x80 { 1 } else if u < 0x800 { 2 } else if u < 0x10000 { 3 } else { 4 };
        proof {
            lemma_utf8_len_step(s@, i as int);
        }
        bytes = bytes + w;
        i = i + 1;
    }
    if bytes == k {
        Some(i)
    } else {
        proof {
            assert forall|j: int| 0 <= j <= s@.len() implies #[trigger] utf8_len(s@.take(j)) != k by {
                if j > i {
                    lemma_utf8_len_grows(s@, i as int, j);
                }
            }
        }
        None
    }
}

/// Total UTF-8 byte length of `s`.
fn byte_len(s: &str) -> (r: u128)
    ensures
        r == utf8_len(s@),
{
    let n = s.unicode_len();
    let mut i: usize = 0;
    let mut bytes: u128 = 0;
    proof {
        assert(s@.take(0) =~= Seq::<char>::empty());
    }
    while i < n
        invariant
            n == s@.len(),
            i <= n,
            bytes == utf8_len(s@.take(i as int)),
            bytes <= 4 * i,
        decreases n - i,
    {
        let c = s.get_char(i);
        let u = c as u32;
        let w: u128 = if u < 0x80 { 1 } else if u < 0x800 { 2 } else if u < 0x10000 { 3 } else { 4 };
        proof {
            lemma_utf8_len_step(s@, i as int);
        }
        bytes = bytes + w;
        i = i + 1;
    }
    assert(s@.take(n as int) =~= s@);
    bytes
}

/// An owned copy of [`UNKNOWN_STEAM_ID`].
fn unknown_id_string() -> (r: String)
    ensures
        r@ == unknown_steam_id(),
{
    proof {
        reveal_strlit("__unknown__");
    }
    UNKNOWN_STEAM_ID.to_owned()
}

/// Whether `steam_id` is the key of the unknown account.
fn is_unknown_key(steam_id: &str) -> (r: bool)
    ensures
        r == (steam_id@ == unknown_steam_id()),
{
    proof {
        reveal_strlit("__unknown__");
        assert(UNKNOWN_STEAM_ID@ =~= unknown_steam_id());
    }
    str_eq(steam_id, UNKNOWN_STEAM_ID)
}

/// `mask_id`: how the account key `steam_id` is shown in logs.
pub fn mask_id(steam_id: &str) -> (r: String)
    requires
        maskable(steam_id@),
    ensures
        r@ == masked_id(steam_id@),
{
    if is_unknown_key(steam_id) {
        return steam_id.to_owned();
    }
    let total = byte_len(steam_id);
    if total <= 8 {
        let mut r = String::new();
        proof {
            reveal_strlit("***");
        }
        r.append("***");
        assert(r@ =~= seq!['*', '*', '*']);
        return r;
    }
    let head = chars_before_byte(steam_id, 4);
    let tail = chars_before_byte(steam_id, total - 4);
    match (head, tail) {
        (Some(h), Some(t)) => {
            proof {
                let hc = chars_in_bytes(steam_id@, 4);
                let tc = chars_in_bytes(steam_id@, utf8_len(steam_id@) - 4);
                lemma_boundary_unique(steam_id@, h as int, hc);
                lemma_boundary_unique(steam_id@, t as int, tc);
            }
            let n = steam_id.unicode_len();
            let mut r = String::new();
            r.append(steam_id.substring_char(0, h));
            proof {
                reveal_strlit("...");
            }
            r.append("...");
            r.append(steam_id.substring_char(t, n));
            assert(r@ =~= masked_id(steam_id@));
            r
        },
        _ => {
            // Unreachable: `maskable` guarantees both boundaries.
            steam_id.to_owned()
        },
    }
}

/// The record store of one database file, keyed by the current Steam account.
pub struct RecordDB {
    db_path: String,
    steam_id: String,
    pub is_ready: bool,
}

/// The account key that `normalize_steam_id` makes of an optional id.
fn normalize_steam_id(steam_id: Option<&str>) -> (r: String)
    ensures
        r@ == normalized_steam_id(
            match steam_id {
                Some(s) => Some(s@),
                None => None,
            },
        ),
{
    match steam_id {
        Some(s) => {
            let t = trim_to_string(s);
            if t.as_str().unicode_len() > 0 {
                t
            } else {
                unknown_id_string()
            }
        },
        None => unknown_id_string(),
    }
}

impl RecordDB {
    /// The database file's path.
    pub closed spec fn spec_db_path(&self) -> Seq<char> {
        self.db_path@
    }

    /// Whether the tables are known to exist.
    pub closed spec fn spec_ready(&self) -> bool {
        self.is_ready
    }

    /// The current account key.
    pub closed spec fn spec_steam_id(&self) -> Seq<char> {
        self.steam_id@
    }

    /// A store for the file `db_path`, not yet initialised, keyed by `steam_id`.
    pub fn new(db_path: String, steam_id: Option<&str>) -> (r: RecordDB)
        ensures
            r.spec_db_path() == db_path@,
            r.spec_steam_id() == normalized_steam_id(
                match steam_id {
                    Some(s) => Some(s@),
                    None => None,
                },
            ),
            !r.spec_ready(),
    {
        RecordDB { db_path, steam_id: normalize_steam_id(steam_id), is_ready: false }
    }

    /// The database file's path.
    pub fn db_path(&self) -> (r: &str)
        ensures
            r@ == self.spec_db_path(),
    {
        self.db_path.as_str()
    }

    /// The current account key.
    pub fn get_steam_id(&self) -> (r: String)
        ensures
            r@ == self.spec_steam_id(),
    {
        self.steam_id.as_str().to_owned()
    }

    /// The current account key as logs show it.
    pub fn masked_steam_id(&self) -> (r: String)
        requires
            maskable(self.spec_steam_id()),
        ensures
            r@ == masked_id(self.spec_steam_id()),
    {
        mask_id(self.steam_id.as_str())
    }

    /// Whether the rows of account `steam_id` can be read: the tables exist and the id
    /// names a known account.
    pub fn can_read_account(&self, steam_id: &str) -> (r: bool)
        ensures
            r == (self.spec_ready() && !(steam_id@.len() == 0 || steam_id@ == unknown_steam_id())),
    {
        self.is_ready && !is_anonymous_steam_id(steam_id)
    }

    /// The rows of the recent-play list of account `steam_id`, given its play-history
    /// rows `events` read newest first: see [`recent_picks`].
    pub fn recent_record_picks(&self, steam_id: &str, events: &[HistoryRow], limit: usize) -> (r: Vec<
        (usize, i32, Difficulty),
    >)
        ensures
            r@ == recent_picks(self.spec_ready(), steam_id@, events@, limit as int),
    {
        if !self.can_read_account(steam_id) || limit == 0 {
            return Vec::new();
        }
        pick_history_rows(events, limit)
    }

    /// Switches to the account `steam_id`; returns whether the key changed, and the old
    /// and the new key as logs show them.
    pub fn set_steam_id(&mut self, steam_id: Option<&str>) -> (r: (bool, String, String))
        requires
            maskable(old(self).spec_steam_id()),
            maskable(
                normalized_steam_id(
                    match steam_id {
                        Some(s) => Some(s@),
                        None => None,
                    },
                ),
            ),
        ensures
            final(self).spec_steam_id() == normalized_steam_id(
                match steam_id {
                    Some(s) => Some(s@),
                    None => None,
                },
            ),
            final(self).spec_db_path() == old(self).spec_db_path(),
            final(self).spec_ready() == old(self).spec_ready(),
            r.0 == (old(self).spec_steam_id() != final(self).spec_steam_id()),
            r.1@ == masked_id(old(self).spec_steam_id()),
            r.2@ == masked_id(final(self).spec_steam_id()),
    {
        let new_sid = normalize_steam_id(steam_id);
        let changed = !str_eq(self.steam_id.as_str(), new_sid.as_str());
        let old_masked = mask_id(self.steam_id.as_str());
        let new_masked = mask_id(new_sid.as_str());
        self.steam_id = new_sid;
        (changed, old_masked, new_masked)
    }
}

/// Whether queries for `steam_id` are skipped: an empty key or the unknown account's key.
pub fn is_anonymous_steam_id(steam_id: &str) -> (r: bool)
    ensures
        r == (steam_id@.len() == 0 || steam_id@ == unknown_steam_id()),
{
    steam_id.unicode_len() == 0 || is_unknown_key(steam_id)
}

/// A row of the Top-50 query as it was read: its song id and difficulty, or the
/// message of the error that reading it raised.
pub type TopRow = Result<(String, String), String>;

/// What [`rank_in_top_rows`] answers for the rows from index `i` on, `i` rows having
/// been passed: the first error stops the scan, the first row of the pattern gives its
/// 1-based rank.
pub open spec fn top_rank_from(
    rows: Seq<TopRow>,
    i: int,
    song_id: Seq<char>,
    diff: Seq<char>,
) -> Result<Option<int>, Seq<char>>
    decreases rows.len() - i,
{
    if i < 0 || i >= rows.len() {
        Ok(None)
    } else {
        match rows[i] {
            Err(e) => Err(e@),
            Ok((s, d)) => if s@ == song_id && d@ == diff {
                Ok(Some(i + 1))
            } else {
                top_rank_from(rows, i + 1, song_id, diff)
            },
        }
    }
}

/// The 1-based rank of the pattern (`song_id`, `difficulty`) among the rows of the
/// Top-50 query, read in their order; the first read error is returned.
pub fn rank_in_top_rows(rows: &[TopRow], song_id: &str, difficulty: Difficulty) -> (r: Result<
    Option<usize>,
    String,
>)
    ensures
        match top_rank_from(rows@, 0, song_id@, difficulty_label(difficulty)) {
            Ok(Some(k)) => r matches Ok(Some(x)) && x == k,
            Ok(None) => r matches Ok(None),
            Err(e) => r matches Err(m) && m@ == e,
        },
{
    let diff = difficulty.as_str();
    let mut i: usize = 0;
    while i < rows.len()
        invariant
            i <= rows@.len(),
            diff@ == difficulty_label(difficulty),
            top_rank_from(rows@, 0, song_id@, diff@) == top_rank_from(rows@, i as int, song_id@, diff@),
        decreases rows.len() - i,
    {
        match &rows[i] {
            Err(e) => {
                return Err(e.as_str().to_owned());
            },
            Ok((s, d)) => {
                if str_eq(s.as_str(), song_id) && str_eq(d.as_str(), diff) {
                    return Ok(Some(i + 1));
                }
            },
        }
        i = i + 1;
    }
    Ok(None)
}

/// Row `r` of the Top-50 query was read and names song `song_id` with difficulty text `diff`.
pub open spec fn top_row_names(r: TopRow, song_id: Seq<char>, diff: Seq<char>) -> bool {
    r matches Ok(p) && p.0@ == song_id && p.1@ == diff
}

/// Row `r` of the Top-50 query was read and names some other chart.
pub open spec fn top_row_names_other(r: TopRow, song_id: Seq<char>, diff: Seq<char>) -> bool {
    r matches Ok(p) && !(p.0@ == song_id && p.1@ == diff)
}

/// What the scan of the Top-50 rows from row `i` on answers, in terms of the rows.
proof fn lemma_top_rank_from_meaning(rows: Seq<TopRow>, i: int, song_id: Seq<char>, diff: Seq<char>)
    requires
        0 <= i <= rows.len(),
    ensures
        match top_rank_from(rows, i, song_id, diff) {
            Ok(Some(k)) => i + 1 <= k <= rows.len() && top_row_names(rows[k - 1], song_id, diff)
                && forall|j: int| i <= j < k - 1 ==> top_row_names_other(#[trigger] rows[j], song_id, diff),
            Ok(None) => forall|j: int| i <= j < rows.len() ==> top_row_names_other(#[trigger] rows[j], song_id, diff),
            Err(e) => exists|j: int|
                i <= j < rows.len() && (#[trigger] rows[j] matches Err(m) && m@ == e)
                    && forall|l: int| i <= l < j ==> top_row_names_other(#[trigger] rows[l], song_id, diff),
        },
    decreases rows.len() - i,
{
    if i < rows.len() {
        lemma_top_rank_from_meaning(rows, i + 1, song_id, diff);
        match rows[i] {
            Err(m) => {
                assert(rows[i] matches Err(mm) && mm@ == m@);
            },
            Ok(p) => {
                if !(p.0@ == song_id && p.1@ == diff) {
                    assert(top_row_names_other(rows[i], song_id, diff));
                    match top_rank_from(rows, i + 1, song_id, diff) {
                        Err(e) => {
                            let j = choose|j: int|
                                i + 1 <= j < rows.len() && (#[trigger] rows[j] matches Err(m) && m@ == e)
                                    && forall|l: int| i + 1 <= l < j ==> top_row_names_other(#[trigger] rows[l], song_id, diff);
                            assert forall|l: int| i <= l < j implies top_row_names_other(#[trigger] rows[l], song_id, diff) by {
                                if l > i {
                                }
                            }
                            assert(i <= j < rows.len() && (rows[j] matches Err(m) && m@ == e));
                        },
                        _ => {},
                    }
                }
            },
        }
    }
}

/// The rank read off the Top-50 rows for song `song_id` with difficulty `difficulty`:
/// a rank `k` means row `k - 1` was read and names that song with that difficulty's
/// label, and every row before it was read and names another chart; no rank means every
/// row was read and none names the chart; an error is the message of the first row that
/// could not be read, every row before it naming another chart.
pub proof fn lemma_top_rank_meaning(rows: Seq<TopRow>, song_id: Seq<char>, difficulty: Difficulty)
    ensures
        match top_rank_from(rows, 0, song_id, difficulty_label(difficulty)) {
            Ok(Some(k)) => 1 <= k <= rows.len() && top_row_names(rows[k - 1], song_id, difficulty_label(difficulty))
                && forall|j: int| 0 <= j < k - 1 ==> top_row_names_other(#[trigger] rows[j], song_id, difficulty_label(difficulty)),
            Ok(None) => forall|j: int| 0 <= j < rows.len() ==> top_row_names_other(#[trigger] rows[j], song_id, difficulty_label(difficulty)),
            Err(e) => exists|j: int|
                0 <= j < rows.len() && (#[trigger] rows[j] matches Err(m) && m@ == e)
                    && forall|l: int| 0 <= l < j ==> top_row_names_other(#[trigger] rows[l], song_id, difficulty_label(difficulty)),
        },
{
    lemma_top_rank_from_meaning(rows, 0, song_id, difficulty_label(difficulty));
}

/// The song ids that the texts `texts` write, as `i32::from_str` reads them; texts that
/// it refuses contribute nothing.
pub open spec fn written_song_ids(texts: Seq<String>) -> Set<i32> {
    Set::new(
        |v: i32|
            exists|k: int| 0 <= k < texts.len() && #[trigger] decimal_value(texts[k]@) == Some(v as int),
    )
}

/// Adds to `ids` every song id that one of `texts` writes (the `song_id` column of
/// the `records`, `varchive_records` and `play_events` tables is stored as text).
pub fn add_recorded_song_ids(ids: &mut HashSet<i32>, texts: &[String])
    ensures
        final(ids)@ == old(ids)@.union(written_song_ids(texts@)),
{
    broadcast use vstd::std_specs::hash::group_hash_axioms;

    let ghost start = ids@;
    let mut i: usize = 0;
    while i < texts.len()
        invariant
            i <= texts@.len(),
            ids@ == start.union(written_song_ids(texts@.take(i as int))),
        decreases texts.len() - i,
    {
        let ghost before = ids@;
        match parse_i32(texts[i].as_str()) {
            Some(v) => {
                ids.insert(v);
            },
            None => {},
        }
        proof {
            let t = texts@.take(i + 1);
            assert forall|v: i32| #[trigger] ids@.contains(v) == start.union(
                written_song_ids(t),
            ).contains(v) by {
                if written_song_ids(texts@.take(i as int)).contains(v) {
                    let k = choose|k: int|
                        0 <= k < i && #[trigger] decimal_value(texts@.take(i as int)[k]@) == Some(
                            v as int,
                        );
                    assert(t[k] == texts@[k]);
                }
                if written_song_ids(t).contains(v) {
                    let k = choose|k: int|
                        0 <= k < i + 1 && #[trigger] decimal_value(t[k]@) == Some(v as int);
                    if k < i {
                        assert(texts@.take(i as int)[k] == texts@[k]);
                    }
                }
                if decimal_value(texts@[i as int]@) == Some(v as int) {
                    assert(t[i as int] == texts@[i as int]);
                }
            }
            assert(ids@ =~= start.union(written_song_ids(t)));
        }
        i = i + 1;
    }
    assert(texts@.take(texts@.len() as int) =~= texts@);
}

/// Whether `column` is among the column names that `PRAGMA table_info` listed.
pub fn table_lists_column(names: &[String], column: &str) -> (r: bool)
    ensures
        r == (exists|k: int| 0 <= k < names@.len() && #[trigger] names@[k]@ == column@),
{
    let mut i: usize = 0;
    while i < names.len()
        invariant
            i <= names@.len(),
            forall|k: int| 0 <= k < i ==> #[trigger] names@[k]@ != column@,
        decreases names.len() - i,
    {
        if str_eq(names[i].as_str(), column) {
            return true;
        }
        i = i + 1;
    }
    false
}


/// A row of the play history or of the record table as it was read: its song-id and
/// difficulty columns, or `None` where one of its columns could not be read.
pub type HistoryRow = Option<(String, String)>;

/// The chart that a history row names, where its song id and its difficulty both parse.
pub open spec fn history_row_chart(row: HistoryRow) -> Option<(i32, Difficulty)> {
    match row {
        Some(cols) => match (i32_value(cols.0@), difficulty_from_label(cols.1@)) {
            (Some(song_id), Some(d)) => Some((song_id, d)),
            _ => None,
        },
        None => None,
    }
}

/// The rows of `rows` that name a chart, in order, each with its position among `rows`
/// and the chart it names.
pub open spec fn history_picks(rows: Seq<HistoryRow>) -> Seq<(usize, i32, Difficulty)>
    decreases rows.len(),
{
    if rows.len() == 0 {
        Seq::empty()
    } else {
        let before = history_picks(rows.drop_last());
        match history_row_chart(rows.last()) {
            Some(c) => before.push(((rows.len() - 1) as usize, c.0, c.1)),
            None => before,
        }
    }
}

/// The first `n` items of `s`, or all of them where it has no more than `n`.
pub open spec fn first_items<A>(s: Seq<A>, n: int) -> Seq<A> {
    if s.len() <= n {
        s
    } else {
        s.take(n)
    }
}

/// The recent-play list of an account, from the play-history rows `events` read newest
/// first: where the store is ready, the account is known and `limit` is not 0, the first
/// `limit` rows that name a chart; otherwise nothing. The record table takes no part.
pub open spec fn recent_picks(ready: bool, steam_id: Seq<char>, events: Seq<HistoryRow>, limit: int) -> Seq<
    (usize, i32, Difficulty),
> {
    if ready && !(steam_id.len() == 0 || steam_id == unknown_steam_id()) && limit > 0 {
        first_items(history_picks(events), limit)
    } else {
        Seq::empty()
    }
}

/// Each chosen history row is a row that was read and names the chart given with it, and
/// the chosen rows come in the order they were read.
pub proof fn lemma_history_picks_sound(rows: Seq<HistoryRow>, k: int)
    requires
        rows.len() <= usize::MAX,
        0 <= k < history_picks(rows).len(),
    ensures
        ({
            let p = history_picks(rows)[k];
            &&& 0 <= p.0 < rows.len()
            &&& history_row_chart(rows[p.0 as int]) == Some((p.1, p.2))
            &&& forall|j: int| 0 <= j < k ==> history_picks(rows)[j].0 < p.0
        }),
    decreases rows.len(),
{
    let before = history_picks(rows.drop_last());
    if k < before.len() {
        lemma_history_picks_sound(rows.drop_last(), k);
        assert(history_picks(rows)[k] == before[k]);
        let p = before[k];
        assert(rows.drop_last()[p.0 as int] == rows[p.0 as int]);
        assert forall|j: int| 0 <= j < k implies history_picks(rows)[j].0 < p.0 by {
            assert(history_picks(rows)[j] == before[j]);
        }
    } else {
        assert(rows.last() == rows[rows.len() - 1]);
        assert forall|j: int| 0 <= j < k implies history_picks(rows)[j].0 < rows.len() - 1 by {
            lemma_history_picks_sound(rows.drop_last(), j);
            assert(history_picks(rows)[j] == before[j]);
        }
    }
}

/// No row that names a chart is passed over: each such row is chosen, with its chart.
pub proof fn lemma_history_picks_complete(rows: Seq<HistoryRow>, j: int)
    requires
        rows.len() <= usize::MAX,
        0 <= j < rows.len(),
        history_row_chart(rows[j]) is Some,
    ensures
        ({
            let c = history_row_chart(rows[j])->0;
            exists|k: int|
                0 <= k < history_picks(rows).len() && #[trigger] history_picks(rows)[k] == (j as usize, c.0, c.1)
        }),
    decreases rows.len(),
{
    let c = history_row_chart(rows[j])->0;
    let before = history_picks(rows.drop_last());
    if j < rows.len() - 1 {
        assert(rows.drop_last()[j] == rows[j]);
        lemma_history_picks_complete(rows.drop_last(), j);
        let k = choose|k: int| 0 <= k < before.len() && #[trigger] before[k] == (j as usize, c.0, c.1);
        assert(history_picks(rows)[k] == before[k]);
    } else {
        assert(rows.last() == rows[j]);
        assert(history_picks(rows)[before.len() as int] == (j as usize, c.0, c.1));
    }
}

/// The chart that `row` names, where both of its columns parse.
fn chart_of_row(row: &HistoryRow) -> (r: Option<(i32, Difficulty)>)
    ensures
        r == history_row_chart(*row),
{
    match row {
        Some(cols) => match (parse_i32(cols.0.as_str()), Difficulty::from_str(cols.1.as_str())) {
            (Some(song_id), Some(d)) => Some((song_id, d)),
            _ => None,
        },
        None => None,
    }
}

/// Chooses, among the history rows `rows`, the first `room` that name a chart, skipping
/// rows whose song id or difficulty does not parse; each choice gives the row's position
/// and its chart.
pub fn pick_history_rows(rows: &[HistoryRow], room: usize) -> (r: Vec<(usize, i32, Difficulty)>)
    ensures
        r@ == first_items(history_picks(rows@), room as int),
{
    let mut out: Vec<(usize, i32, Difficulty)> = Vec::new();
    let mut i: usize = 0;
    while i < rows.len()
        invariant
            i <= rows@.len(),
            out@ == first_items(history_picks(rows@.take(i as int)), room as int),
        decreases rows.len() - i,
    {
        let ghost t = rows@.take(i + 1);
        proof {
            assert(t.drop_last() =~= rows@.take(i as int));
            assert(t.last() == rows@[i as int]);
        }
        let ghost before = history_picks(rows@.take(i as int));
        match chart_of_row(&rows[i]) {
            Some((song_id, d)) => {
                if out.len() < room {
                    out.push((i, song_id, d));
                } else {
                    proof {
                        let after = before.push((i, song_id, d));
                        assert(first_items(after, room as int) =~= first_items(before, room as int));
                    }
                }
            },
            None => {},
        }
        i = i + 1;
    }
    assert(rows@.take(rows@.len() as int) =~= rows@);
    out
}

/// The key of a V-Archive row: its song id (0 where the text is no `i32`), its mode and
/// its difficulty, or `None` where the mode or the difficulty is unknown.
pub open spec fn varchive_row_key(song_id: Seq<char>, mode: Seq<char>, difficulty: Seq<char>) -> Option<
    (i32, Mode, Difficulty),
> {
    match (mode_from_label(mode), difficulty_from_label(difficulty)) {
        (Some(m), Some(d)) => Some(
            (
                match i32_value(song_id) {
                    Some(v) => v,
                    None => 0,
                },
                m,
                d,
            ),
        ),
        _ => None,
    }
}

/// The key under which a V-Archive row is loaded.
pub fn varchive_key(song_id: &str, mode: &str, difficulty: &str) -> (r: Option<(i32, Mode, Difficulty)>)
    ensures
        r == varchive_row_key(song_id@, mode@, difficulty@),
{
    match (Mode::from_str(mode), Difficulty::from_str(difficulty)) {
        (Some(m), Some(d)) => {
            let sid = match parse_i32(song_id) {
                Some(v) => v,
                None => 0,
            };
            Some((sid, m, d))
        },
        _ => None,
    }
}

/// Seconds within which a second result of the same chart is taken for the same play.
pub const PLAY_EVENT_DEBOUNCE_SECS: i64 = 45;

/// The earliest play time (Unix seconds) of an earlier result that makes a result seen at
/// `now_unix` a repeat of it: the debounce span earlier, but not before the epoch.
pub fn play_event_window_start(now_unix: i64) -> (r: i64)
    requires
        now_unix >= i64::MIN + PLAY_EVENT_DEBOUNCE_SECS,
    ensures
        r == (if now_unix - PLAY_EVENT_DEBOUNCE_SECS > 0 { now_unix - PLAY_EVENT_DEBOUNCE_SECS } else { 0 }),
{
    let start = now_unix - PLAY_EVENT_DEBOUNCE_SECS;
    if start > 0 {
        start
    } else {
        0
    }
}

/// Song ids stored as their decimal text are read back as the same ids: the ids that
/// texts written by `to_string` name are exactly the ids written.
pub proof fn lemma_recorded_ids_round_trip(texts: Seq<String>, ids: Seq<i32>)
    requires
        texts.len() == ids.len(),
        forall|k: int| 0 <= k < texts.len() ==> #[trigger] texts[k]@ == int_decimal(ids[k] as int),
    ensures
        written_song_ids(texts) == ids.to_set(),
{
    assert forall|v: i32| #[trigger] written_song_ids(texts).contains(v) == ids.to_set().contains(v) by {
        if written_song_ids(texts).contains(v) {
            let k = choose|k: int| 0 <= k < texts.len() && #[trigger] decimal_value(texts[k]@) == Some(v as int);
            lemma_decimal_round_trip(ids[k] as int);
            assert(ids[k] == v);
            assert(ids.contains(v));
        }
        if ids.to_set().contains(v) {
            let k = choose|k: int| 0 <= k < ids.len() && ids[k] == v;
            lemma_decimal_round_trip(ids[k] as int);
            assert(decimal_value(texts[k]@) == Some(v as int));
        }
    }
    assert(written_song_ids(texts) =~= ids.to_set());
}


/// Normalizing an account key that is normalized already changes nothing, so switching
/// the store to the key it holds reports no change.
pub proof fn lemma_normalized_steam_id_stable(steam_id: Option<Seq<char>>)
    ensures
        normalized_steam_id(Some(normalized_steam_id(steam_id))) == normalized_steam_id(steam_id),
{
    let u = unknown_steam_id();
    assert(first_non_white(u, 0) == 0);
    assert(last_non_white_end(u, 0, u.len() as int) == u.len());
    assert(u.subrange(0, u.len() as int) =~= u);
    match steam_id {
        Some(s) => {
            lemma_trimmed_idempotent(s);
        },
        None => {},
    }
}


proof fn lemma_utf8_len_concat(a: Seq<char>, b: Seq<char>)
    ensures
        utf8_len(a + b) == utf8_len(a) + utf8_len(b),
    decreases b.len(),
{
    if b.len() == 0 {
        assert(a + b =~= a);
    } else {
        assert((a + b).drop_last() =~= a + b.drop_last());
        assert((a + b).last() == b.last());
        lemma_utf8_len_concat(a, b.drop_last());
    }
}

/// A logged account key other than the unknown one shows at most eight bytes of the
/// key: a long key as its first and last four bytes around `...`, eleven bytes in all.
pub proof fn lemma_masked_id_shows_eight_bytes(s: Seq<char>)
    requires
        maskable(s),
        s != unknown_steam_id(),
    ensures
        utf8_len(s) <= 8 ==> masked_id(s) == seq!['*', '*', '*'],
        utf8_len(s) > 8 ==> utf8_len(masked_id(s)) == 11,
{
    if utf8_len(s) > 8 {
        let h = chars_in_bytes(s, 4);
        let t = chars_in_bytes(s, utf8_len(s) - 4);
        let dots = seq!['.', '.', '.'];
        assert(utf8_len(dots) == 3) by {
            let d1 = seq!['.'];
            let d2 = seq!['.', '.'];
            assert(d1.drop_last() =~= Seq::<char>::empty());
            assert(utf8_width('.') == 1);
            assert(utf8_len(Seq::<char>::empty()) == 0);
            assert(d1.last() == '.');
            assert(utf8_len(d1) == 1);
            assert(d2.drop_last() =~= d1);
            assert(d2.last() == '.');
            assert(utf8_len(d2) == 2);
            assert(dots.last() == '.');
            assert(dots.drop_last() =~= d2);
        }
        assert(s.take(t) + s.skip(t) =~= s);
        lemma_utf8_len_concat(s.take(t), s.skip(t));
        lemma_utf8_len_concat(s.take(h), dots);
        lemma_utf8_len_concat(s.take(h) + dots, s.skip(t));
    }
}


/// SQLite's extended result codes for a busy or locked database (`SQLITE_BUSY`,
/// `SQLITE_BUSY_RECOVERY`, `SQLITE_LOCKED`): failures that may pass.
pub open spec fn transient_code(code: i32) -> bool {
    code == 5 || code == 261 || code == 6
}

/// How long to wait before trying an operation again after attempt `attempt` (counted
/// from 0) failed with `extended_code` (`None` for a failure that is no SQLite error):
/// 10 ms after the first attempt, 20 ms after the second, for transient failures only;
/// `None` when the failure is final.
pub open spec fn retry_delay(attempt: u32, extended_code: Option<i32>) -> Option<u64> {
    match extended_code {
        Some(code) => if transient_code(code) && attempt < 2 {
            Some(if attempt == 0 { 10u64 } else { 20u64 })
        } else {
            None
        },
        None => None,
    }
}

/// The wait before the next try of an operation on the store, if it is tried again.
pub fn retry_delay_ms(attempt: u32, extended_code: Option<i32>) -> (r: Option<u64>)
    ensures
        r == retry_delay(attempt, extended_code),
{
    match extended_code {
        Some(code) => {
            if (code == 5 || code == 261 || code == 6) && attempt < 2 {
                Some(if attempt == 0 { 10 } else { 20 })
            } else {
                None
            }
        },
        None => None,
    }
}

/// An operation on the store runs at most three times: no failure of the third attempt
/// or a later one is retried, and the second wait is twice the first.
pub proof fn lemma_retries_are_bounded(attempt: u32, code: i32)
    ensures
        attempt >= 2 ==> retry_delay(attempt, Some(code)) is None,
        transient_code(code) ==> retry_delay(1, Some(code)) == Some((2 * retry_delay(0, Some(code))->0) as u64),
{
}

} // verus!
