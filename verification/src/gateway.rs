//! What the outbound gateways compute around their requests: the URLs they call, the
//! recommendation provider's manifest and its checks, the V-Archive account file and
//! upload answers, and the pick of a release asset.
use vstd::prelude::*;
use vstd::string::*;
use crate::model::{Mode, Difficulty, mode_label, difficulty_label};
use crate::recommend::VaryDim;
use crate::text::{
    is_white, char_is_white, first_non_white, decimal_value, parse_i64, seq_starts_with,
    starts_with_str, str_eq, int_decimal, i64_to_decimal, trimmed, trim_to_string,
};
use crate::wrappers::string_push;

verus! {

/// Protocol that a recommendation provider's manifest must name.
pub const RECOMMEND_PROTOCOL_ID: &'static str = "overmax-recommend/1";

/// The characters of [`RECOMMEND_PROTOCOL_ID`].
pub open spec fn protocol_id() -> Seq<char> {
    "overmax-recommend/1"@
}

/// Default cache lifetime of a provider's answers, in seconds.
pub const DEFAULT_TTL_SEC: u64 = 3600;

/// How long a fetched provider manifest is reused before it is fetched again, in seconds.
pub const MANIFEST_CACHE_SECS: u64 = 3600;

/// Whether a manifest fetched `elapsed_secs` seconds ago is still reused.
pub fn manifest_cache_fresh(elapsed_secs: u64) -> (r: bool)
    ensures
        r == (elapsed_secs < MANIFEST_CACHE_SECS),
{
    elapsed_secs < MANIFEST_CACHE_SECS
}

/// What a recommendation provider declares about itself.
#[derive(Clone, Debug)]
pub struct ProviderManifest {
    pub protocol: String,
    pub name: Option<String>,
    pub vary: Vec<VaryDim>,
    pub ttl_sec: u64,
    pub endpoint: String,
}

/// The endpoint path assumed when a manifest names none.
pub fn default_endpoint() -> (r: String)
    ensures
        r@ == "/recommend"@,
{
    "/recommend".to_owned()
}

impl Default for ProviderManifest {
    /// The manifest assumed for a provider that could not be asked.
    fn default() -> (r: Self)
        ensures
            r.protocol@ == protocol_id(),
            r.name is None,
            r.vary@ == seq![VaryDim::SongId, VaryDim::Mode, VaryDim::Diff],
            r.ttl_sec == DEFAULT_TTL_SEC,
            r.endpoint@ == "/recommend"@,
    {
        let mut vary: Vec<VaryDim> = Vec::new();
        vary.push(VaryDim::SongId);
        vary.push(VaryDim::Mode);
        vary.push(VaryDim::Diff);
        assert(vary@ =~= seq![VaryDim::SongId, VaryDim::Mode, VaryDim::Diff]);
        ProviderManifest {
            protocol: RECOMMEND_PROTOCOL_ID.to_owned(),
            name: None,
            vary,
            ttl_sec: DEFAULT_TTL_SEC,
            endpoint: default_endpoint(),
        }
    }
}

/// The manifest that `get_cached_manifest` hands out: each call asks a gateway of its
/// own, whose cache is empty, so the answer is the default manifest whatever `provider_url`.
pub fn get_cached_manifest(provider_url: &str) -> (r: ProviderManifest)
    ensures
        r.protocol@ == protocol_id(),
        r.name is None,
        r.vary@ == seq![VaryDim::SongId, VaryDim::Mode, VaryDim::Diff],
        r.ttl_sec == DEFAULT_TTL_SEC,
        r.endpoint@ == "/recommend"@,
{
    ProviderManifest::default()
}

/// `s` without the characters `c` at its end (`str::trim_end_matches` with a character).
pub open spec fn trim_end_char(s: Seq<char>, c: char) -> Seq<char>
    decreases s.len(),
{
    if s.len() > 0 && s.last() == c {
        trim_end_char(s.drop_last(), c)
    } else {
        s
    }
}

/// The provider's base URL: `provider_url` without its trailing slashes.
pub fn clean_provider_url(provider_url: &str) -> (r: String)
    ensures
        r@ == trim_end_char(provider_url@, '/'),
{
    let mut end = provider_url.unicode_len();
    assert(provider_url@.take(end as int) =~= provider_url@);
    while end > 0 && provider_url.get_char(end - 1) == '/'
        invariant
            end <= provider_url@.len(),
            trim_end_char(provider_url@, '/') == trim_end_char(provider_url@.take(end as int), '/'),
        decreases end,
    {
        proof {
            assert(provider_url@.take(end as int).drop_last() =~= provider_url@.take(end - 1));
        }
        end = end - 1;
    }
    proof {
        if end > 0 {
            assert(provider_url@.take(end as int).last() == provider_url@[end - 1]);
        }
    }
    provider_url.substring_char(0, end).to_owned()
}

/// Where a provider publishes its manifest.
pub fn manifest_url(provider_url: &str) -> (r: String)
    ensures
        r@ == trim_end_char(provider_url@, '/') + "/manifest"@,
{
    let mut url = clean_provider_url(provider_url);
    url.append("/manifest");
    url
}

/// The message of a manifest that names another protocol than [`RECOMMEND_PROTOCOL_ID`].
pub open spec fn invalid_protocol_text(actual: Seq<char>) -> Seq<char> {
    "지원하지 않는 프로토콜 (기대: "@ + protocol_id() + ", 실제: "@ + actual + ")"@
}

/// Accepts a provider's manifest only if it speaks [`RECOMMEND_PROTOCOL_ID`]; else the
/// message that the connection test reports.
pub fn check_manifest(manifest: ProviderManifest) -> (r: Result<ProviderManifest, String>)
    ensures
        manifest.protocol@ == protocol_id() ==> r == Ok::<ProviderManifest, String>(manifest),
        manifest.protocol@ != protocol_id() ==> (r matches Err(m) && m@ == invalid_protocol_text(
            manifest.protocol@,
        )),
{
    if str_eq(manifest.protocol.as_str(), RECOMMEND_PROTOCOL_ID) {
        Ok(manifest)
    } else {
        let mut m = String::new();
        m.append("지원하지 않는 프로토콜 (기대: ");
        m.append(RECOMMEND_PROTOCOL_ID);
        m.append(", 실제: ");
        m.append(manifest.protocol.as_str());
        m.append(")");
        Err(m)
    }
}

/// The URL that recommendations are asked at: an endpoint path is put after the base
/// URL, an absolute `http://` or `https://` endpoint is taken as it is, any other is
/// joined to the base URL with `/`.
pub open spec fn endpoint_url(provider_url: Seq<char>, endpoint: Seq<char>) -> Seq<char> {
    let base = trim_end_char(provider_url, '/');
    if endpoint.len() > 0 && endpoint[0] == '/' {
        base + endpoint
    } else if seq_starts_with(endpoint, "http://"@) || seq_starts_with(endpoint, "https://"@) {
        endpoint
    } else {
        base + seq!['/'] + endpoint
    }
}

/// Where recommendations are asked, case by case: an endpoint that starts with
/// `http://` or `https://` is used unchanged, whatever the provider URL; an endpoint
/// that starts with `/` follows the provider URL without its trailing slashes; any other
/// endpoint follows that URL and one `/`.
pub proof fn lemma_endpoint_cases(provider_url: Seq<char>, endpoint: Seq<char>)
    ensures
        (seq_starts_with(endpoint, seq!['h', 't', 't', 'p', ':', '/', '/']) || seq_starts_with(
            endpoint,
            seq!['h', 't', 't', 'p', 's', ':', '/', '/'],
        )) ==> endpoint_url(provider_url, endpoint) == endpoint,
        endpoint.len() > 0 && endpoint[0] == '/' ==> endpoint_url(provider_url, endpoint) == trim_end_char(
            provider_url,
            '/',
        ) + endpoint,
        !(endpoint.len() > 0 && endpoint[0] == '/') && !seq_starts_with(endpoint, seq!['h', 't', 't', 'p', ':', '/', '/'])
            && !seq_starts_with(endpoint, seq!['h', 't', 't', 'p', 's', ':', '/', '/'])
            ==> endpoint_url(provider_url, endpoint) == trim_end_char(provider_url, '/') + seq!['/'] + endpoint,
{
    reveal_strlit("http://");
    reveal_strlit("https://");
    assert("http://"@ =~= seq!['h', 't', 't', 'p', ':', '/', '/']);
    assert("https://"@ =~= seq!['h', 't', 't', 'p', 's', ':', '/', '/']);
    if seq_starts_with(endpoint, seq!['h', 't', 't', 'p', ':', '/', '/']) {
        assert(endpoint.subrange(0, 7)[0] == endpoint[0]);
    }
    if seq_starts_with(endpoint, seq!['h', 't', 't', 'p', 's', ':', '/', '/']) {
        assert(endpoint.subrange(0, 8)[0] == endpoint[0]);
    }
}

/// The URL that a provider's recommendations are asked at.
pub fn recommend_endpoint(provider_url: &str, endpoint: &str) -> (r: String)
    ensures
        r@ == endpoint_url(provider_url@, endpoint@),
{
    if endpoint.unicode_len() > 0 && endpoint.get_char(0) == '/' {
        let mut url = clean_provider_url(provider_url);
        url.append(endpoint);
        url
    } else if starts_with_str(endpoint, "http://") || starts_with_str(endpoint, "https://") {
        endpoint.to_owned()
    } else {
        let mut url = clean_provider_url(provider_url);
        string_push(&mut url, '/');
        url.append(endpoint);
        url
    }
}

/// The request for the recommendations of one chart and user.
pub open spec fn request_url(
    endpoint: Seq<char>,
    song_id: i32,
    mode: Mode,
    diff: Difficulty,
    v_id: Option<Seq<char>>,
) -> Seq<char> {
    endpoint + "?song_id="@ + int_decimal(song_id as int) + "&mode="@ + mode_label(mode)
        + "&diff="@ + difficulty_label(diff) + "&v_id="@ + match v_id {
        Some(v) => v,
        None => Seq::empty(),
    }
}

/// The request URL for chart (`song_id`, `mode`, `diff`) and user `v_id` at `endpoint`.
pub fn recommend_request_url(
    endpoint: &str,
    song_id: i32,
    mode: Mode,
    diff: Difficulty,
    v_id: Option<&str>,
) -> (r: String)
    ensures
        r@ == request_url(
            endpoint@,
            song_id,
            mode,
            diff,
            match v_id {
                Some(v) => Some(v@),
                None => None,
            },
        ),
{
    let mut url = endpoint.to_owned();
    url.append("?song_id=");
    let id = i64_to_decimal(song_id as i64);
    url.append(id.as_str());
    url.append("&mode=");
    url.append(mode.as_str());
    url.append("&diff=");
    url.append(diff.as_str());
    url.append("&v_id=");
    match v_id {
        Some(v) => url.append(v),
        None => {},
    }
    url
}

/// A V-Archive account: the user number and the upload token.
#[derive(Debug, Clone)]
pub struct AccountInfo {
    pub user_no: i64,
    pub token: String,
}

/// The answer to a score upload.
#[derive(Debug, Clone)]
pub struct UploadResult {
    pub success: bool,
    pub updated: bool,
    pub message: String,
}

/// Index of the first white-space character at or after `i` (or `s.len()`).
pub open spec fn first_white(s: Seq<char>, i: int) -> int
    decreases s.len() - i,
{
    if i >= s.len() || i < 0 {
        s.len() as int
    } else if is_white(s[i]) {
        i
    } else {
        first_white(s, i + 1)
    }
}

/// Bounds of the first white-space separated word at or after `i`: it is empty
/// exactly when only white space follows `i`.
pub open spec fn word_at(s: Seq<char>, i: int) -> (int, int) {
    let a = first_non_white(s, i);
    (a, first_white(s, a))
}

/// What an account file holds: its first word, read as an `i64`, and its second word,
/// or `None` if either is missing or the first is no integer (`split_whitespace`).
pub open spec fn account_in(text: Seq<char>) -> Option<(int, Seq<char>)> {
    let (a1, b1) = word_at(text, 0);
    let (a2, b2) = word_at(text, b1);
    if a1 >= text.len() {
        None
    } else {
        match decimal_value(text.subrange(a1, b1)) {
            Some(v) => if i64::MIN <= v <= i64::MAX && a2 < text.len() {
                Some((v, text.subrange(a2, b2)))
            } else {
                None
            },
            None => None,
        }
    }
}

proof fn lemma_first_non_white_bounds(s: Seq<char>, i: int)
    requires
        0 <= i <= s.len(),
    ensures
        i <= first_non_white(s, i) <= s.len(),
        first_non_white(s, i) < s.len() ==> !is_white(s[first_non_white(s, i)]),
        forall|k: int| i <= k < first_non_white(s, i) ==> is_white(#[trigger] s[k]),
    decreases s.len() - i,
{
    if i < s.len() && is_white(s[i]) {
        lemma_first_non_white_bounds(s, i + 1);
    }
}

proof fn lemma_first_white_bounds(s: Seq<char>, i: int)
    requires
        0 <= i <= s.len(),
    ensures
        i <= first_white(s, i) <= s.len(),
    decreases s.len() - i,
{
    if i < s.len() && !is_white(s[i]) {
        lemma_first_white_bounds(s, i + 1);
    }
}

/// Skips white space from `i`.
fn skip_white(s: &str, i: usize) -> (r: usize)
    requires
        i <= s@.len(),
    ensures
        r == first_non_white(s@, i as int),
{
    let n = s.unicode_len();
    let mut j = i;
    while j < n && char_is_white(s.get_char(j))
        invariant
            n == s@.len(),
            i <= j <= n,
            first_non_white(s@, i as int) == first_non_white(s@, j as int),
        decreases n - j,
    {
        j = j + 1;
    }
    j
}

/// Skips a word from `i`.
fn skip_word(s: &str, i: usize) -> (r: usize)
    requires
        i <= s@.len(),
    ensures
        r == first_white(s@, i as int),
{
    let n = s.unicode_len();
    let mut j = i;
    while j < n && !char_is_white(s.get_char(j))
        invariant
            n == s@.len(),
            i <= j <= n,
            first_white(s@, i as int) == first_white(s@, j as int),
        decreases n - j,
    {
        j = j + 1;
    }
    j
}

/// `parse_account_file` after the read: the account that the file's text names.
pub fn parse_account_text(text: &str) -> (r: Option<AccountInfo>)
    ensures
        match account_in(text@) {
            Some((user_no, token)) => r matches Some(a) && a.user_no == user_no && a.token@ == token,
            None => r is None,
        },
{
    let n = text.unicode_len();
    let a1 = skip_white(text, 0);
    proof {
        lemma_first_non_white_bounds(text@, 0);
    }
    if a1 >= n {
        return None;
    }
    let b1 = skip_word(text, a1);
    proof {
        lemma_first_white_bounds(text@, a1 as int);
    }
    let user_no = match parse_i64(text.substring_char(a1, b1)) {
        Some(v) => v,
        None => {
            return None;
        },
    };
    let a2 = skip_white(text, b1);
    proof {
        lemma_first_non_white_bounds(text@, b1 as int);
    }
    if a2 >= n {
        return None;
    }
    let b2 = skip_word(text, a2);
    proof {
        lemma_first_white_bounds(text@, a2 as int);
    }
    Some(AccountInfo { user_no, token: text.substring_char(a2, b2).to_owned() })
}

/// Where the scores of user `user_no` are uploaded.
pub fn upload_url(user_no: i64) -> (r: String)
    ensures
        r@ == "https://v-archive.net/client/open/"@ + int_decimal(user_no as int) + "/score"@,
{
    let mut url = "https://v-archive.net/client/open/".to_owned();
    let n = i64_to_decimal(user_no);
    url.append(n.as_str());
    url.append("/score");
    url
}

/// The upload's result from the answer's status and the `update` and `message` fields of
/// its JSON body: success on status 200, with `update` (false when absent); otherwise the
/// server's message, or `request failed`.
pub fn upload_outcome(status: u16, update: Option<bool>, message: Option<String>) -> (r: UploadResult)
    ensures
        r.success == (status == 200),
        status == 200 ==> r.updated == (update == Some(true)) && r.message@.len() == 0,
        status != 200 ==> !r.updated && r.message@ == match message {
            Some(m) => m@,
            None => "request failed"@,
        },
{
    if status == 200 {
        let updated = match update {
            Some(u) => u,
            None => false,
        };
        UploadResult { success: true, updated, message: String::new() }
    } else {
        let message = match message {
            Some(m) => m,
            None => "request failed".to_owned(),
        };
        UploadResult { success: false, updated: false, message }
    }
}

/// The V-Archive record list of user `v_id` for `button` keys, since `since` if given.
pub fn records_url(v_id: &str, button: i32, since: Option<&str>) -> (r: String)
    ensures
        r@ == "https://v-archive.net/api/v2/archive/"@ + v_id@ + "/button/"@ + int_decimal(
            button as int,
        ) + match since {
            Some(s) => "?since="@ + s@,
            None => Seq::empty(),
        },
{
    let mut url = "https://v-archive.net/api/v2/archive/".to_owned();
    url.append(v_id);
    url.append("/button/");
    let b = i64_to_decimal(button as i64);
    url.append(b.as_str());
    match since {
        Some(s) => {
            url.append("?since=");
            url.append(s);
        },
        None => {},
    }
    url
}

/// The V-Archive records of user `v_id` for `button` keys on song `song_id`.
pub fn single_song_records_url(v_id: &str, button: i32, song_id: i32) -> (r: String)
    ensures
        r@ == "https://v-archive.net/api/v2/archive/"@ + v_id@ + "/button/"@ + int_decimal(
            button as int,
        ) + "?title="@ + int_decimal(song_id as int),
{
    let mut url = "https://v-archive.net/api/v2/archive/".to_owned();
    url.append(v_id);
    url.append("/button/");
    let b = i64_to_decimal(button as i64);
    url.append(b.as_str());
    url.append("?title=");
    let t = i64_to_decimal(song_id as i64);
    url.append(t.as_str());
    url
}

/// `s` without the characters `c` at its start (`str::trim_start_matches` with a character).
pub open spec fn trim_start_char(s: Seq<char>, c: char) -> Seq<char>
    decreases s.len(),
{
    if s.len() > 0 && s[0] == c {
        trim_start_char(s.drop_first(), c)
    } else {
        s
    }
}

/// A downloaded text without its leading byte-order marks.
pub fn strip_bom(text: &str) -> (r: String)
    ensures
        r@ == trim_start_char(text@, '\u{feff}'),
{
    let n = text.unicode_len();
    let mut start: usize = 0;
    assert(text@.skip(0) =~= text@);
    while start < n && text.get_char(start) == '\u{feff}'
        invariant
            n == text@.len(),
            start <= n,
            trim_start_char(text@, '\u{feff}') == trim_start_char(text@.skip(start as int), '\u{feff}'),
        decreases n - start,
    {
        proof {
            assert(text@.skip(start as int).drop_first() =~= text@.skip(start + 1));
        }
        start = start + 1;
    }
    proof {
        if start < n {
            assert(text@.skip(start as int)[0] == text@[start as int]);
        }
        assert(text@.skip(start as int) =~= text@.subrange(start as int, n as int));
    }
    text.substring_char(start, n).to_owned()
}

/// One asset of a release as the release listing describes it.
#[derive(Debug, Clone)]
pub struct ReleaseAsset {
    pub name: Option<String>,
    pub browser_download_url: Option<String>,
}

/// The parts of a release listing that the asset lookup reads.
#[derive(Debug, Clone)]
pub struct ReleaseInfo {
    pub tag_name: Option<String>,
    pub assets: Option<Vec<ReleaseAsset>>,
}

/// The asset is `asset_name` and has a download URL.
pub open spec fn asset_matches(a: ReleaseAsset, asset_name: Seq<char>) -> bool {
    (a.name matches Some(n) && n@ == asset_name) && a.browser_download_url is Some
}

/// What the lookup of `asset_name` in a release answers: the release's tag and the
/// download URL of the first matching asset, or what is missing.
pub open spec fn release_asset_answer(info: ReleaseInfo, asset_name: Seq<char>) -> Result<
    (Seq<char>, Seq<char>),
    Seq<char>,
> {
    match info.tag_name {
        None => Err("tag_name 없음"@),
        Some(tag) => match info.assets {
            None => Err("assets 없음"@),
            Some(assets) => if exists|k: int|
                0 <= k < assets@.len() && asset_matches(#[trigger] assets@[k], asset_name) {
                let k = choose|k: int|
                    0 <= k < assets@.len() && asset_matches(#[trigger] assets@[k], asset_name)
                        && forall|j: int| 0 <= j < k ==> !asset_matches(#[trigger] assets@[j], asset_name);
                Ok((tag@, assets@[k].browser_download_url.unwrap()@))
            } else {
                Err("asset 없음: "@ + asset_name)
            },
        },
    }
}

/// The tag and download URL of `asset_name` in a release listing, or what is missing.
pub fn select_release_asset(info: &ReleaseInfo, asset_name: &str) -> (r: Result<(String, String), String>)
    ensures
        match release_asset_answer(*info, asset_name@) {
            Ok((tag, url)) => r matches Ok((t, u)) && t@ == tag && u@ == url,
            Err(m) => r matches Err(e) && e@ == m,
        },
{
    let tag = match &info.tag_name {
        Some(t) => t,
        None => {
            return Err("tag_name 없음".to_owned());
        },
    };
    let assets = match &info.assets {
        Some(a) => a,
        None => {
            return Err("assets 없음".to_owned());
        },
    };
    let mut i: usize = 0;
    while i < assets.len()
        invariant
            i <= assets@.len(),
            info.assets == Some(*assets),
            info.tag_name == Some(*tag),
            forall|j: int| 0 <= j < i ==> !asset_matches(#[trigger] assets@[j], asset_name@),
        decreases assets.len() - i,
    {
        let a = &assets[i];
        let named = match &a.name {
            Some(n) => str_eq(n.as_str(), asset_name),
            None => false,
        };
        if named {
            match &a.browser_download_url {
                Some(u) => {
                    proof {
                        let ii = i as int;
                        assert(asset_matches(assets@[ii], asset_name@));
                        assert(0 <= ii < assets@.len() && asset_matches(assets@[ii], asset_name@)
                            && forall|j: int| 0 <= j < ii ==> !asset_matches(#[trigger] assets@[j], asset_name@));
                        let k = choose|k: int|
                            0 <= k < assets@.len() && asset_matches(#[trigger] assets@[k], asset_name@)
                                && forall|j: int| 0 <= j < k ==> !asset_matches(#[trigger] assets@[j], asset_name@);
                        if k < ii {
                            assert(!asset_matches(assets@[k], asset_name@));
                        }
                        if k > ii {
                            assert(!asset_matches(assets@[ii], asset_name@));
                        }
                        assert(k == ii);
                    }
                    return Ok((tag.as_str().to_owned(), u.as_str().to_owned()));
                },
                None => {},
            }
        }
        i = i + 1;
    }
    let mut m = "asset 없음: ".to_owned();
    m.append(asset_name);
    Err(m)
}

/// The Google Sheet that holds the pattern notes.
pub const SHEET_ID: &'static str = "1ks1dwJyNjkAXYtQ_6UZIeNOCGOmhf2jMbakpTcJm9rw";

/// The sheet tab of each key mode.
pub fn sheet_gid(mode: Mode) -> (r: &'static str)
    ensures
        r@ == match mode {
            Mode::B4 => "979055934"@,
            Mode::B5 => "112529029"@,
            Mode::B6 => "2010625608"@,
            Mode::B8 => "1833696991"@,
        },
{
    match mode {
        Mode::B4 => "979055934",
        Mode::B5 => "112529029",
        Mode::B6 => "2010625608",
        Mode::B8 => "1833696991",
    }
}

/// The CSV export of sheet tab `gid`.
pub fn sheet_csv_url(gid: &str) -> (r: String)
    ensures
        r@ == "https://docs.google.com/spreadsheets/d/"@ + SHEET_ID@ + "/gviz/tq?tqx=out:csv&gid="@
            + gid@,
{
    let mut url = "https://docs.google.com/spreadsheets/d/".to_owned();
    url.append(SHEET_ID);
    url.append("/gviz/tq?tqx=out:csv&gid=");
    url.append(gid);
    url
}

/// The image database version that a version file's text names: the text without
/// surrounding white space, if any is left.
pub fn local_version_text(text: &str) -> (r: Option<String>)
    ensures
        trimmed(text@).len() > 0 ==> (r matches Some(v) && v@ == trimmed(text@)),
        trimmed(text@).len() == 0 ==> r is None,
{
    let t = trim_to_string(text);
    if t.as_str().unicode_len() > 0 {
        Some(t)
    } else {
        None
    }
}


proof fn lemma_trim_end_char_clean(s: Seq<char>, c: char)
    ensures
        !(trim_end_char(s, c).len() > 0 && trim_end_char(s, c).last() == c),
    decreases s.len(),
{
    if s.len() > 0 && s.last() == c {
        lemma_trim_end_char_clean(s.drop_last(), c);
    }
}

/// Trimming the trailing `c`s of `s` keeps a prefix of `s` that does not end in `c`,
/// and everything it drops is `c`.
pub proof fn lemma_trim_end_char_shape(s: Seq<char>, c: char)
    ensures
        ({
            let r = trim_end_char(s, c);
            &&& r.len() <= s.len()
            &&& s.subrange(0, r.len() as int) == r
            &&& r.len() == 0 || r.last() != c
            &&& forall|i: int| r.len() <= i < s.len() ==> #[trigger] s[i] == c
        }),
    decreases s.len(),
{
    if s.len() > 0 && s.last() == c {
        lemma_trim_end_char_shape(s.drop_last(), c);
        let r = trim_end_char(s, c);
        assert(s.drop_last().subrange(0, r.len() as int) =~= s.subrange(0, r.len() as int));
        assert forall|i: int| r.len() <= i < s.len() implies #[trigger] s[i] == c by {
            if i < s.len() - 1 {
                assert(s.drop_last()[i] == s[i]);
            }
        }
    } else {
        assert(s.subrange(0, s.len() as int) =~= s);
    }
}

/// A provider URL names the same manifest with or without trailing slashes, and its
/// cleaned form is clean already.
pub proof fn lemma_manifest_url_ignores_trailing_slashes(url: Seq<char>)
    ensures
        trim_end_char(url.push('/'), '/') + "/manifest"@ == trim_end_char(url, '/') + "/manifest"@,
        trim_end_char(trim_end_char(url, '/'), '/') == trim_end_char(url, '/'),
{
    assert(url.push('/').drop_last() =~= url);
    lemma_trim_end_char_clean(url, '/');
}

} // verus!
