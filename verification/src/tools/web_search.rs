//! The `web_search` tool: what each provider is sent, when a failed request
//! is retried, how long to back off, and the pause between searches.
use std::time::{Duration, Instant};

use rand::Rng;

use vstd::prelude::*;

use crate::text::{decimal, spec_ascii_lowercase, spec_decimal, to_chars};

verus! {

/// `std::time::Instant`, known to the verifier as an opaque type.
#[verifier::external_type_specification]
#[verifier::external_body]
pub struct ExInstant(std::time::Instant);

/// A time filter for results.
#[derive(Clone, Copy, Debug, PartialEq, Eq, Structural)]
pub enum Freshness {
    /// The last day.
    D,
    /// The last week.
    W,
    /// The last month.
    M,
    /// The last year.
    Y,
}

/// One search result.
#[derive(Debug)]
pub struct SearchResult {
    pub name: String,
    pub url: String,
    pub snippet: String,
}

/// The arguments of the `web_search` tool.
#[derive(Debug)]
pub struct WebSearchArgs {
    pub query: String,
    pub freshness: Option<Freshness>,
    pub count: Option<u8>,
    pub region: Option<String>,
}

/// The Brave Search provider.
#[derive(Debug)]
pub struct Brave {
    pub api_key: String,
}

/// The LangSearch provider (its key is read from the environment).
#[derive(Debug)]
pub struct LangSearch;

/// The Tavily provider.
#[derive(Debug)]
pub struct Tavily {
    pub api_key: String,
}

/// Retries after a first failed request, at most.
pub const MAX_RETRIES: u32 = 4;

/// The least gap between the end of one search and the start of the next,
/// in nanoseconds.
pub const SEARCH_MIN_INTERVAL_NANOS: u64 = 1000000000;

/// The number of results asked for when none is given.
pub const DEFAULT_COUNT: u8 = 5;

/// Brave's code for a time filter.
pub open spec fn spec_brave_freshness(f: Freshness) -> Seq<char> {
    match f {
        Freshness::D => "pd"@,
        Freshness::W => "pw"@,
        Freshness::M => "pm"@,
        Freshness::Y => "py"@,
    }
}

/// LangSearch's name for a time filter.
pub open spec fn spec_api_string(f: Freshness) -> Seq<char> {
    match f {
        Freshness::D => "oneDay"@,
        Freshness::W => "oneWeek"@,
        Freshness::M => "oneMonth"@,
        Freshness::Y => "oneYear"@,
    }
}

/// Tavily's name for a time filter.
pub open spec fn spec_tavily_time_range(f: Freshness) -> Seq<char> {
    match f {
        Freshness::D => "day"@,
        Freshness::W => "week"@,
        Freshness::M => "month"@,
        Freshness::Y => "year"@,
    }
}

/// Brave's code for a time filter.
pub fn to_brave_freshness(freshness: Freshness) -> (r: &'static str)
    ensures
        r@ == spec_brave_freshness(freshness),
{
    match freshness {
        Freshness::D => "pd",
        Freshness::W => "pw",
        Freshness::M => "pm",
        Freshness::Y => "py",
    }
}

impl Freshness {
    /// LangSearch's name for the time filter.
    pub fn to_api_string(self) -> (r: &'static str)
        ensures
            r@ == spec_api_string(self),
    {
        match self {
            Freshness::D => "oneDay",
            Freshness::W => "oneWeek",
            Freshness::M => "oneMonth",
            Freshness::Y => "oneYear",
        }
    }
}

/// Tavily's name for a time filter.
pub fn to_tavily_time_range(freshness: Freshness) -> (r: &'static str)
    ensures
        r@ == spec_tavily_time_range(freshness),
{
    match freshness {
        Freshness::D => "day",
        Freshness::W => "week",
        Freshness::M => "month",
        Freshness::Y => "year",
    }
}

/// The countries that Tavily knows, by two-letter code.
pub open spec fn tavily_countries() -> Seq<(Seq<char>, Seq<char>)> {
    seq![
        ("us"@, "united states"@),
        ("gb"@, "united kingdom"@),
        ("ca"@, "canada"@),
        ("au"@, "australia"@),
        ("de"@, "germany"@),
        ("fr"@, "france"@),
        ("jp"@, "japan"@),
        ("cn"@, "china"@),
        ("in"@, "india"@),
        ("br"@, "brazil"@),
        ("it"@, "italy"@),
        ("es"@, "spain"@),
        ("nl"@, "netherlands"@),
        ("se"@, "sweden"@),
        ("no"@, "norway"@),
        ("dk"@, "denmark"@),
        ("fi"@, "finland"@),
        ("be"@, "belgium"@),
        ("ch"@, "switzerland"@),
        ("at"@, "austria"@),
        ("ie"@, "ireland"@),
        ("pt"@, "portugal"@),
        ("pl"@, "poland"@),
        ("ru"@, "russia"@),
        ("kr"@, "south korea"@),
        ("kp"@, "north korea"@),
        ("mx"@, "mexico"@),
        ("ar"@, "argentina"@),
        ("cl"@, "chile"@),
        ("co"@, "colombia"@),
        ("za"@, "south africa"@),
        ("eg"@, "egypt"@),
        ("ng"@, "nigeria"@),
        ("ke"@, "kenya"@),
        ("sa"@, "saudi arabia"@),
        ("ae"@, "united arab emirates"@),
        ("il"@, "israel"@),
        ("tr"@, "turkey"@),
        ("ir"@, "iran"@),
        ("iq"@, "iraq"@),
        ("th"@, "thailand"@),
        ("id"@, "indonesia"@),
        ("my"@, "malaysia"@),
        ("sg"@, "singapore"@),
        ("ph"@, "philippines"@),
        ("vn"@, "vietnam"@),
        ("nz"@, "new zealand"@),
        ("ua"@, "ukraine"@),
        ("cz"@, "czech republic"@),
        ("gr"@, "greece"@),
        ("hu"@, "hungary"@),
        ("ro"@, "romania"@),
        ("sk"@, "slovakia"@),
        ("si"@, "slovenia"@),
        ("hr"@, "croatia"@),
        ("rs"@, "serbia"@),
        ("bg"@, "bulgaria"@),
        ("lt"@, "lithuania"@),
        ("lv"@, "latvia"@),
        ("ee"@, "estonia"@),
        ("is"@, "iceland"@),
        ("lu"@, "luxembourg"@),
        ("mt"@, "malta"@),
        ("cy"@, "cyprus"@),
        ("tw"@, "taiwan"@),
        ("hk"@, "hong kong"@),
    ]
}

/// The two texts are equal once ASCII letters are put in lower case
/// (`str::eq_ignore_ascii_case`).
pub open spec fn eq_ignore_ascii_case(a: Seq<char>, b: Seq<char>) -> bool {
    spec_ascii_lowercase(a) == spec_ascii_lowercase(b)
}

/// The country name of the first table entry whose code equals `code`
/// ignoring ASCII case.
pub open spec fn spec_tavily_country(code: Seq<char>) -> Option<Seq<char>> {
    if exists|i: int| 0 <= i < tavily_countries().len() && eq_ignore_ascii_case(#[trigger] tavily_countries()[i].0, code) {
        let i = choose|i: int|
            0 <= i < tavily_countries().len() && eq_ignore_ascii_case(#[trigger] tavily_countries()[i].0, code)
                && forall|j: int| 0 <= j < i ==> !eq_ignore_ascii_case(#[trigger] tavily_countries()[j].0, code);
        Some(tavily_countries()[i].1)
    } else {
        None
    }
}

/// Whether two strings are equal ignoring ASCII case.
fn str_eq_ignore_ascii_case(a: &str, b: &str) -> (r: bool)
    ensures
        r == eq_ignore_ascii_case(a@, b@),
{
    let va = to_chars(a);
    let vb = to_chars(b);
    if va.len() != vb.len() {
        proof {
            assert(spec_ascii_lowercase(a@).len() != spec_ascii_lowercase(b@).len());
        }
        return false;
    }
    let mut i: usize = 0;
    while i < va.len()
        invariant
            va@ == a@,
            vb@ == b@,
            va@.len() == vb@.len(),
            i <= va@.len(),
            forall|k: int| 0 <= k < i ==> crate::text::ascii_lower(va@[k]) == crate::text::ascii_lower(vb@[k]),
        decreases va@.len() - i,
    {
        let x = va[i];
        let y = vb[i];
        let lx = if 'A' <= x && x <= 'Z' {
            (((x as u32) + 32) as u8) as char
        } else {
            x
        };
        let ly = if 'A' <= y && y <= 'Z' {
            (((y as u32) + 32) as u8) as char
        } else {
            y
        };
        proof {
            if 'A' <= x && x <= 'Z' {
                assert((((x as u32) + 32) as u8) as char == ((x as u32) + 32) as char);
            }
            if 'A' <= y && y <= 'Z' {
                assert((((y as u32) + 32) as u8) as char == ((y as u32) + 32) as char);
            }
        }
        if lx != ly {
            assert(spec_ascii_lowercase(a@)[i as int] != spec_ascii_lowercase(b@)[i as int]);
            return false;
        }
        i += 1;
    }
    assert(spec_ascii_lowercase(a@) =~= spec_ascii_lowercase(b@));
    true
}

/// The table of countries as pairs of string slices.
fn country_table() -> (t: Vec<(&'static str, &'static str)>)
    ensures
        t@.len() == tavily_countries().len(),
        forall|i: int| 0 <= i < t@.len() ==> #[trigger] t@[i].0@ == tavily_countries()[i].0 && t@[i].1@
            == tavily_countries()[i].1,
{
    let t = vec![
        ("us", "united states"),
        ("gb", "united kingdom"),
        ("ca", "canada"),
        ("au", "australia"),
        ("de", "germany"),
        ("fr", "france"),
        ("jp", "japan"),
        ("cn", "china"),
        ("in", "india"),
        ("br", "brazil"),
        ("it", "italy"),
        ("es", "spain"),
        ("nl", "netherlands"),
        ("se", "sweden"),
        ("no", "norway"),
        ("dk", "denmark"),
        ("fi", "finland"),
        ("be", "belgium"),
        ("ch", "switzerland"),
        ("at", "austria"),
        ("ie", "ireland"),
        ("pt", "portugal"),
        ("pl", "poland"),
        ("ru", "russia"),
        ("kr", "south korea"),
        ("kp", "north korea"),
        ("mx", "mexico"),
        ("ar", "argentina"),
        ("cl", "chile"),
        ("co", "colombia"),
        ("za", "south africa"),
        ("eg", "egypt"),
        ("ng", "nigeria"),
        ("ke", "kenya"),
        ("sa", "saudi arabia"),
        ("ae", "united arab emirates"),
        ("il", "israel"),
        ("tr", "turkey"),
        ("ir", "iran"),
        ("iq", "iraq"),
        ("th", "thailand"),
        ("id", "indonesia"),
        ("my", "malaysia"),
        ("sg", "singapore"),
        ("ph", "philippines"),
        ("vn", "vietnam"),
        ("nz", "new zealand"),
        ("ua", "ukraine"),
        ("cz", "czech republic"),
        ("gr", "greece"),
        ("hu", "hungary"),
        ("ro", "romania"),
        ("sk", "slovakia"),
        ("si", "slovenia"),
        ("hr", "croatia"),
        ("rs", "serbia"),
        ("bg", "bulgaria"),
        ("lt", "lithuania"),
        ("lv", "latvia"),
        ("ee", "estonia"),
        ("is", "iceland"),
        ("lu", "luxembourg"),
        ("mt", "malta"),
        ("cy", "cyprus"),
        ("tw", "taiwan"),
        ("hk", "hong kong"),
    ];
    assert(t@.map_values(|p: (&'static str, &'static str)| (p.0@, p.1@)) =~= tavily_countries());
    proof {
        assert forall|i: int| 0 <= i < t@.len() implies #[trigger] t@[i].0@ == tavily_countries()[i].0
            && t@[i].1@ == tavily_countries()[i].1 by {
            assert(t@.map_values(|p: (&'static str, &'static str)| (p.0@, p.1@))[i] == (
                t@[i].0@,
                t@[i].1@,
            ));
        }
    }
    t
}

/// Tavily's name for the country with the two-letter `code`, matched
/// ignoring ASCII case; `None` for a code it does not know.
pub fn to_tavily_country(code: &str) -> (r: Option<&'static str>)
    ensures
        match spec_tavily_country(code@) {
            Some(name) => r matches Some(x) && x@ == name,
            None => r is None,
        },
{
    let table = country_table();
    let mut i: usize = 0;
    while i < table.len()
        invariant
            i <= table@.len(),
            table@.len() == tavily_countries().len(),
            forall|k: int| 0 <= k < table@.len() ==> #[trigger] table@[k].0@ == tavily_countries()[k].0
                && table@[k].1@ == tavily_countries()[k].1,
            forall|j: int| 0 <= j < i ==> !eq_ignore_ascii_case(#[trigger] tavily_countries()[j].0, code@),
        decreases table@.len() - i,
    {
        let (c, name) = table[i];
        assert(table@[i as int].0@ == tavily_countries()[i as int].0);
        if str_eq_ignore_ascii_case(c, code) {
            proof {
                let w = choose|w: int|
                    0 <= w < tavily_countries().len() && eq_ignore_ascii_case(
                        #[trigger] tavily_countries()[w].0,
                        code@,
                    ) && forall|j: int|
                        0 <= j < w ==> !eq_ignore_ascii_case(#[trigger] tavily_countries()[j].0, code@);
                assert(w == i) by {
                    if w < i {
                    } else if w > i {
                        assert(!eq_ignore_ascii_case(tavily_countries()[i as int].0, code@));
                    }
                }
            }
            return Some(name);
        }
        i += 1;
    }
    None
}

/// The number of results a provider is asked for: `count` held within
/// `1..=20`.
pub open spec fn spec_clamped_count(count: u8) -> u8 {
    if count < 1 {
        1
    } else if count > 20 {
        20
    } else {
        count
    }
}

/// `count` held within `1..=20` (`u8::clamp`).
pub fn clamp_count(count: u8) -> (r: u8)
    ensures
        r == spec_clamped_count(count),
{
    if count < 1 {
        1
    } else if count > 20 {
        20
    } else {
        count
    }
}

/// The query parameters Brave is sent, in order: the query, the clamped
/// count, the time filter when given, and the country (`"ALL"` when no
/// region is given, since Brave would otherwise assume the US).
pub open spec fn spec_brave_params(
    query: Seq<char>,
    freshness: Option<Freshness>,
    count: u8,
    region: Option<Seq<char>>,
) -> Seq<(Seq<char>, Seq<char>)> {
    let head = seq![("q"@, query), ("count"@, spec_decimal(spec_clamped_count(count) as nat))];
    let with_f = match freshness {
        Some(f) => head.push(("freshness"@, spec_brave_freshness(f))),
        None => head,
    };
    with_f.push(
        (
            "country"@,
            match region {
                Some(r) => r,
                None => "ALL"@,
            },
        ),
    )
}

/// The body Tavily is sent.
#[derive(Debug)]
pub struct TavilyRequest {
    pub query: String,
    pub max_results: u8,
    pub time_range: Option<&'static str>,
    pub country: Option<&'static str>,
}

/// The body LangSearch is sent (`summary` is always off).
#[derive(Debug)]
pub struct LangSearchRequest {
    pub query: String,
    pub count: u8,
    pub freshness: Option<&'static str>,
}

impl Brave {
    /// The query parameters of a search (see `spec_brave_params`).
    pub fn query_params(
        query: &str,
        freshness: Option<Freshness>,
        count: u8,
        region: Option<&str>,
    ) -> (r: Vec<(String, String)>)
        ensures
            r@.map_values(|p: (String, String)| (p.0@, p.1@)) == spec_brave_params(
                query@,
                freshness,
                count,
                match region {
                    Some(x) => Some(x@),
                    None => None,
                },
            ),
    {
        let mut r: Vec<(String, String)> = Vec::new();
        r.push(("q".to_string(), query.to_string()));
        let c = clamp_count(count);
        r.push(("count".to_string(), decimal(c as usize)));
        match freshness {
            Some(f) => r.push(("freshness".to_string(), to_brave_freshness(f).to_string())),
            None => {},
        }
        let country = match region {
            Some(x) => x.to_string(),
            None => "ALL".to_string(),
        };
        r.push(("country".to_string(), country));
        assert(r@.map_values(|p: (String, String)| (p.0@, p.1@)) =~= spec_brave_params(
            query@,
            freshness,
            count,
            match region {
                Some(x) => Some(x@),
                None => None,
            },
        ));
        r
    }
}

impl Tavily {
    /// The body of a search: the query, the clamped count, the time range
    /// when given, and the country when the region is a known code.
    pub fn request(query: &str, freshness: Option<Freshness>, count: u8, region: Option<&str>) -> (r:
        TavilyRequest)
        ensures
            r.query@ == query@,
            r.max_results == spec_clamped_count(count),
            match freshness {
                Some(f) => r.time_range matches Some(t) && t@ == spec_tavily_time_range(f),
                None => r.time_range is None,
            },
            match region {
                Some(code) => match spec_tavily_country(code@) {
                    Some(name) => r.country matches Some(c) && c@ == name,
                    None => r.country is None,
                },
                None => r.country is None,
            },
    {
        TavilyRequest {
            query: query.to_string(),
            max_results: clamp_count(count),
            time_range: match freshness {
                Some(f) => Some(to_tavily_time_range(f)),
                None => None,
            },
            country: match region {
                Some(code) => to_tavily_country(code),
                None => None,
            },
        }
    }
}

impl LangSearch {
    /// The body of a search: the query, the count as given, and the time
    /// filter when given.
    pub fn request(query: &str, freshness: Option<Freshness>, count: u8) -> (r: LangSearchRequest)
        ensures
            r.query@ == query@,
            r.count == count,
            match freshness {
                Some(f) => r.freshness matches Some(t) && t@ == spec_api_string(f),
                None => r.freshness is None,
            },
    {
        LangSearchRequest {
            query: query.to_string(),
            count,
            freshness: match freshness {
                Some(f) => Some(f.to_api_string()),
                None => None,
            },
        }
    }
}

impl WebSearchArgs {
    /// The number of results asked for: the given count, else 5.
    pub fn count_or_default(&self) -> (r: u8)
        ensures
            r == match self.count {
                Some(c) => c,
                None => DEFAULT_COUNT,
            },
    {
        match self.count {
            Some(c) => c,
            None => DEFAULT_COUNT,
        }
    }
}

/// A request that got `status` after `attempt` retries: `None` to stop
/// (success, a status that is neither a server error nor 429, or no retry
/// left), else `Some` of the next retry's number.
pub fn next_attempt(status: u16, attempt: u32) -> (r: Option<u32>)
    ensures
        r == if 200 <= status <= 299 {
            None
        } else if !(500 <= status <= 599 || status == 429) || attempt >= MAX_RETRIES {
            None
        } else {
            Some((attempt + 1) as u32)
        },
        r matches Some(n) ==> n == attempt + 1 && n <= MAX_RETRIES,
{
    if 200 <= status && status <= 299 {
        return None;
    }
    let retryable = (500 <= status && status <= 599) || status == 429;
    if !retryable || attempt >= MAX_RETRIES {
        return None;
    }
    Some(attempt + 1)
}

/// Calls `rand::rng().random_range(low..=high)`: a number drawn at random
/// from `low..=high`, which must not be empty.
#[verifier::external_body]
fn random_between(low: u32, high: u32) -> (r: u32)
    requires
        low <= high,
    ensures
        low <= r <= high,
{
    rand::rng().random_range(low..=high)
}

/// The back-off before retry number `retry` (counted from 1), in seconds:
/// drawn at random between `retry` and three times `retry`.
pub fn retry_backoff(retry: u32) -> (secs: u64)
    requires
        retry <= u32::MAX / 3,
    ensures
        retry <= secs <= 3 * retry,
{
    let s = random_between(retry, retry * 3);
    s as u64
}

/// The rest of the interval after `elapsed_nanos` since the last search
/// ended: the difference, or nothing once the interval has passed.
pub fn remaining_wait_nanos(elapsed_nanos: u128) -> (r: u64)
    ensures
        r == if elapsed_nanos < SEARCH_MIN_INTERVAL_NANOS {
            SEARCH_MIN_INTERVAL_NANOS - elapsed_nanos
        } else {
            0
        },
        r <= SEARCH_MIN_INTERVAL_NANOS,
{
    if elapsed_nanos < SEARCH_MIN_INTERVAL_NANOS as u128 {
        (SEARCH_MIN_INTERVAL_NANOS as u128 - elapsed_nanos) as u64
    } else {
        0
    }
}

/// Calls `Instant::elapsed`: the time since `at`, which depends on the
/// clock, so nothing is stated of it.
#[verifier::external_body]
fn elapsed_since(at: &Instant) -> Duration {
    at.elapsed()
}

/// Calls `Duration::as_nanos`; the duration is opaque to the library, so
/// nothing is stated of the count.
#[verifier::external_body]
fn nanos_of(d: &Duration) -> u128 {
    d.as_nanos()
}

/// What `Duration::from_nanos` returns for `n`: the duration of `n`
/// nanoseconds.
pub uninterp spec fn duration_of_nanos(n: u64) -> Duration;

/// Calls `Duration::from_nanos`, which depends on `n` alone; the duration is
/// opaque to the library, so its result is named by `duration_of_nanos`.
#[verifier::external_body]
fn duration_from_nanos(n: u64) -> (r: Duration)
    ensures
        r == duration_of_nanos(n),
{
    Duration::from_nanos(n)
}

/// The rest of the interval, in nanoseconds, after `elapsed` nanoseconds
/// since the last search ended (see `remaining_wait_nanos`).
pub open spec fn spec_remaining_wait(elapsed: u128) -> u64 {
    if elapsed < SEARCH_MIN_INTERVAL_NANOS {
        (SEARCH_MIN_INTERVAL_NANOS - elapsed) as u64
    } else {
        0
    }
}

/// How long to wait before the next search so that the interval has passed
/// since the last one ended at `last_done`: `remaining_wait_nanos` of the
/// time elapsed since then. The elapsed time comes from the clock, so what
/// is stated holds for some elapsed time: the wait is the duration of the
/// rest of the interval after it, at most the interval.
pub fn throttle_wait(last_done: Instant) -> (r: Duration)
    ensures
        exists|elapsed: u128|
            r == duration_of_nanos(#[trigger] spec_remaining_wait(elapsed)),
        exists|w: u64| w <= SEARCH_MIN_INTERVAL_NANOS && r == #[trigger] duration_of_nanos(w),
{
    let elapsed = elapsed_since(&last_done);
    let n = nanos_of(&elapsed);
    let w = remaining_wait_nanos(n);
    assert(w == spec_remaining_wait(n));
    let r = duration_from_nanos(w);
    assert(r == duration_of_nanos(spec_remaining_wait(n)));
    assert(r == duration_of_nanos(w));
    r
}

} // verus!
