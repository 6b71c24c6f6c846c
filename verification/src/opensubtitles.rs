//! The opt-in OpenSubtitles fetch: what a request carries and what is made of each reply.
//!
//! Nothing here reaches the network. The caller performs the HTTP exchange and hands over what
//! came back (a status, a body, the fields a JSON reply held); this module builds the
//! requests, ranks search results, and turns replies into candidates, tokens, links or errors.
use vstd::prelude::*;

use crate::subtitles::MAX_TEXT_SUBTITLE_BYTES;
use crate::text::{all_chars, decimal, join, joined, opt_chars, push_decimal, push_str};

verus! {

broadcast use vstd::string::group_string_axioms;

/// The public v1 REST endpoint.
pub const API_BASE: &'static str = "https://api.opensubtitles.com/api/v1";

/// How long a search, login or download call may take before it is given up, in seconds.
pub const HTTP_TIMEOUT_SECS: u64 = 20;

/// The largest subtitle body pulled down: the same bound the on-disk text loader uses.
pub const MAX_DOWNLOAD_BYTES: u64 = MAX_TEXT_SUBTITLE_BYTES;

/// One search result the user can choose to download.
#[derive(Debug, Clone, PartialEq, Eq)]
pub struct Candidate {
    /// The id passed back to the download request to get this file.
    pub file_id: i64,
    pub file_name: String,
    /// The subtitle's language code, when the listing gives one.
    pub language: Option<String>,
    /// The release/version string, when given.
    pub release: Option<String>,
    /// How many times it has been downloaded: a rough quality signal for ranking.
    pub download_count: i64,
}

impl View for Candidate {
    /// (file id, file name, language, release, download count).
    type V = (i64, Seq<char>, Option<Seq<char>>, Option<Seq<char>>, i64);

    open spec fn view(&self) -> Self::V {
        (
            self.file_id,
            self.file_name@,
            opt_chars(self.language),
            opt_chars(self.release),
            self.download_count,
        )
    }
}

/// Why an OpenSubtitles call failed. Surfaced to the user verbatim.
#[derive(Debug, Clone, PartialEq, Eq)]
pub enum FetchError {
    /// The network request itself failed (offline, TLS, DNS, timeout).
    Http(String),
    /// The API answered with a non-success status.
    Api { status: u16, message: String },
    /// The response was not the shape expected.
    Parse(String),
    /// The downloaded body exceeded the size bound.
    TooLarge,
}

/// The message shown for `e`.
pub open spec fn fetch_error_message(e: FetchError) -> Seq<char> {
    match e {
        FetchError::Http(reason) => "could not reach OpenSubtitles: "@ + reason@,
        FetchError::Api { status, message } => "OpenSubtitles refused the request ("@ + decimal(
            status as nat,
        ) + "): "@ + message@,
        FetchError::Parse(reason) => "unexpected reply from OpenSubtitles: "@ + reason@,
        FetchError::TooLarge => "the subtitle from OpenSubtitles was too large to load"@,
    }
}

impl FetchError {
    /// The message shown to the user.
    pub fn message(&self) -> (m: String)
        ensures
            m@ == fetch_error_message(*self),
    {
        let mut m = String::new();
        match self {
            FetchError::Http(reason) => {
                push_str(&mut m, "could not reach OpenSubtitles: ");
                push_str(&mut m, reason.as_str());
            },
            FetchError::Api { status, message } => {
                push_str(&mut m, "OpenSubtitles refused the request (");
                push_decimal(&mut m, *status as u128);
                push_str(&mut m, "): ");
                push_str(&mut m, message.as_str());
            },
            FetchError::Parse(reason) => {
                push_str(&mut m, "unexpected reply from OpenSubtitles: ");
                push_str(&mut m, reason.as_str());
            },
            FetchError::TooLarge => push_str(
                &mut m,
                "the subtitle from OpenSubtitles was too large to load",
            ),
        }
        m
    }
}

/// A file entry of a search listing.
#[derive(Debug, Clone, PartialEq, Eq)]
pub struct SearchFile {
    pub file_id: i64,
    pub file_name: Option<String>,
}

/// The attributes of a search listing, as the reply gives them.
#[derive(Debug, Clone, PartialEq, Eq)]
pub struct SearchAttributes {
    pub language: Option<String>,
    pub release: Option<String>,
    /// Zero when the reply leaves it out.
    pub download_count: i64,
    /// Empty when the reply leaves them out.
    pub files: Vec<SearchFile>,
}

/// One listing of a search reply.
#[derive(Debug, Clone, PartialEq, Eq)]
pub struct SearchItem {
    pub attributes: Option<SearchAttributes>,
}

/// The candidate a listing offers: the download id lives on its first file entry, and a
/// listing with no file (or no attributes) is not downloadable. A file with no name is called
/// "subtitle".
pub open spec fn listing_candidate(item: SearchItem) -> Option<
    (i64, Seq<char>, Option<Seq<char>>, Option<Seq<char>>, i64),
> {
    match item.attributes {
        None => None,
        Some(a) => if a.files@.len() == 0 {
            None
        } else {
            let f = a.files@[0];
            Some(
                (
                    f.file_id,
                    match f.file_name {
                        Some(n) => n@,
                        None => "subtitle"@,
                    },
                    opt_chars(a.language),
                    opt_chars(a.release),
                    a.download_count,
                ),
            )
        },
    }
}

/// The candidates the listings offer, in listing order.
pub open spec fn listed(items: Seq<SearchItem>) -> Seq<
    (i64, Seq<char>, Option<Seq<char>>, Option<Seq<char>>, i64),
>
    decreases items.len(),
{
    if items.len() == 0 {
        Seq::empty()
    } else {
        let rest = listed(items.drop_last());
        match listing_candidate(items.last()) {
            Some(c) => rest.push(c),
            None => rest,
        }
    }
}

/// `c` placed into the ranked `sorted` after every candidate downloaded at least as often.
pub open spec fn insert_ranked(
    sorted: Seq<(i64, Seq<char>, Option<Seq<char>>, Option<Seq<char>>, i64)>,
    c: (i64, Seq<char>, Option<Seq<char>>, Option<Seq<char>>, i64),
) -> Seq<(i64, Seq<char>, Option<Seq<char>>, Option<Seq<char>>, i64)>
    decreases sorted.len(),
{
    if sorted.len() == 0 {
        seq![c]
    } else if sorted[0].4 >= c.4 {
        seq![sorted[0]] + insert_ranked(sorted.drop_first(), c)
    } else {
        seq![c] + sorted
    }
}

/// `cs` ranked most-downloaded first, candidates downloaded equally often keeping their order
/// (a stable sort by descending download count).
pub open spec fn ranked(cs: Seq<(i64, Seq<char>, Option<Seq<char>>, Option<Seq<char>>, i64)>) -> Seq<
    (i64, Seq<char>, Option<Seq<char>>, Option<Seq<char>>, i64),
>
    decreases cs.len(),
{
    if cs.len() == 0 {
        Seq::empty()
    } else {
        insert_ranked(ranked(cs.drop_last()), cs.last())
    }
}

/// Whether `cs` runs from most to least downloaded.
pub open spec fn most_downloaded_first(
    cs: Seq<(i64, Seq<char>, Option<Seq<char>>, Option<Seq<char>>, i64)>,
) -> bool {
    forall|i: int, j: int| 0 <= i < j < cs.len() ==> cs[i].4 >= cs[j].4
}

/// Inserting at `p`, the first place whose candidate was downloaded less often than `c`, is
/// what `insert_ranked` does.
proof fn lemma_insert_at(
    sorted: Seq<(i64, Seq<char>, Option<Seq<char>>, Option<Seq<char>>, i64)>,
    c: (i64, Seq<char>, Option<Seq<char>>, Option<Seq<char>>, i64),
    p: int,
)
    requires
        0 <= p <= sorted.len(),
        forall|i: int| 0 <= i < p ==> sorted[i].4 >= c.4,
        p < sorted.len() ==> sorted[p].4 < c.4,
    ensures
        insert_ranked(sorted, c) == sorted.insert(p, c),
    decreases sorted.len(),
{
    if sorted.len() == 0 {
        assert(sorted.insert(p, c) =~= seq![c]);
    } else if p == 0 {
        assert(sorted.insert(p, c) =~= seq![c] + sorted);
    } else {
        let rest = sorted.drop_first();
        assert forall|i: int| 0 <= i < p - 1 implies rest[i].4 >= c.4 by {
            assert(rest[i] == sorted[i + 1]);
        }
        lemma_insert_at(rest, c, p - 1);
        assert(sorted.insert(p, c) =~= seq![sorted[0]] + rest.insert(p - 1, c));
    }
}

/// Inserting keeps the order and adds exactly `c`.
proof fn lemma_insert_ranked(
    sorted: Seq<(i64, Seq<char>, Option<Seq<char>>, Option<Seq<char>>, i64)>,
    c: (i64, Seq<char>, Option<Seq<char>>, Option<Seq<char>>, i64),
)
    requires
        most_downloaded_first(sorted),
    ensures
        most_downloaded_first(insert_ranked(sorted, c)),
        insert_ranked(sorted, c).to_multiset() == sorted.to_multiset().insert(c),
        insert_ranked(sorted, c).len() == sorted.len() + 1,
    decreases sorted.len(),
{
    broadcast use vstd::seq_lib::group_to_multiset_ensures;

    if sorted.len() == 0 {
        assert(seq![c] =~= Seq::<(i64, Seq<char>, Option<Seq<char>>, Option<Seq<char>>, i64)>::empty().push(c));
    } else if sorted[0].4 >= c.4 {
        let rest = sorted.drop_first();
        lemma_insert_ranked(rest, c);
        let r = insert_ranked(sorted, c);
        let tail = insert_ranked(rest, c);
        assert(r == seq![sorted[0]] + tail);
        assert forall|i: int, j: int| 0 <= i < j < r.len() implies r[i].4 >= r[j].4 by {
            if i == 0 {
                assert(r[j] == tail[j - 1]);
                assert(tail.to_multiset().count(tail[j - 1]) > 0);
                assert(tail[j - 1] == c || rest.to_multiset().count(tail[j - 1]) > 0);
                if tail[j - 1] != c {
                    let k = rest.index_of(tail[j - 1]);
                    assert(rest[k] == sorted[k + 1]);
                }
            } else {
                assert(r[i] == tail[i - 1]);
                assert(r[j] == tail[j - 1]);
            }
        }
        assert(sorted =~= seq![sorted[0]] + rest);
        vstd::seq_lib::lemma_multiset_commutative(seq![sorted[0]], tail);
        vstd::seq_lib::lemma_multiset_commutative(seq![sorted[0]], rest);
        assert(r.to_multiset() =~= sorted.to_multiset().insert(c));
    } else {
        let r = seq![c] + sorted;
        vstd::seq_lib::lemma_multiset_commutative(seq![c], sorted);
        assert forall|i: int, j: int| 0 <= i < j < r.len() implies r[i].4 >= r[j].4 by {
            if i == 0 {
                assert(r[j] == sorted[j - 1]);
                assert(sorted[0].4 >= sorted[j - 1].4 || j - 1 == 0);
            } else {
                assert(r[i] == sorted[i - 1]);
                assert(r[j] == sorted[j - 1]);
            }
        }
        assert(r.to_multiset() =~= sorted.to_multiset().insert(c));
    }
}

/// Law: a listing's download id lives on its first file entry. A listing with attributes and
/// at least one file offers a candidate whose file id is that of its first file, named as that
/// file is (or "subtitle"), with the listing's download count; files listed after the first
/// change nothing; and a reply of that one listing ranks as exactly that candidate.
pub proof fn lemma_candidate_is_first_file(item: SearchItem)
    requires
        item.attributes is Some,
        item.attributes->0.files@.len() > 0,
    ensures
        listing_candidate(item) matches Some(c) && c.0 == item.attributes->0.files@[0].file_id
            && c.4 == item.attributes->0.download_count && c.1 == match item.attributes->0.files@[
            0].file_name {
            Some(n) => n@,
            None => "subtitle"@,
        },
        forall|other: SearchItem|
            #![trigger listing_candidate(other)]
            other.attributes is Some && other.attributes->0.files@.len() > 0
                && other.attributes->0.files@[0] == item.attributes->0.files@[0]
                && other.attributes->0.language == item.attributes->0.language
                && other.attributes->0.release == item.attributes->0.release
                && other.attributes->0.download_count == item.attributes->0.download_count
                ==> listing_candidate(other) == listing_candidate(item),
        ranked(listed(seq![item])) == seq![listing_candidate(item)->0],
{
    let one = seq![item];
    let none = Seq::<SearchItem>::empty();
    assert(one.drop_last() =~= none);
    assert(one.last() == item);
    assert(listed(none) == Seq::<(i64, Seq<char>, Option<Seq<char>>, Option<Seq<char>>, i64)>::empty());
    let c = listing_candidate(item)->0;
    assert(listed(one) =~= seq![c]);
    let empty = Seq::<(i64, Seq<char>, Option<Seq<char>>, Option<Seq<char>>, i64)>::empty();
    assert(seq![c].drop_last() =~= empty);
    assert(seq![c].last() == c);
    assert(ranked(empty) == empty);
    assert(insert_ranked(empty, c) == seq![c]);
    assert(ranked(seq![c]) == seq![c]);
}

/// Law: ranking puts the most-downloaded candidate first and keeps every candidate, adding
/// and losing none.
pub proof fn lemma_ranked(cs: Seq<(i64, Seq<char>, Option<Seq<char>>, Option<Seq<char>>, i64)>)
    ensures
        most_downloaded_first(ranked(cs)),
        ranked(cs).to_multiset() == cs.to_multiset(),
        ranked(cs).len() == cs.len(),
    decreases cs.len(),
{
    broadcast use vstd::seq_lib::group_to_multiset_ensures;

    if cs.len() > 0 {
        lemma_ranked(cs.drop_last());
        lemma_insert_ranked(ranked(cs.drop_last()), cs.last());
        assert(cs =~= cs.drop_last().push(cs.last()));
    }
}

/// The candidate `item` offers, moved out of it.
fn candidate_of(item: SearchItem) -> (r: Option<Candidate>)
    ensures
        match r {
            Some(c) => listing_candidate(item) == Some(c@),
            None => listing_candidate(item) is None,
        },
{
    match item.attributes {
        None => None,
        Some(a) => {
            let SearchAttributes { language, release, download_count, files } = a;
            if files.len() == 0 {
                None
            } else {
                let mut files = files;
                let f = files.remove(0);
                let file_name = match f.file_name {
                    Some(n) => n,
                    None => {
                        let mut n = String::new();
                        push_str(&mut n, "subtitle");
                        n
                    },
                };
                Some(Candidate { file_id: f.file_id, file_name, language, release, download_count })
            }
        },
    }
}

/// The place for `c` in the ranked `sorted`: after every candidate downloaded at least as
/// often.
fn rank_position(sorted: &Vec<Candidate>, c: &Candidate) -> (p: usize)
    ensures
        p <= sorted@.len(),
        forall|i: int| 0 <= i < p ==> sorted@[i].download_count >= c.download_count,
        p < sorted@.len() ==> sorted@[p as int].download_count < c.download_count,
{
    let mut p: usize = 0;
    while p < sorted.len() && sorted[p].download_count >= c.download_count
        invariant
            p <= sorted@.len(),
            forall|i: int| 0 <= i < p ==> sorted@[i].download_count >= c.download_count,
        decreases sorted@.len() - p,
    {
        p = p + 1;
    }
    p
}

/// Ranks the listings of a search reply: each downloadable listing becomes a candidate, most
/// downloaded first, listings downloaded equally often keeping their order.
pub fn rank_candidates(items: Vec<SearchItem>) -> (r: Vec<Candidate>)
    ensures
        r@.map_values(|c: Candidate| c@) == ranked(listed(items@)),
{
    let ghost all = items@;
    assert(all.take(all.len() as int) =~= all);
    let mut sorted: Vec<Candidate> = Vec::new();
    for item in it: items.into_iter()
        invariant
            it.seq() == all,
            sorted@.map_values(|c: Candidate| c@) == ranked(listed(all.take(it.index() as int))),
    {
        let ghost i = it.index() as int;
        assert(all.take(i + 1).drop_last() =~= all.take(i));
        assert(all.take(i + 1).last() == item);
        match candidate_of(item) {
            Some(c) => {
                proof {
                    lemma_ranked(listed(all.take(i)));
                }
                let p = rank_position(&sorted, &c);
                let ghost before = sorted@.map_values(|x: Candidate| x@);
                proof {
                    assert forall|k: int| 0 <= k < p implies before[k].4 >= c@.4 by {
                        assert(before[k] == sorted@[k]@);
                    }
                    if p < sorted@.len() {
                        assert(before[p as int] == sorted@[p as int]@);
                    }
                    lemma_insert_at(before, c@, p as int);
                    assert(listed(all.take(i)).push(c@).drop_last() =~= listed(all.take(i)));
                }
                sorted.insert(p, c);
                assert(sorted@.map_values(|x: Candidate| x@) =~= before.insert(p as int, c@));
            },
            None => {},
        }
    }
    sorted
}

/// The message of an API error reply, when the reply had the usual `{ "message": … }` shape
/// and the message is not empty. `message` is that field, `None` when the reply lacked it.
pub fn api_error_message(message: Option<String>) -> (r: Option<String>)
    ensures
        match message {
            Some(m) => if m@.len() > 0 {
                r == Some(m)
            } else {
                r is None
            },
            None => r is None,
        },
{
    match message {
        Some(m) => if m.as_str().unicode_len() > 0 {
            Some(m)
        } else {
            None
        },
        None => None,
    }
}

/// A reply's body as text: a non-success status becomes an [`FetchError::Api`] carrying the
/// API's own message when it gave one, the whole body otherwise. `api_message` is the reply's
/// `message` field, `None` when it lacked one.
pub fn read_reply(success: bool, status: u16, text: String, api_message: Option<String>) -> (r:
    Result<String, FetchError>)
    ensures
        success ==> r == Ok::<String, FetchError>(text),
        !success ==> (r matches Err(FetchError::Api { status: s, message: m }) && s == status && (
        match api_message {
            Some(a) => if a@.len() > 0 {
                m == a
            } else {
                m == text
            },
            None => m == text,
        })),
{
    if success {
        return Ok(text);
    }
    let message = match api_error_message(api_message) {
        Some(m) => m,
        None => text,
    };
    Err(FetchError::Api { status, message })
}

/// The session token a login reply carries; an absent or empty one is a parse error.
pub fn login_token(token: Option<String>) -> (r: Result<String, FetchError>)
    ensures
        match token {
            Some(t) if t@.len() > 0 => r == Ok::<String, FetchError>(t),
            _ => r matches Err(FetchError::Parse(m)) && m@ == "login succeeded but returned no token"@,
        },
{
    match token {
        Some(t) if t.as_str().unicode_len() > 0 => Ok(t),
        _ => {
            let mut m = String::new();
            push_str(&mut m, "login succeeded but returned no token");
            Err(FetchError::Parse(m))
        },
    }
}

/// The one-time download link a download reply carries; an absent or empty one is a parse
/// error.
pub fn download_link(link: Option<String>) -> (r: Result<String, FetchError>)
    ensures
        match link {
            Some(l) if l@.len() > 0 => r == Ok::<String, FetchError>(l),
            _ => r matches Err(FetchError::Parse(m)) && m@ == "no download link in the reply"@,
        },
{
    match link {
        Some(l) if l.as_str().unicode_len() > 0 => Ok(l),
        _ => {
            let mut m = String::new();
            push_str(&mut m, "no download link in the reply");
            Err(FetchError::Parse(m))
        },
    }
}

/// The query parameters of a search: the query, then the language codes joined with commas
/// when there are any.
pub open spec fn search_params_spec(query: Seq<char>, languages: Seq<String>) -> Seq<
    (Seq<char>, Seq<char>),
> {
    if languages.len() == 0 {
        seq![("query"@, query)]
    } else {
        seq![("query"@, query), ("languages"@, joined(all_chars(languages), ","@))]
    }
}

/// The query parameters of a search for `query` in `languages`. Only these identifiers leave
/// the machine.
pub fn search_params(query: &str, languages: &Vec<String>) -> (r: Vec<(String, String)>)
    ensures
        r@.map_values(|p: (String, String)| (p.0@, p.1@)) == search_params_spec(query@, languages@),
{
    let mut key = String::new();
    push_str(&mut key, "query");
    let mut value = String::new();
    push_str(&mut value, query);
    let mut r: Vec<(String, String)> = Vec::new();
    r.push((key, value));
    if languages.len() > 0 {
        let mut key = String::new();
        push_str(&mut key, "languages");
        let value = join(languages, ",");
        r.push((key, value));
    }
    assert(r@.map_values(|p: (String, String)| (p.0@, p.1@)) =~= search_params_spec(
        query@,
        languages@,
    ));
    r
}

/// The address of an API resource: [`API_BASE`], a slash, and `resource`.
pub fn endpoint(resource: &str) -> (r: String)
    ensures
        r@ == API_BASE@ + "/"@ + resource@,
{
    let mut r = String::new();
    push_str(&mut r, API_BASE);
    push_str(&mut r, "/");
    push_str(&mut r, resource);
    r
}

/// The `Authorization` header value for a login token.
pub fn bearer(token: &str) -> (r: String)
    ensures
        r@ == "Bearer "@ + token@,
{
    let mut r = String::new();
    push_str(&mut r, "Bearer ");
    push_str(&mut r, token);
    r
}

/// How many bytes of a download are read: one past the bound, so an oversized body shows.
pub fn download_read_limit() -> (n: u64)
    ensures
        n == MAX_DOWNLOAD_BYTES + 1,
{
    MAX_DOWNLOAD_BYTES + 1
}

/// The error for a download link the server refused with `status`.
pub fn download_refused(status: u16) -> (e: FetchError)
    ensures
        e matches FetchError::Api { status: s, message: m } && s == status && m@
            == "download link rejected"@,
{
    let mut m = String::new();
    push_str(&mut m, "download link rejected");
    FetchError::Api { status, message: m }
}

/// A downloaded body, read up to [`download_read_limit`]: refused as too large when it went
/// past the bound.
pub fn bounded_download(body: Vec<u8>) -> (r: Result<Vec<u8>, FetchError>)
    ensures
        body@.len() > MAX_DOWNLOAD_BYTES ==> r == Err::<Vec<u8>, FetchError>(FetchError::TooLarge),
        body@.len() <= MAX_DOWNLOAD_BYTES ==> r == Ok::<Vec<u8>, FetchError>(body),
{
    if body.len() as u64 > MAX_DOWNLOAD_BYTES {
        Err(FetchError::TooLarge)
    } else {
        Ok(body)
    }
}

} // verus!
