//! The client of one Zuul API: its root url and the requests made from it.

use std::time::Duration;
use url::{ParseError, Url};
use vstd::prelude::*;
use crate::model::{Build, DecodeError};
use crate::scanner::Scanner;
use crate::tail::{text, Tail, TailState};

verus! {

/// `url::Url`, carried as it is: nothing inside it is read here.
#[verifier::external_type_specification]
#[verifier::external_body]
pub struct ExUrl(Url);

/// `url::ParseError`, carried as it is.
#[verifier::external_type_specification]
#[verifier::external_body]
pub struct ExParseError(ParseError);

/// The longest text of a url, in bytes, that the library changes. A change adds
/// at most twelve bytes for each character it is given and a few more, so that
/// below this limit the text stays under the four gigabytes at which the
/// parser stops.
pub const URL_LIMIT: usize = 0x1000_0000;

/// What `Url::parse` returns for `input`.
pub uninterp spec fn url_parsed(input: Seq<char>) -> Result<Url, ParseError>;

/// What `Url::path` returns for `url`.
pub uninterp spec fn url_path(url: Url) -> Seq<char>;

/// What `Url::cannot_be_a_base` returns for `url`.
pub uninterp spec fn url_cannot_be_a_base(url: Url) -> bool;

/// The number of bytes of the text of `url`: the length of what `Url::as_str`
/// returns.
pub uninterp spec fn url_length(url: Url) -> usize;

/// What `url` is after `Url::set_path` with `path`.
pub uninterp spec fn url_with_path(url: Url, path: Seq<char>) -> Url;

/// What `Url::join` returns for `input` on `base`.
pub uninterp spec fn url_joined(base: Url, input: Seq<char>) -> Result<Url, ParseError>;

/// What `url` is after `name` and `value` were added to its query by
/// `append_pair`.
pub uninterp spec fn url_with_query_pair(url: Url, name: Seq<char>, value: Seq<char>) -> Url;

/// `Url::parse`. Trusted: what it returns depends on the text alone.
pub assume_specification[ Url::parse ](input: &str) -> (parsed: Result<Url, ParseError>)
    ensures
        parsed == url_parsed(input@),
;

/// `Url::path`. Trusted: the path depends on the url alone; it is a piece of
/// the url's text, so it has no more characters than the text has bytes; and
/// the path of a url that can be a base is empty or starts with `/`.
pub assume_specification[ Url::path ](url: &Url) -> (path: &str)
    ensures
        path@ == url_path(*url),
        path@.len() <= url_length(*url),
        !url_cannot_be_a_base(*url) && path@.len() > 0 ==> path@.first() == '/',
;

/// `Url::cannot_be_a_base`. Trusted: the answer depends on the url alone.
pub assume_specification[ Url::cannot_be_a_base ](url: &Url) -> (opaque: bool)
    ensures
        opaque == url_cannot_be_a_base(*url),
;

/// Calls `Url::as_str` and `str::len` on what it returns.
#[verifier::external_body]
fn url_len(url: &Url) -> (length: usize)
    ensures
        length == url_length(*url),
{
    url.as_str().len()
}

/// `Url::set_path`. Trusted: what the url becomes depends on the url and the
/// path alone. The new path is written behind what stood before the old one:
/// each byte of `path` as at most three bytes, and at most three bytes more;
/// the call stops the program where the text then passes four gigabytes, which
/// `requires` leaves out. For a url that can be a base, a `path` from `/` to
/// `/` is read segment by segment, and the last `/` ends the new path. For a
/// url that cannot, the characters are written one by one, the last `/` too;
/// only a `/` at the head is written as `%2F`, so `path` must be longer than
/// that `/` alone.
pub assume_specification[ Url::set_path ](url: &mut Url, path: &str)
    requires
        url_length(*old(url)) <= URL_LIMIT,
        path@.len() <= URL_LIMIT,
    ensures
        *final(url) == url_with_path(*old(url), path@),
        ends_with_slash(path@) && (if url_cannot_be_a_base(*old(url)) {
            path@.len() >= 2
        } else {
            path@.first() == '/'
        }) ==> ends_with_slash(url_path(*final(url))),
;

/// `Url::join`. Trusted: what it returns depends on the base and the text
/// alone.
pub assume_specification[ Url::join ](base: &Url, input: &str) -> (joined: Result<Url, ParseError>)
    ensures
        joined == url_joined(*base, input@),
;

/// Calls `Url::query_pairs_mut` and `append_pair` on what it returns. Trusted:
/// the url with one more pair depends on the url and the pair alone. The text
/// grows by `?` or `&`, by `=`, and by at most three bytes for each byte of
/// the name and of the value; the calls stop the program where it then passes
/// four gigabytes, which `requires` leaves out.
#[verifier::external_body]
fn append_query_pair(url: &mut Url, name: &str, value: &str)
    requires
        url_length(*old(url)) + 12 * (name@.len() + value@.len()) + 3 <= u32::MAX,
    ensures
        *final(url) == url_with_query_pair(*old(url), name@, value@),
        url_length(*final(url)) <= url_length(*old(url)) + 12 * (name@.len() + value@.len()) + 3,
{
    url.query_pairs_mut().append_pair(name, value);
}

/// Why a text is no API root, or why no request can be made of a root.
#[derive(Debug, Clone, Copy, PartialEq, Eq)]
pub enum UrlError {
    /// The text is no url: what the parser found.
    Parse(ParseError),
    /// The url cannot be a base and its path is empty: no separator can end it.
    EmptyPath,
    /// The text of the url has `URL_LIMIT` bytes or more.
    TooLong,
}

/// Whether `path` ends with the separator of path segments.
pub open spec fn ends_with_slash(path: Seq<char>) -> bool {
    path.len() > 0 && path.last() == '/'
}

/// `path` with the separator behind it, where it does not end with one.
pub fn slash_terminated(path: &str) -> (new_path: Option<String>)
    ensures
        ends_with_slash(path@) ==> new_path is None,
        !ends_with_slash(path@) ==> new_path is Some && new_path->Some_0@ == path@.push('/'),
{
    let length = path.unicode_len();
    if length > 0 && path.get_char(length - 1) == '/' {
        None
    } else {
        let new_path = String::from_str(path).concat("/");
        proof {
            reveal_strlit("/");
            assert(new_path@ == path@.push('/'));
        }
        Some(new_path)
    }
}

/// The API root that the url `url` stands for: `url` itself where its path ends
/// with the separator, else `url` with the separator added to its path.
pub open spec fn slash_terminated_url(url: Url) -> Result<Url, UrlError> {
    if ends_with_slash(url_path(url)) {
        Ok(url)
    } else if url_path(url).len() == 0 && url_cannot_be_a_base(url) {
        Err(UrlError::EmptyPath)
    } else if url_length(url) >= URL_LIMIT {
        Err(UrlError::TooLong)
    } else {
        Ok(url_with_path(url, url_path(url).push('/')))
    }
}

/// The API root that `input` stands for.
pub open spec fn root_url(input: Seq<char>) -> Result<Url, UrlError> {
    match url_parsed(input) {
        Ok(url) => slash_terminated_url(url),
        Err(cause) => Err(UrlError::Parse(cause)),
    }
}

/// A root whose path ends with the separator is kept as it is, from whatever
/// text it is parsed: making a root of a root changes nothing.
pub proof fn lemma_root_is_kept(text: Seq<char>, root: Url)
    requires
        url_parsed(text) == Ok::<Url, ParseError>(root),
        ends_with_slash(url_path(root)),
    ensures
        root_url(text) == Ok::<Url, UrlError>(root),
{
}

/// Parses the API root and makes its path end with a slash, so that the
/// resources of the API can be joined to it.
pub fn parse_root_url(url: &str) -> (root: Result<Url, UrlError>)
    ensures
        root == root_url(url@),
        root is Ok ==> ends_with_slash(url_path(root->Ok_0)),
{
    let mut url = match Url::parse(url) {
        Ok(url) => url,
        Err(cause) => return Err(UrlError::Parse(cause)),
    };
    let path = url.path();
    match slash_terminated(path) {
        None => Ok(url),
        Some(new_path) => {
            if path.is_empty() && url.cannot_be_a_base() {
                return Err(UrlError::EmptyPath);
            }
            if url_len(&url) >= URL_LIMIT {
                return Err(UrlError::TooLong);
            }
            url.set_path(new_path.as_str());
            Ok(url)
        },
    }
}

/// Validates the API root and makes a client of it.
pub fn create_client(api: &str) -> (client: Result<Zuul, UrlError>)
    ensures
        match root_url(api@) {
            Ok(url) => client is Ok && client->Ok_0.api() == url && ends_with_slash(url_path(url)),
            Err(error) => client == Err::<Zuul, UrlError>(error),
        },
{
    match parse_root_url(api) {
        Ok(url) => Ok(Zuul::new(url)),
        Err(error) => Err(error),
    }
}

/// The decimal digit of `d`.
pub open spec fn digit_char(d: nat) -> char {
    if d == 0 {
        '0'
    } else if d == 1 {
        '1'
    } else if d == 2 {
        '2'
    } else if d == 3 {
        '3'
    } else if d == 4 {
        '4'
    } else if d == 5 {
        '5'
    } else if d == 6 {
        '6'
    } else if d == 7 {
        '7'
    } else if d == 8 {
        '8'
    } else {
        '9'
    }
}

/// `n` in decimal digits, without leading zeros.
pub open spec fn decimal_text(n: nat) -> Seq<char>
    decreases n,
{
    if n < 10 {
        seq![digit_char(n)]
    } else {
        decimal_text(n / 10).push(digit_char(n % 10))
    }
}

fn digit(d: u32) -> (text: &'static str)
    requires
        d < 10,
    ensures
        text@ == seq![digit_char(d as nat)],
{
    proof {
        reveal_strlit("0");
        reveal_strlit("1");
        reveal_strlit("2");
        reveal_strlit("3");
        reveal_strlit("4");
        reveal_strlit("5");
        reveal_strlit("6");
        reveal_strlit("7");
        reveal_strlit("8");
        reveal_strlit("9");
    }
    let text = if d == 0 {
        "0"
    } else if d == 1 {
        "1"
    } else if d == 2 {
        "2"
    } else if d == 3 {
        "3"
    } else if d == 4 {
        "4"
    } else if d == 5 {
        "5"
    } else if d == 6 {
        "6"
    } else if d == 7 {
        "7"
    } else if d == 8 {
        "8"
    } else {
        "9"
    };
    assert(text@ =~= seq![digit_char(d as nat)]);
    text
}

fn decimal(n: u32) -> (text: String)
    ensures
        text@ == decimal_text(n as nat),
    decreases n,
{
    if n < 10 {
        String::from_str(digit(n))
    } else {
        let head = decimal(n / 10);
        let text = head.concat(digit(n % 10));
        assert(text@ =~= decimal_text(n as nat));
        text
    }
}

/// A number below 2^32 has at most ten digits.
pub proof fn lemma_decimal_length(n: nat)
    requires
        n <= u32::MAX,
    ensures
        1 <= decimal_text(n).len() <= 10,
{
    reveal_with_fuel(decimal_text, 11);
}

/// The url of the request for `limit` completed builds after the first `skip`.
pub open spec fn builds_request(api: Url, skip: u32, limit: u32) -> Result<Url, UrlError> {
    match url_joined(api, "builds"@) {
        Ok(url) => if url_length(url) >= URL_LIMIT {
            Err(UrlError::TooLong)
        } else {
            Ok(
                url_with_query_pair(
                    url_with_query_pair(
                        url_with_query_pair(url, "complete"@, "true"@),
                        "skip"@,
                        decimal_text(skip as nat),
                    ),
                    "limit"@,
                    decimal_text(limit as nat),
                ),
            )
        },
        Err(cause) => Err(UrlError::Parse(cause)),
    }
}

/// The first row of `page` that is no build, if there is one.
pub open spec fn first_failure(page: Seq<Result<Build, DecodeError>>) -> Option<DecodeError>
    decreases page.len(),
{
    if page.len() == 0 {
        None
    } else if page.first() is Err {
        Some(page.first()->Err_0)
    } else {
        first_failure(page.drop_first())
    }
}

/// `first_failure` is the row at which a walk over `page` stops.
pub proof fn lemma_first_failure(page: Seq<Result<Build, DecodeError>>, k: int)
    requires
        0 <= k <= page.len(),
        forall|i: int| 0 <= i < k ==> (#[trigger] page[i]) is Ok,
        k < page.len() ==> page[k] is Err,
    ensures
        first_failure(page) == if k < page.len() {
            Some(page[k]->Err_0)
        } else {
            None
        },
    decreases page.len(),
{
    if page.len() > 0 && k > 0 {
        let rest = page.drop_first();
        assert(page[0] is Ok);
        assert forall|i: int| 0 <= i < k - 1 implies (#[trigger] rest[i]) is Ok by {
            assert(page[i + 1] is Ok);
        }
        lemma_first_failure(rest, k - 1);
    }
}

/// The builds of a page whose rows are all builds.
pub open spec fn all_builds(page: Seq<Result<Build, DecodeError>>) -> Seq<Build> {
    page.map_values(|row: Result<Build, DecodeError>| row->Ok_0)
}

/// The client.
pub struct Zuul {
    api: Url,
}

impl Zuul {
    /// The API root of the client.
    pub closed spec fn api(&self) -> Url {
        self.api
    }

    /// Create a new client.
    pub fn new(api: Url) -> (client: Zuul)
        ensures
            client.api() == api,
    {
        Zuul { api }
    }

    /// The API root of the client.
    pub fn root(&self) -> (api: &Url)
        ensures
            *api == self.api(),
    {
        &self.api
    }

    /// The url to ask for `limit` completed builds after the first `skip`. It
    /// fails where nothing can be joined to the API root, and where the url is
    /// too long to take the query.
    pub fn builds_url(&self, skip: u32, limit: u32) -> (url: Result<Url, UrlError>)
        ensures
            url == builds_request(self.api(), skip, limit),
    {
        let mut url = match self.api.join("builds") {
            Ok(url) => url,
            Err(cause) => return Err(UrlError::Parse(cause)),
        };
        if url_len(&url) >= URL_LIMIT {
            return Err(UrlError::TooLong);
        }
        proof {
            reveal_strlit("complete");
            reveal_strlit("true");
            reveal_strlit("skip");
            reveal_strlit("limit");
            lemma_decimal_length(skip as nat);
            lemma_decimal_length(limit as nat);
        }
        append_query_pair(&mut url, "complete", "true");
        append_query_pair(&mut url, "skip", decimal(skip).as_str());
        append_query_pair(&mut url, "limit", decimal(limit).as_str());
        Ok(url)
    }

    /// Produce a continuous stream of unique builds: the loop that the caller
    /// drives with the pages it fetches.
    pub fn builds_tail(&self, loop_delay: Duration, since: Option<String>) -> (tail: Tail)
        ensures
            tail.delay() == loop_delay,
            tail@ == (TailState { since: text(since), candidate: None, offset: 0, emitted: Seq::empty() }),
    {
        Tail::new(loop_delay, since)
    }

    /// Produce a stream of unique builds: the scan that the caller drives with
    /// the pages it fetches.
    pub fn builds_stream(&self) -> (scanner: Scanner)
        ensures
            scanner.offset() == 0,
            scanner.emitted() == Seq::<Build>::empty(),
    {
        Scanner::new()
    }

    /// The builds of a page whose rows were all decoded. A page with another
    /// row is not taken.
    pub fn builds_unsafe(&self, page: Vec<Result<Build, DecodeError>>) -> (builds: Vec<Build>)
        requires
            first_failure(page@) is None,
        ensures
            builds@ == all_builds(page@),
    {
        let ghost rows = page@;
        let mut builds: Vec<Build> = Vec::new();
        for row in it: page.into_iter()
            invariant
                it.seq() == rows,
                first_failure(rows) is None,
                forall|i: int| 0 <= i < it.index() ==> (#[trigger] rows[i]) is Ok,
                builds@ == all_builds(rows.take(it.index())),
        {
            proof {
                if row is Err {
                    lemma_first_failure(rows, it.index());
                }
            }
            match row {
                Ok(build) => {
                    builds.push(build);
                    assert(builds@ =~= all_builds(rows.take(it.index() + 1)));
                },
                Err(_) => {
                    unreached::<()>();
                },
            }
        }
        assert(rows.take(rows.len() as int) == rows);
        builds
    }
}

} // verus!
