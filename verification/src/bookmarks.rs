//! Bookmark metadata: extraction of title and description from fetched
//! markup, and a retrying fetch session with exponential backoff. The
//! network attempt itself is the driver's job; the session decides, from
//! each attempt's outcome, whether to retry, how long to wait, and what to
//! return. Markup is handled as raw bytes; on UTF-8 pages the byte
//! positions of the markers coincide with the decoded text.

use vstd::prelude::*;
use vstd::arithmetic::power2::{pow2, lemma2_to64};
use crate::text::{find_at, find_from, trimmed, trim_bytes};

verus! {

/// Ways a fetch can fail: a malformed URL (never retried), a transient
/// network failure or timeout (retried up to the cap), or a page without
/// any title source (terminal, since the page's content is not transient).
#[derive(Debug)]
pub enum BookmarkError {
    InvalidUrl(String),
    Network,
    Timeout,
    NoTitle,
}

/// Metadata extracted from a fetched page. Title and description are the
/// markup bytes, trimmed; the URL is carried through unchanged.
#[derive(Debug)]
pub struct BookmarkMetadata {
    pub title: Vec<u8>,
    pub description: Option<Vec<u8>>,
    pub url: String,
    pub favicon_url: Option<String>,
}

/// The bytes of `<title>`.
pub open spec fn title_open_bytes() -> Seq<u8> {
    seq![60u8, 116u8, 105u8, 116u8, 108u8, 101u8, 62u8]
}

/// The bytes of `</title>`.
pub open spec fn title_close_bytes() -> Seq<u8> {
    seq![60u8, 47u8, 116u8, 105u8, 116u8, 108u8, 101u8, 62u8]
}

/// The bytes of `property="og:title"`.
pub open spec fn og_title_bytes() -> Seq<u8> {
    seq![112u8, 114u8, 111u8, 112u8, 101u8, 114u8, 116u8, 121u8, 61u8, 34u8, 111u8, 103u8, 58u8, 116u8,
        105u8, 116u8, 108u8, 101u8, 34u8]
}

/// The bytes of `property="og:description"`.
pub open spec fn og_description_bytes() -> Seq<u8> {
    seq![112u8, 114u8, 111u8, 112u8, 101u8, 114u8, 116u8, 121u8, 61u8, 34u8, 111u8, 103u8, 58u8, 100u8,
        101u8, 115u8, 99u8, 114u8, 105u8, 112u8, 116u8, 105u8, 111u8, 110u8, 34u8]
}

/// The bytes of `name="description"`.
pub open spec fn meta_description_bytes() -> Seq<u8> {
    seq![110u8, 97u8, 109u8, 101u8, 61u8, 34u8, 100u8, 101u8, 115u8, 99u8, 114u8, 105u8, 112u8, 116u8,
        105u8, 111u8, 110u8, 34u8]
}

/// The bytes of `content="`.
pub open spec fn content_marker_bytes() -> Seq<u8> {
    seq![99u8, 111u8, 110u8, 116u8, 101u8, 110u8, 116u8, 61u8, 34u8]
}

/// The text a `<meta ... content="...">` pattern yields: after the first
/// occurrence of `marker`, the first `content="` attribute's value, up to
/// the next double quote, trimmed.
pub open spec fn spec_meta_content(h: Seq<u8>, marker: Seq<u8>) -> Option<Seq<u8>> {
    match find_at(h, marker, 0) {
        Some(p) => match find_at(h, content_marker_bytes(), p) {
            Some(c) => match find_at(h, seq![34u8], c + 9) {
                Some(e) => Some(trimmed(h.subrange(c + 9, e))),
                None => None,
            },
            None => None,
        },
        None => None,
    }
}

/// The page's title: the first `<title>` element's text, trimmed, if the
/// element is closed; otherwise the `og:title` meta content.
pub open spec fn spec_title(h: Seq<u8>) -> Option<Seq<u8>> {
    let from_tag = match find_at(h, title_open_bytes(), 0) {
        Some(i) => match find_at(h, title_close_bytes(), i + 7) {
            Some(e) => Some(trimmed(h.subrange(i + 7, e))),
            None => None,
        },
        None => None,
    };
    if from_tag is Some {
        from_tag
    } else {
        spec_meta_content(h, og_title_bytes())
    }
}

/// The page's description: the `description` meta content, else the
/// `og:description` meta content.
pub open spec fn spec_description(h: Seq<u8>) -> Option<Seq<u8>> {
    let named = spec_meta_content(h, meta_description_bytes());
    if named is Some {
        named
    } else {
        spec_meta_content(h, og_description_bytes())
    }
}

fn title_open_needle() -> (v: Vec<u8>)
    ensures
        v@ == title_open_bytes(),
{
    let v = vec![60u8, 116u8, 105u8, 116u8, 108u8, 101u8, 62u8];
    proof {
        assert(v@ =~= title_open_bytes());
    }
    v
}

fn title_close_needle() -> (v: Vec<u8>)
    ensures
        v@ == title_close_bytes(),
{
    let v = vec![60u8, 47u8, 116u8, 105u8, 116u8, 108u8, 101u8, 62u8];
    proof {
        assert(v@ =~= title_close_bytes());
    }
    v
}

fn og_title_needle() -> (v: Vec<u8>)
    ensures
        v@ == og_title_bytes(),
{
    let v = vec![112u8, 114u8, 111u8, 112u8, 101u8, 114u8, 116u8, 121u8, 61u8, 34u8, 111u8, 103u8, 58u8,
        116u8, 105u8, 116u8, 108u8, 101u8, 34u8];
    proof {
        assert(v@ =~= og_title_bytes());
    }
    v
}

fn og_description_needle() -> (v: Vec<u8>)
    ensures
        v@ == og_description_bytes(),
{
    let v = vec![112u8, 114u8, 111u8, 112u8, 101u8, 114u8, 116u8, 121u8, 61u8, 34u8, 111u8, 103u8, 58u8,
        100u8, 101u8, 115u8, 99u8, 114u8, 105u8, 112u8, 116u8, 105u8, 111u8, 110u8, 34u8];
    proof {
        assert(v@ =~= og_description_bytes());
    }
    v
}

fn meta_description_needle() -> (v: Vec<u8>)
    ensures
        v@ == meta_description_bytes(),
{
    let v = vec![110u8, 97u8, 109u8, 101u8, 61u8, 34u8, 100u8, 101u8, 115u8, 99u8, 114u8, 105u8, 112u8,
        116u8, 105u8, 111u8, 110u8, 34u8];
    proof {
        assert(v@ =~= meta_description_bytes());
    }
    v
}

fn content_marker_needle() -> (v: Vec<u8>)
    ensures
        v@ == content_marker_bytes(),
{
    let v = vec![99u8, 111u8, 110u8, 116u8, 101u8, 110u8, 116u8, 61u8, 34u8];
    proof {
        assert(v@ =~= content_marker_bytes());
    }
    v
}

/// Value of the first `content="..."` attribute after the first occurrence
/// of `marker`, trimmed; exactly `spec_meta_content`.
pub fn extract_meta_content(html: &[u8], marker: &Vec<u8>) -> (r: Option<Vec<u8>>)
    ensures
        match r {
            Some(t) => spec_meta_content(html@, marker@) == Some(t@),
            None => spec_meta_content(html@, marker@) is None,
        },
{
    let hlen = html.len();
    let p = match find_from(html, marker.as_slice(), 0) {
        Some(p) => p,
        None => {
            return None;
        },
    };
    proof {
        crate::text::lemma_find_at(html@, marker@, 0);
    }
    let content_marker = content_marker_needle();
    let c = match find_from(html, content_marker.as_slice(), p) {
        Some(c) => c,
        None => {
            return None;
        },
    };
    proof {
        crate::text::lemma_find_at(html@, content_marker@, p as int);
        assert(c + 9 <= hlen);
    }
    let quote = vec![34u8];
    proof {
        assert(quote@ =~= seq![34u8]);
    }
    let e = match find_from(html, quote.as_slice(), c + 9) {
        Some(e) => e,
        None => {
            return None;
        },
    };
    proof {
        crate::text::lemma_find_at(html@, quote@, c + 9);
    }
    let value = trim_bytes(&html[c + 9..e]);
    Some(value)
}

/// The page's title under the resolution order of `spec_title`: the first
/// closed `<title>` element wins over `og:title`.
pub fn extract_title(html: &[u8]) -> (r: Option<Vec<u8>>)
    ensures
        match r {
            Some(t) => spec_title(html@) == Some(t@),
            None => spec_title(html@) is None,
        },
{
    let hlen = html.len();
    let open = title_open_needle();
    if let Some(i) = find_from(html, open.as_slice(), 0) {
        proof {
            crate::text::lemma_find_at(html@, open@, 0);
            assert(i + 7 <= hlen);
        }
        let close = title_close_needle();
        if let Some(e) = find_from(html, close.as_slice(), i + 7) {
            proof {
                crate::text::lemma_find_at(html@, close@, i + 7);
            }
            let t = trim_bytes(&html[i + 7..e]);
            return Some(t);
        }
    }
    let og = og_title_needle();
    extract_meta_content(html, &og)
}

/// The page's description under the resolution order of
/// `spec_description`.
pub fn extract_description(html: &[u8]) -> (r: Option<Vec<u8>>)
    ensures
        match r {
            Some(t) => spec_description(html@) == Some(t@),
            None => spec_description(html@) is None,
        },
{
    let named = meta_description_needle();
    let first = extract_meta_content(html, &named);
    if first.is_some() {
        return first;
    }
    let og = og_description_needle();
    extract_meta_content(html, &og)
}

/// Metadata for a successfully fetched page: `Ok` exactly when the markup
/// yields a title; the description is optional and its absence is no error.
pub fn parse_metadata(url: &String, html: &[u8]) -> (r: Result<BookmarkMetadata, BookmarkError>)
    ensures
        match r {
            Ok(m) => spec_title(html@) == Some(m.title@) && m.url@ == url@ && m.favicon_url
                is None && (match m.description {
                Some(d) => spec_description(html@) == Some(d@),
                None => spec_description(html@) is None,
            }),
            Err(e) => e is NoTitle && spec_title(html@) is None,
        },
{
    let title = match extract_title(html) {
        Some(t) => t,
        None => {
            return Err(BookmarkError::NoTitle);
        },
    };
    let description = extract_description(html);
    Ok(BookmarkMetadata { title, description, url: url.clone(), favicon_url: None })
}

/// Whether a URL string is well-formed.
pub uninterp spec fn url_ok(s: Seq<char>) -> bool;

/// Relies on `reqwest::Url::parse` (the `url` crate's parser): whether a
/// URL string parses is a function of the string alone.
#[verifier::external_body]
fn validate_url(url: &str) -> (r: bool)
    ensures
        r == url_ok(url@),
{
    reqwest::Url::parse(url).is_ok()
}

/// What happened on one network attempt, as the driver reports it: the
/// response body, a connection-level failure, or an exceeded timeout.
#[derive(Debug)]
pub enum AttemptOutcome {
    Fetched(Vec<u8>),
    NetworkFailed,
    TimedOut,
}

/// Transient failures retried after the first attempt.
pub const MAX_RETRIES: u32 = 2;

/// Base backoff delay, doubled before each further retry.
pub const RETRY_DELAY_MILLIS: u64 = 500;

/// Backoff in milliseconds before the attempt that follows `failed`
/// transient failures: none before the first attempt, then the base delay
/// doubled for each further retry.
pub open spec fn spec_backoff_millis(failed: int) -> int {
    if failed <= 0 {
        0
    } else {
        500 * pow2((failed - 1) as nat) as int
    }
}

/// One metadata fetch in progress: how many attempts have failed so far
/// and whether a terminal result was reached. The driver performs the
/// network attempts; the session owns every decision.
pub struct FetchSession {
    pub url: String,
    pub attempts: u32,
    pub done: bool,
}

impl FetchSession {
    /// A session that may still attempt.
    pub open spec fn in_progress(self) -> bool {
        !self.done && self.attempts <= MAX_RETRIES
    }

    /// Opens a fetch session for `url`. A malformed URL fails immediately
    /// with `InvalidUrl` before any network attempt is made; a session is
    /// handed back only for a well-formed URL.
    pub fn begin(url: String) -> (r: Result<FetchSession, BookmarkError>)
        ensures
            match r {
                Ok(s) => url_ok(url@) && s.url@ == url@ && s.attempts == 0 && !s.done,
                Err(e) => !url_ok(url@) && (e matches BookmarkError::InvalidUrl(u) && u@
                    == url@),
            },
    {
        if validate_url(url.as_str()) {
            Ok(FetchSession { url, attempts: 0, done: false })
        } else {
            Err(BookmarkError::InvalidUrl(url))
        }
    }

    /// Milliseconds the driver must wait before the next attempt: the
    /// exponential backoff schedule over the failures so far.
    pub fn next_backoff(&self) -> (b: u64)
        requires
            self.in_progress(),
        ensures
            b == spec_backoff_millis(self.attempts as int),
    {
        proof {
            lemma2_to64();
        }
        if self.attempts == 0 {
            0
        } else if self.attempts == 1 {
            500
        } else {
            1000
        }
    }

    /// Folds one attempt's outcome into the session. A fetched body is
    /// terminal either way: its parse result is returned and never
    /// retried, even when no title was found. A transient failure is
    /// retried until the retry cap is reached, after which the last
    /// failure is returned.
    pub fn record_attempt(&mut self, outcome: AttemptOutcome) -> (r: Option<
        Result<BookmarkMetadata, BookmarkError>,
    >)
        requires
            old(self).in_progress(),
        ensures
            final(self).url@ == old(self).url@,
            (outcome is NetworkFailed || outcome is TimedOut) && old(self).attempts
                < MAX_RETRIES ==> spec_retry_step(*old(self), *final(self)),
            match outcome {
                AttemptOutcome::Fetched(html) => final(self).done && (match r {
                    Some(res) => match res {
                        Ok(m) => spec_title(html@) == Some(m.title@) && m.url@ == old(
                            self,
                        ).url@ && m.favicon_url is None && (match m.description {
                            Some(d) => spec_description(html@) == Some(d@),
                            None => spec_description(html@) is None,
                        }),
                        Err(e) => e is NoTitle && spec_title(html@) is None,
                    },
                    None => false,
                }),
                AttemptOutcome::NetworkFailed => final(self).attempts == old(self).attempts
                    + 1 && (if old(self).attempts < MAX_RETRIES {
                    r is None && final(self).in_progress()
                } else {
                    final(self).done && r matches Some(Err(BookmarkError::Network))
                }),
                AttemptOutcome::TimedOut => final(self).attempts == old(self).attempts + 1
                    && (if old(self).attempts < MAX_RETRIES {
                    r is None && final(self).in_progress()
                } else {
                    final(self).done && r matches Some(Err(BookmarkError::Timeout))
                }),
            },
    {
        match outcome {
            AttemptOutcome::Fetched(html) => {
                self.done = true;
                Some(parse_metadata(&self.url, html.as_slice()))
            },
            AttemptOutcome::NetworkFailed => {
                self.attempts = self.attempts + 1;
                if self.attempts > MAX_RETRIES {
                    self.done = true;
                    Some(Err(BookmarkError::Network))
                } else {
                    None
                }
            },
            AttemptOutcome::TimedOut => {
                self.attempts = self.attempts + 1;
                if self.attempts > MAX_RETRIES {
                    self.done = true;
                    Some(Err(BookmarkError::Timeout))
                } else {
                    None
                }
            },
        }
    }
}

/// When the markup holds a closed `<title>` element, that element's
/// trimmed text is the title: the `og:title` meta content is never
/// consulted.
pub proof fn lemma_title_tag_wins(h: Seq<u8>, i: int, e: int)
    requires
        find_at(h, title_open_bytes(), 0) == Some(i),
        find_at(h, title_close_bytes(), i + 7) == Some(e),
    ensures
        spec_title(h) == Some(trimmed(h.subrange(i + 7, e))),
{
}

/// The change a transient failure makes to a session that may still
/// retry, as `record_attempt` ensures it: one more failure counted and
/// the session still in progress.
pub open spec fn spec_retry_step(pre: FetchSession, post: FetchSession) -> bool {
    &&& pre.in_progress()
    &&& pre.attempts < MAX_RETRIES
    &&& post.attempts == pre.attempts + 1
    &&& post.in_progress()
}

/// A fetch that meets two transient failures and then a delivered body
/// waits the full backoff schedule: nothing before the first attempt,
/// 500 ms before the second, 1000 ms before the third — 1500 ms of
/// cumulative backoff before the final attempt, whose parse result
/// `record_attempt` then returns outright.
pub proof fn lemma_retry_schedule(s0: FetchSession, s1: FetchSession, s2: FetchSession)
    requires
        s0.attempts == 0 && s0.in_progress(),
        spec_retry_step(s0, s1),
        spec_retry_step(s1, s2),
    ensures
        spec_backoff_millis(s0.attempts as int) == 0,
        spec_backoff_millis(s1.attempts as int) == 500,
        spec_backoff_millis(s2.attempts as int) == 1000,
        spec_backoff_millis(s0.attempts as int) + spec_backoff_millis(s1.attempts as int)
            + spec_backoff_millis(s2.attempts as int) == 1500,
{
    lemma2_to64();
}

} // verus!
