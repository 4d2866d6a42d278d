//! The compute half of the fetch worker: parsing a retrieved document body
//! into a `Feed`, and recording a whole retrieval outcome on the model. The
//! retrieval itself (network or disk) is the orchestration loop's.

use vstd::prelude::*;
use vstd::string::StringExecFns;
use crate::feed::{Article, Feed, FeedState};
use crate::model::{error_report_of, first_with_data_from, spec_clamped_article, Model, Task};

verus! {

/// The five fields of an article as plain values: title, authors, date,
/// summary and link.
pub open spec fn article_fields(a: Article) -> (
    Option<Seq<char>>,
    Option<Seq<char>>,
    Option<i64>,
    Seq<char>,
    Seq<char>,
) {
    (
        match a.title {
            Some(t) => Some(t@),
            None => None,
        },
        match a.authors {
            Some(t) => Some(t@),
            None => None,
        },
        a.date,
        a.summary@,
        a.url@,
    )
}

/// What parsing a syndication document yields: for each entry, in document
/// order, the article fields read from it — or nothing when the document is
/// not a recognisable feed. The result is a function of the document bytes
/// alone.
pub uninterp spec fn parsed_articles_of(body: Seq<u8>) -> Option<
    Seq<(Option<Seq<char>>, Option<Seq<char>>, Option<i64>, Seq<char>, Seq<char>)>,
>;

// What follows fences off the one panicking corner of the feed parser: its
// "normal play time" reader unwraps `u64` parses of regex-captured digit
// runs and multiplies an unchecked hour count, so a crafted duration can
// abort the process. That code only runs for elements of the MediaRSS or
// iTunes namespaces, each recognised solely by its exact namespace URI in a
// decoded attribute value. A document is admitted when neither URI can reach
// the parser: the URI text does not appear in the raw bytes, no NUL byte
// lets the bytes be re-read as UTF-16, and no character reference resolves
// to an ASCII character (decoding could otherwise assemble a URI out of
// references).

/// The MediaRSS namespace URI starts at position `i`.
pub open spec fn mrss_uri_at(b: Seq<u8>, i: int) -> bool {
    &&& 0 <= i
    &&& i + 21 <= b.len()
    &&& b[i + 0] == 0x73u8
    &&& b[i + 1] == 0x65u8
    &&& b[i + 2] == 0x61u8
    &&& b[i + 3] == 0x72u8
    &&& b[i + 4] == 0x63u8
    &&& b[i + 5] == 0x68u8
    &&& b[i + 6] == 0x2eu8
    &&& b[i + 7] == 0x79u8
    &&& b[i + 8] == 0x61u8
    &&& b[i + 9] == 0x68u8
    &&& b[i + 10] == 0x6fu8
    &&& b[i + 11] == 0x6fu8
    &&& b[i + 12] == 0x2eu8
    &&& b[i + 13] == 0x63u8
    &&& b[i + 14] == 0x6fu8
    &&& b[i + 15] == 0x6du8
    &&& b[i + 16] == 0x2fu8
    &&& b[i + 17] == 0x6du8
    &&& b[i + 18] == 0x72u8
    &&& b[i + 19] == 0x73u8
    &&& b[i + 20] == 0x73u8
}

/// The iTunes namespace URI (its distinctive tail) starts at position `i`.
pub open spec fn itunes_uri_at(b: Seq<u8>, i: int) -> bool {
    &&& 0 <= i
    &&& i + 15 <= b.len()
    &&& b[i + 0] == 0x69u8
    &&& b[i + 1] == 0x74u8
    &&& b[i + 2] == 0x75u8
    &&& b[i + 3] == 0x6eu8
    &&& b[i + 4] == 0x65u8
    &&& b[i + 5] == 0x73u8
    &&& b[i + 6] == 0x2eu8
    &&& b[i + 7] == 0x63u8
    &&& b[i + 8] == 0x6fu8
    &&& b[i + 9] == 0x6du8
    &&& b[i + 10] == 0x2fu8
    &&& b[i + 11] == 0x64u8
    &&& b[i + 12] == 0x74u8
    &&& b[i + 13] == 0x64u8
    &&& b[i + 14] == 0x73u8
}

/// Whether `x` is an ASCII decimal digit.
pub open spec fn is_dec_digit(x: u8) -> bool {
    0x30 <= x <= 0x39
}

/// Whether `x` is an ASCII hexadecimal digit.
pub open spec fn is_hex_digit(x: u8) -> bool {
    is_dec_digit(x) || (0x41 <= x <= 0x46) || (0x61 <= x <= 0x66)
}

/// The end of the run of ASCII zero digits starting at `k`.
pub open spec fn zeros_end(b: Seq<u8>, k: int) -> int
    decreases b.len() - k,
    when 0 <= k <= b.len()
{
    if k < b.len() && b[k] == 0x30 {
        zeros_end(b, k + 1)
    } else {
        k
    }
}

/// The position that skips the zeros and stops at the first other byte is
/// the end of the zero run.
proof fn lemma_zeros_end_unique(b: Seq<u8>, k: int, z: int)
    requires
        0 <= k <= z <= b.len(),
        forall|j: int| k <= j < z ==> b[j] == 0x30,
        z < b.len() ==> b[z] != 0x30,
    ensures
        zeros_end(b, k) == z,
    decreases z - k,
{
    if k < z {
        assert(b[k] == 0x30);
        lemma_zeros_end_unique(b, k + 1, z);
    }
}

/// A decimal character reference body at `k` (the digits after `&#`) that
/// resolves to an ASCII code point: leading zeros, then a value of at most
/// three digits not above 127, closed by `;`. An all-zero body is included,
/// conservatively.
pub open spec fn dec_ascii_ref_from(b: Seq<u8>, k: int) -> bool {
    let z = zeros_end(b, k);
    ||| (z > k && z < b.len() && b[z] == 0x3B)
    ||| (z < b.len() && is_dec_digit(b[z]) && z + 1 < b.len() && b[z + 1] == 0x3B)
    ||| (z + 1 < b.len() && is_dec_digit(b[z]) && is_dec_digit(b[z + 1]) && z + 2 < b.len()
        && b[z + 2] == 0x3B)
    ||| (z + 2 < b.len() && b[z] == 0x31 && is_dec_digit(b[z + 1]) && is_dec_digit(b[z + 2]) && z
        + 3 < b.len() && b[z + 3] == 0x3B && (b[z + 1] < 0x32 || (b[z + 1] == 0x32 && b[z + 2]
        <= 0x37)))
}

/// A hexadecimal character reference body at `k` (the digits after `&#x`)
/// that resolves to an ASCII code point: leading zeros, then at most two hex
/// digits not above 0x7F, closed by `;`.
pub open spec fn hex_ascii_ref_from(b: Seq<u8>, k: int) -> bool {
    let z = zeros_end(b, k);
    ||| (z > k && z < b.len() && b[z] == 0x3B)
    ||| (z < b.len() && is_hex_digit(b[z]) && z + 1 < b.len() && b[z + 1] == 0x3B)
    ||| (z + 1 < b.len() && 0x31 <= b[z] <= 0x37 && is_hex_digit(b[z + 1]) && z + 2 < b.len()
        && b[z + 2] == 0x3B)
}

/// A character reference at `i` that resolves to an ASCII character.
pub open spec fn ascii_char_ref_at(b: Seq<u8>, i: int) -> bool {
    &&& 0 <= i
    &&& i + 1 < b.len()
    &&& b[i] == 0x26
    &&& b[i + 1] == 0x23
    &&& (if i + 2 < b.len() && (b[i + 2] == 0x78 || b[i + 2] == 0x58) {
        hex_ascii_ref_from(b, i + 3)
    } else {
        dec_ascii_ref_from(b, i + 2)
    })
}

/// What must hold at every position of an admissible document.
pub open spec fn npt_cond(b: Seq<u8>, i: int) -> bool {
    &&& b[i] != 0x00
    &&& !mrss_uri_at(b, i)
    &&& !itunes_uri_at(b, i)
    &&& !ascii_char_ref_at(b, i)
}

/// A document the feed parser accepts without ever reaching its panicking
/// normal-play-time reader.
pub open spec fn npt_safe(b: Seq<u8>) -> bool {
    forall|i: int| 0 <= i < b.len() ==> #[trigger] npt_cond(b, i)
}

/// Whether the MediaRSS namespace URI starts at `i`.
fn mrss_at(b: &Vec<u8>, i: usize) -> (r: bool)
    requires
        i < b@.len(),
    ensures
        r == mrss_uri_at(b@, i as int),
{
    b.len() - i >= 21 && b[i + 0] == 0x73 && b[i + 1] == 0x65 && b[i + 2] == 0x61 && b[i + 3] == 0x72 && b[i + 4] == 0x63 && b[i + 5] == 0x68 && b[i + 6] == 0x2e && b[i + 7] == 0x79 && b[i + 8] == 0x61 && b[i + 9] == 0x68 && b[i + 10] == 0x6f && b[i + 11] == 0x6f && b[i + 12] == 0x2e && b[i + 13] == 0x63 && b[i + 14] == 0x6f && b[i + 15] == 0x6d && b[i + 16] == 0x2f && b[i + 17] == 0x6d && b[i + 18] == 0x72 && b[i + 19] == 0x73 && b[i + 20] == 0x73
}

/// Whether the iTunes namespace URI tail starts at `i`.
fn itunes_at(b: &Vec<u8>, i: usize) -> (r: bool)
    requires
        i < b@.len(),
    ensures
        r == itunes_uri_at(b@, i as int),
{
    b.len() - i >= 15 && b[i + 0] == 0x69 && b[i + 1] == 0x74 && b[i + 2] == 0x75 && b[i + 3] == 0x6e && b[i + 4] == 0x65 && b[i + 5] == 0x73 && b[i + 6] == 0x2e && b[i + 7] == 0x63 && b[i + 8] == 0x6f && b[i + 9] == 0x6d && b[i + 10] == 0x2f && b[i + 11] == 0x64 && b[i + 12] == 0x74 && b[i + 13] == 0x64 && b[i + 14] == 0x73
}

/// Skips the run of ASCII zeros starting at `k`.
fn skip_zeros(b: &Vec<u8>, k: usize) -> (z: usize)
    requires
        k <= b@.len(),
    ensures
        z as int == zeros_end(b@, k as int),
        k <= z <= b@.len(),
{
    let n = b.len();
    let mut z = k;
    while z < n && b[z] == 0x30
        invariant
            k <= z <= n,
            n == b@.len(),
            forall|j: int| k <= j < z ==> b@[j] == 0x30,
        decreases n - z,
    {
        z = z + 1;
    }
    proof {
        lemma_zeros_end_unique(b@, k as int, z as int);
    }
    z
}

/// Decides `dec_ascii_ref_from`.
fn dec_ref_at(b: &Vec<u8>, k: usize) -> (r: bool)
    requires
        k <= b@.len(),
    ensures
        r == dec_ascii_ref_from(b@, k as int),
{
    let n = b.len();
    let z = skip_zeros(b, k);
    if z > k && z < n && b[z] == 0x3B {
        return true;
    }
    if z < n && 0x30 <= b[z] && b[z] <= 0x39 {
        if z + 1 < n && b[z + 1] == 0x3B {
            return true;
        }
        if z + 1 < n && 0x30 <= b[z + 1] && b[z + 1] <= 0x39 {
            if z + 2 < n && b[z + 2] == 0x3B {
                return true;
            }
            if b[z] == 0x31 && z + 2 < n && 0x30 <= b[z + 2] && b[z + 2] <= 0x39 && z + 3 < n && b[z
                + 3] == 0x3B && (b[z + 1] < 0x32 || (b[z + 1] == 0x32 && b[z + 2] <= 0x37)) {
                return true;
            }
        }
    }
    false
}

/// Decides `hex_ascii_ref_from`.
fn hex_ref_at(b: &Vec<u8>, k: usize) -> (r: bool)
    requires
        k <= b@.len(),
    ensures
        r == hex_ascii_ref_from(b@, k as int),
{
    let n = b.len();
    let z = skip_zeros(b, k);
    if z > k && z < n && b[z] == 0x3B {
        return true;
    }
    if z < n && is_hex(b[z]) {
        if z + 1 < n && b[z + 1] == 0x3B {
            return true;
        }
        if 0x31 <= b[z] && b[z] <= 0x37 && z + 1 < n && is_hex(b[z + 1]) && z + 2 < n && b[z + 2]
            == 0x3B {
            return true;
        }
    }
    false
}

/// Decides `is_hex_digit`.
fn is_hex(x: u8) -> (r: bool)
    ensures
        r == is_hex_digit(x),
{
    (0x30 <= x && x <= 0x39) || (0x41 <= x && x <= 0x46) || (0x61 <= x && x <= 0x66)
}

/// Decides `ascii_char_ref_at`.
fn ascii_ref_at(b: &Vec<u8>, i: usize) -> (r: bool)
    requires
        i < b@.len(),
    ensures
        r == ascii_char_ref_at(b@, i as int),
{
    if !(b.len() - i >= 2 && b[i] == 0x26 && b[i + 1] == 0x23) {
        return false;
    }
    if b.len() - i >= 3 && (b[i + 2] == 0x78 || b[i + 2] == 0x58) {
        hex_ref_at(b, i + 3)
    } else {
        dec_ref_at(b, i + 2)
    }
}

/// Decides whether a document body is admissible for the feed parser: no
/// MediaRSS or iTunes namespace URI, no NUL byte, and no character
/// reference that resolves to an ASCII character.
pub fn npt_safe_bytes(b: &Vec<u8>) -> (r: bool)
    ensures
        r == npt_safe(b@),
{
    let n = b.len();
    let mut i: usize = 0;
    while i < n
        invariant
            i <= n,
            n == b@.len(),
            forall|j: int| 0 <= j < i ==> #[trigger] npt_cond(b@, j),
        decreases n - i,
    {
        let ok = b[i] != 0x00 && !mrss_at(b, i) && !itunes_at(b, i) && !ascii_ref_at(b, i);
        if !ok {
            proof {
                assert(!npt_cond(b@, i as int));
            }
            return false;
        }
        proof {
            assert(npt_cond(b@, i as int));
        }
        i = i + 1;
    }
    true
}

/// Relies on feed_rs::parser::parse: parses an RSS/Atom-family document into
/// its entries; each entry's title, first author, timestamp, summary and
/// first link depend on the document bytes alone. The `requires` keeps the
/// call away from the parser's normal-play-time reader, whose unwrapped
/// `u64` parses and unchecked hour multiplication can panic: that reader
/// runs only for MediaRSS or iTunes elements, and an admissible document can
/// bind neither namespace.
#[verifier::external_body]
fn parse_feed_document(name: &str, body: &Vec<u8>) -> (r: Result<Feed, String>)
    requires
        npt_safe(body@),
    ensures
        r is Ok <==> parsed_articles_of(body@) is Some,
        r matches Ok(f) ==> f.name@ == name@ && f.articles@.map_values(
            |a: Article| article_fields(a),
        ) == parsed_articles_of(body@).unwrap(),
{
    match feed_rs::parser::parse(body.as_slice()) {
        Ok(parsed) => {
            let articles = parsed.entries.into_iter().map(|e| Article {
                title: e.title.map(|t| t.content),
                authors: e.authors.into_iter().next().and_then(|p| p.name),
                date: e.published.or(e.updated).map(|d| d.timestamp()),
                summary: e.summary.map(|t| t.content).unwrap_or_default(),
                url: e.links.into_iter().next().map(|l| l.href).unwrap_or_default(),
            }).collect();
            Ok(Feed { name: name.to_owned(), articles })
        },
        Err(e) => Err(e.to_string()),
    }
}

impl Model {
    /// Records the outcome of a whole retrieval for a configured source: an
    /// admissible retrieved body is parsed into a feed and stored as a
    /// success, and a transport failure, a parse failure or an inadmissible
    /// body is stored as an error and queues its error report, exactly as
    /// `fetch_completed` does.
    pub fn retrieval_completed(&mut self, name: &str, retrieval: Result<Vec<u8>, String>)
        requires
            old(self).inv(),
            old(self).kiosk.contains_name(name@),
        ensures
            final(self).inv(),
            final(self).redraw,
            final(self).kiosk.names() == old(self).kiosk.names(),
            final(self).kiosk.as_map().dom() == old(self).kiosk.as_map().dom(),
            forall|k: Seq<char>| k != name@ && old(self).kiosk.as_map().contains_key(k) ==> final(self).kiosk.as_map()[k] == old(self).kiosk.as_map()[k],
            (match retrieval {
                Ok(body) => (if npt_safe(body@) {
                    match parsed_articles_of(body@) {
                        Some(arts) => final(self).kiosk.as_map()[name@]
                            matches FeedState::Success(f) && f.name@ == name@
                            && f.articles@.map_values(|a: Article| article_fields(a)) == arts,
                        None => final(self).kiosk.as_map()[name@] is Error,
                    }
                } else {
                    final(self).kiosk.as_map()[name@] is Error
                }),
                Err(_) => final(self).kiosk.as_map()[name@] is Error,
            }),
            final(self).modal == old(self).modal,
            final(self).quit == old(self).quit,
            (final(self).kiosk.as_map()[name@] matches FeedState::Error(cause) ==> final(self).tasks@.len() == old(self).tasks@.len() + 1 && final(self).tasks@.take(
                old(self).tasks@.len() as int,
            ) == old(self).tasks@ && (final(self).tasks@.last() matches Task::ShowError(m) && m@
                == error_report_of(name@, cause@))),
            (final(self).kiosk.as_map()[name@] is Success ==> final(self).tasks == old(self).tasks),
            ({
                let mid = spec_clamped_article(
                    *old(self),
                    name@,
                    final(self).kiosk.as_map()[name@],
                );
                match mid {
                    Some(j) => final(self).selected_source == old(self).selected_source && final(self).selected_article == Some(j),
                    None => (match first_with_data_from(final(self).kiosk, 0) {
                        Some(i2) => final(self).selected_source == Some(i2 as usize) && final(self).selected_article == Some(0usize),
                        None => final(self).selected_source == old(self).selected_source && final(self).selected_article is None,
                    }),
                }
            }),
    {
        let ghost pre = *old(self);
        match retrieval {
            Ok(body) => {
                if npt_safe_bytes(&body) {
                    match parse_feed_document(name, &body) {
                        Ok(feed) => self.fetch_completed(name, Ok(feed)),
                        Err(e) => self.fetch_completed(name, Err(e)),
                    }
                } else {
                    self.fetch_completed(
                        name,
                        Err(String::from_str("document outside the supported feed subset")),
                    );
                }
            },
            Err(e) => self.fetch_completed(name, Err(e)),
        }
        proof {
            assert(self.kiosk.as_map().dom() =~= pre.kiosk.as_map().dom());
        }
    }
}

} // verus!
