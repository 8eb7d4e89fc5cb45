//! The `Link` header of a paginated reply.
//!
//! The header is a comma-separated list of entries, each a target in angle
//! brackets, a semicolon and a relation such as `rel="next"`. Only the target
//! of the `next` relation is of interest.

use vstd::prelude::*;
use vstd::string::StringExecFns;
use reqwest::header::{HeaderMap, HeaderValue};
use crate::text::{pieces, split, split_ranges, to_chars, trim, trim_range};

verus! {

/// Declares `HeaderMap`, the headers of a reply, as a type whose inside is
/// not looked at. What it holds is spoken of through `header_values`.
#[verifier::external_type_specification]
#[verifier::external_body]
#[verifier::reject_recursive_types(T)]
pub struct ExHeaderMap<T>(reqwest::header::HeaderMap<T>);

/// Declares `HeaderValue`, the value of one header, as a type whose inside
/// is not looked at. What it holds is spoken of through `value_bytes`.
#[verifier::external_type_specification]
#[verifier::external_body]
pub struct ExHeaderValue(reqwest::header::HeaderValue);

/// Where the listing goes on, if it does.
#[derive(Debug, Clone, PartialEq, Eq)]
pub struct PaginationData {
    /// The address of the next page, as the URL parser wrote it out.
    pub next: Option<String>,
}

/// Why a `Link` header was rejected.
#[derive(Debug, Clone, PartialEq, Eq)]
pub enum PaginationError {
    /// A second entry with the relation `next`.
    NextLinkFoundTwice,
    /// An entry whose relation is none of `next`, `prev`, `first`, `last`.
    /// It holds the relation part as it stood in the header, trimmed.
    UnknownRel(String),
    /// The header holds a byte that is neither visible ASCII nor a tab.
    HeaderNotText,
}

/// A rejection with its text taken as a sequence of characters.
pub enum PaginationFault {
    NextLinkFoundTwice,
    UnknownRel(Seq<char>),
    HeaderNotText,
}

/// What a header map holds: under each header name, in lower case, the bytes
/// of the values given for it, in the order in which they were added.
pub uninterp spec fn header_values(headers: HeaderMap) -> Map<Seq<char>, Seq<Seq<u8>>>;

/// The bytes that a header value holds.
pub uninterp spec fn value_bytes(value: HeaderValue) -> Seq<u8>;

/// The outcome of `Url::parse` on a text: the URL written out again, or
/// nothing where the parser rejects the text.
pub uninterp spec fn parsed_url(input: Seq<char>) -> Option<Seq<char>>;

/// The text that an optional string holds.
pub open spec fn text_of(value: Option<String>) -> Option<Seq<char>> {
    match value {
        Some(s) => Some(s@),
        None => None,
    }
}

/// The text that an optional string slice holds.
pub open spec fn slice_text_of(value: Option<&str>) -> Option<Seq<char>> {
    match value {
        Some(s) => Some(s@),
        None => None,
    }
}

impl View for PaginationError {
    type V = PaginationFault;

    open spec fn view(&self) -> PaginationFault {
        match self {
            PaginationError::NextLinkFoundTwice => PaginationFault::NextLinkFoundTwice,
            PaginationError::UnknownRel(rel) => PaginationFault::UnknownRel(rel@),
            PaginationError::HeaderNotText => PaginationFault::HeaderNotText,
        }
    }
}

/// The first value held under a header name, if there is one.
pub open spec fn first_value(values: Map<Seq<char>, Seq<Seq<u8>>>, name: Seq<char>) -> Option<
    Seq<u8>,
> {
    if values.contains_key(name) && values[name].len() > 0 {
        Some(values[name].first())
    } else {
        None
    }
}

/// Whether a byte is visible ASCII or a tab.
pub open spec fn is_visible_ascii(b: u8) -> bool {
    32 <= b < 127 || b == 9
}

/// The bytes read as text, one character for each byte, where every byte is
/// visible ASCII or a tab; nothing otherwise.
pub open spec fn visible_text(bytes: Seq<u8>) -> Option<Seq<char>> {
    if forall|i: int| 0 <= i < bytes.len() ==> is_visible_ascii(#[trigger] bytes[i]) {
        Some(Seq::new(bytes.len(), |i: int| bytes[i] as char))
    } else {
        None
    }
}

/// A parse outcome with its texts taken as sequences of characters.
pub open spec fn outcome_view(outcome: Result<Option<String>, PaginationError>) -> Result<
    Option<Seq<char>>,
    PaginationFault,
> {
    match outcome {
        Ok(next) => Ok(text_of(next)),
        Err(e) => Err(e@),
    }
}

/// A reading of the header with its texts taken as sequences of characters.
pub open spec fn data_view(outcome: Result<PaginationData, PaginationError>) -> Result<
    Option<Seq<char>>,
    PaginationFault,
> {
    match outcome {
        Ok(data) => Ok(text_of(data.next)),
        Err(e) => Err(e@),
    }
}

/// The text between the angle brackets and the relation part of one entry,
/// where the entry has exactly two segments and the first one, trimmed, is
/// enclosed in angle brackets.
pub open spec fn link_parts(link: Seq<char>) -> Option<(Seq<char>, Seq<char>)> {
    let segments = split(link, ';');
    if segments.len() != 2 {
        None
    } else {
        let target = trim(segments[0]);
        let rel = trim(segments[1]);
        if target.len() > 0 && target.first() == '<' && target.last() == '>' {
            Some((target.subrange(1, target.len() - 1), rel))
        } else {
            None
        }
    }
}

/// The relation parts that are accepted and passed over.
pub open spec fn is_passive_rel(rel: Seq<char>) -> bool {
    rel == "rel=\"prev\""@ || rel == "rel=\"first\""@ || rel == "rel=\"last\""@
}

/// What one well-formed entry does to the next-page address found so far.
/// `url` is what the URL parser made of the entry's target.
pub open spec fn follow_spec(next: Option<Seq<char>>, rel: Seq<char>, url: Option<Seq<char>>) -> Result<
    Option<Seq<char>>,
    PaginationFault,
> {
    match url {
        None => Ok(next),
        Some(u) => if rel == "rel=\"next\""@ {
            if next is Some {
                Err(PaginationFault::NextLinkFoundTwice)
            } else {
                Ok(Some(u))
            }
        } else if is_passive_rel(rel) {
            Ok(next)
        } else {
            Err(PaginationFault::UnknownRel(rel))
        },
    }
}

/// The next-page address after the entries have been read in order, or the
/// first rejection.
pub open spec fn links_spec(links: Seq<Seq<char>>) -> Result<Option<Seq<char>>, PaginationFault>
    decreases links.len(),
{
    if links.len() == 0 {
        Ok(None)
    } else {
        match links_spec(links.drop_last()) {
            Err(e) => Err(e),
            Ok(next) => match link_parts(links.last()) {
                None => Ok(next),
                Some((target, rel)) => follow_spec(next, rel, parsed_url(target)),
            },
        }
    }
}

/// The address that an entry gives for the next page: the entry is well
/// formed, its relation is `next`, and its target is a URL.
pub open spec fn next_target(link: Seq<char>) -> Option<Seq<char>> {
    match link_parts(link) {
        Some((target, rel)) => if rel == "rel=\"next\""@ {
            parsed_url(target)
        } else {
            None
        },
        None => None,
    }
}

/// Whether an entry is passed over: it is not well formed, its target is no
/// URL, or its relation is one of `prev`, `first` and `last`.
pub open spec fn is_passed_over(link: Seq<char>) -> bool {
    match link_parts(link) {
        Some((target, rel)) => parsed_url(target) is None || is_passive_rel(rel),
        None => true,
    }
}

/// What the text of a `Link` header says of the next page.
pub open spec fn link_header_spec(header: Seq<char>) -> Result<Option<Seq<char>>, PaginationFault> {
    links_spec(split(header, ','))
}

/// What the headers of a reply say of the next page: nothing where there is
/// no `Link` header, and otherwise what the first one says, which must be
/// text.
pub open spec fn pagination_spec(values: Map<Seq<char>, Seq<Seq<u8>>>) -> Result<
    Option<Seq<char>>,
    PaginationFault,
> {
    match first_value(values, "link"@) {
        None => Ok(None),
        Some(bytes) => match visible_text(bytes) {
            None => Err(PaginationFault::HeaderNotText),
            Some(header) => link_header_spec(header),
        },
    }
}

/// Calls `HeaderMap::get` with the name `link`. The result is the first of
/// the values that the map holds under that name, or `None` where it holds
/// none.
#[verifier::external_body]
fn link_header<'a>(headers: &'a HeaderMap) -> (value: Option<&'a HeaderValue>)
    ensures
        match value {
            Some(v) => first_value(header_values(*headers), "link"@) == Some(value_bytes(*v)),
            None => first_value(header_values(*headers), "link"@) is None,
        },
{
    headers.get("link")
}

/// Calls `HeaderValue::to_str`. The result is the value as text, one
/// character for each byte, where every byte is visible ASCII or a tab, and
/// `None` otherwise.
#[verifier::external_body]
fn header_text<'a>(value: &'a HeaderValue) -> (text: Option<&'a str>)
    ensures
        slice_text_of(text) == visible_text(value_bytes(*value)),
{
    match value.to_str() {
        Ok(text) => Some(text),
        Err(_) => None,
    }
}

/// Calls `Url::parse` on `input`. The result is `parsed_url` of the text: the
/// parsed URL's own serialization where parsing succeeds, `None` where it
/// fails. Nothing else is claimed of what the parser accepts or writes.
#[verifier::external_body]
fn parse_url(input: &str) -> (url: Option<String>)
    ensures
        text_of(url) == parsed_url(input@),
{
    match reqwest::Url::parse(input) {
        Ok(url) => Some(String::from(url)),
        Err(_) => None,
    }
}

/// Takes in one well-formed entry: `rel` is its relation part and `url` what
/// the URL parser made of its target.
///
/// An entry whose target is no URL changes nothing, whatever its relation.
/// Otherwise `next` sets the address and is rejected where one is set
/// already; `prev`, `first` and `last` change nothing; any other relation is
/// rejected.
pub fn follow_link(next: Option<String>, rel: &str, url: Option<String>) -> (outcome: Result<
    Option<String>,
    PaginationError,
>)
    ensures
        outcome_view(outcome) == follow_spec(text_of(next), rel@, text_of(url)),
{
    let url = match url {
        Some(u) => u,
        None => {
            return Ok(next);
        },
    };
    let rel = String::from_str(rel);
    if rel == String::from_str("rel=\"next\"") {
        if next.is_some() {
            Err(PaginationError::NextLinkFoundTwice)
        } else {
            Ok(Some(url))
        }
    } else if rel == String::from_str("rel=\"prev\"") || rel == String::from_str("rel=\"first\"")
        || rel == String::from_str("rel=\"last\"") {
        Ok(next)
    } else {
        Err(PaginationError::UnknownRel(rel))
    }
}

/// Reads the headers of a reply for the address of the next page.
///
/// Without a `Link` header there is no next page. The first `Link` header is
/// read as by `parse_link_header`, and rejected where it is no text.
pub fn get_pagination_data(headers: &HeaderMap) -> (outcome: Result<
    PaginationData,
    PaginationError,
>)
    ensures
        data_view(outcome) == pagination_spec(header_values(*headers)),
{
    match link_header(headers) {
        None => Ok(PaginationData { next: None }),
        Some(value) => match header_text(value) {
            None => Err(PaginationError::HeaderNotText),
            Some(text) => parse_link_header(text),
        },
    }
}

/// Reads the text of a `Link` header.
///
/// Entries that do not have two segments, whose target is not enclosed in
/// angle brackets or is no URL are passed over. The header is rejected at the
/// first entry that names a second `next` target or an unknown relation.
pub fn parse_link_header(header: &str) -> (outcome: Result<PaginationData, PaginationError>)
    ensures
        data_view(outcome) == link_header_spec(header@),
{
    let chars = to_chars(header);
    let links = split_ranges(&chars, 0, chars.len(), ',');
    let mut next: Option<String> = None;
    let mut i: usize = 0;
    proof {
        assert(chars@.subrange(0, chars.len() as int) =~= chars@);
        assert(pieces(chars@, links@).take(0) =~= Seq::empty());
    }
    while i < links.len()
        invariant
            i <= links.len(),
            chars@ == header@,
            forall|k: int| 0 <= k < links.len() ==> (#[trigger] links[k]).0 <= links[k].1 <= chars.len(),
            pieces(chars@, links@) == split(header@, ','),
            links_spec(pieces(chars@, links@).take(i as int)) == Ok::<
                Option<Seq<char>>,
                PaginationFault,
            >(text_of(next)),
        decreases links.len() - i,
    {
        let (from, to) = links[i];
        let ghost link = chars@.subrange(from as int, to as int);
        let ghost read = pieces(chars@, links@).take(i + 1);
        proof {
            assert(read.drop_last() =~= pieces(chars@, links@).take(i as int));
            assert(read.last() == link);
        }
        let segments = split_ranges(&chars, from, to, ';');
        if segments.len() == 2 {
            let (a, b) = trim_range(&chars, segments[0].0, segments[0].1);
            let (c, d) = trim_range(&chars, segments[1].0, segments[1].1);
            proof {
                assert(pieces(chars@, segments@)[0] == chars@.subrange(
                    segments[0].0 as int,
                    segments[0].1 as int,
                ));
                assert(pieces(chars@, segments@)[1] == chars@.subrange(
                    segments[1].0 as int,
                    segments[1].1 as int,
                ));
            }
            if a < b && chars[a] == '<' && chars[b - 1] == '>' {
                let ghost target = chars@.subrange(a as int, b as int);
                proof {
                    assert(target.first() == '<' && target.last() == '>');
                    assert(target.subrange(1, target.len() - 1) =~= header@.subrange(a + 1, b - 1));
                }
                let url = parse_url(header.substring_char(a + 1, b - 1));
                let rel = header.substring_char(c, d);
                match follow_link(next, rel, url) {
                    Ok(found) => {
                        next = found;
                    },
                    Err(e) => {
                        proof {
                            lemma_rejection_stays(pieces(chars@, links@), i + 1);
                        }
                        return Err(e);
                    },
                }
            } else {
                proof {
                    let target = chars@.subrange(a as int, b as int);
                    if a < b {
                        assert(target.first() == chars@[a as int]);
                        assert(target.last() == chars@[b - 1]);
                    }
                }
            }
        }
        i += 1;
    }
    proof {
        assert(pieces(chars@, links@).take(links.len() as int) =~= pieces(chars@, links@));
    }
    Ok(PaginationData { next })
}

/// Once a prefix of the entries has been rejected, the whole list is, with
/// the same fault.
proof fn lemma_rejection_stays(links: Seq<Seq<char>>, n: int)
    requires
        0 <= n <= links.len(),
        links_spec(links.take(n)) is Err,
    ensures
        links_spec(links) == links_spec(links.take(n)),
    decreases links.len() - n,
{
    if n < links.len() {
        assert(links.take(n + 1).drop_last() =~= links.take(n));
        lemma_rejection_stays(links, n + 1);
    } else {
        assert(links.take(n) =~= links);
    }
}

/// Once an entry has given an address for the next page, the entries up to
/// any later point are rejected or leave an address standing.
proof fn lemma_next_stands_or_rejected(links: Seq<Seq<char>>, i: int)
    requires
        0 <= i < links.len(),
        next_target(links[i]) is Some,
    ensures
        links_spec(links) is Err || (links_spec(links) matches Ok(next) && next is Some),
    decreases links.len(),
{
    if i < links.len() - 1 {
        assert(links.drop_last()[i] == links[i]);
        lemma_next_stands_or_rejected(links.drop_last(), i);
    }
}

/// Entries that are all passed over give no address and no rejection.
proof fn lemma_passed_over_gives_nothing(links: Seq<Seq<char>>)
    requires
        forall|k: int| 0 <= k < links.len() ==> is_passed_over(#[trigger] links[k]),
    ensures
        links_spec(links) == Ok::<Option<Seq<char>>, PaginationFault>(None),
    decreases links.len(),
{
    if links.len() > 0 {
        assert forall|k: int| 0 <= k < links.drop_last().len() implies is_passed_over(
            #[trigger] links.drop_last()[k],
        ) by {
            assert(links.drop_last()[k] == links[k]);
        }
        lemma_passed_over_gives_nothing(links.drop_last());
        assert(is_passed_over(links[links.len() - 1]));
        lemma_next_is_not_passive();
    }
}

/// The relation `next` is none of those that are passed over.
proof fn lemma_next_is_not_passive()
    ensures
        !is_passive_rel("rel=\"next\""@),
{
    reveal_strlit("rel=\"next\"");
    reveal_strlit("rel=\"prev\"");
    reveal_strlit("rel=\"first\"");
    reveal_strlit("rel=\"last\"");
    assert("rel=\"next\""@[5] == 'n');
    assert("rel=\"prev\""@[5] == 'p');
    assert("rel=\"last\""@[5] == 'l');
    assert("rel=\"first\""@.len() == 11);
}

/// A header in which two entries give an address for the next page is
/// rejected.
pub proof fn lemma_two_next_links_are_rejected(links: Seq<Seq<char>>, i: int, j: int)
    requires
        0 <= i < j < links.len(),
        next_target(links[i]) is Some,
        next_target(links[j]) is Some,
    ensures
        links_spec(links) is Err,
    decreases links.len(),
{
    assert(links.drop_last()[i] == links[i]);
    if j < links.len() - 1 {
        assert(links.drop_last()[j] == links[j]);
        lemma_two_next_links_are_rejected(links.drop_last(), i, j);
    } else {
        lemma_next_stands_or_rejected(links.drop_last(), i);
    }
}

/// A header in which one entry gives an address for the next page, and every
/// other entry is passed over, yields that address.
pub proof fn lemma_single_next_link_is_found(links: Seq<Seq<char>>, i: int)
    requires
        0 <= i < links.len(),
        next_target(links[i]) is Some,
        forall|k: int| 0 <= k < links.len() && k != i ==> is_passed_over(#[trigger] links[k]),
    ensures
        links_spec(links) == Ok::<Option<Seq<char>>, PaginationFault>(next_target(links[i])),
    decreases links.len(),
{
    let before = links.drop_last();
    lemma_next_is_not_passive();
    if i < links.len() - 1 {
        assert(before[i] == links[i]);
        assert forall|k: int| 0 <= k < before.len() && k != i implies is_passed_over(
            #[trigger] before[k],
        ) by {
            assert(before[k] == links[k]);
        }
        lemma_single_next_link_is_found(before, i);
        assert(is_passed_over(links[links.len() - 1]));
    } else {
        assert forall|k: int| 0 <= k < before.len() implies is_passed_over(
            #[trigger] before[k],
        ) by {
            assert(before[k] == links[k]);
        }
        lemma_passed_over_gives_nothing(before);
    }
}

impl PaginationError {
    /// The rejection in words.
    pub fn message(&self) -> (text: String)
        ensures
            text@ == match self {
                PaginationError::NextLinkFoundTwice => "next link found twice"@,
                PaginationError::UnknownRel(rel) => "unknown rel: "@ + rel@,
                PaginationError::HeaderNotText => "failed to convert header to a str"@,
            },
    {
        match self {
            PaginationError::NextLinkFoundTwice => String::from_str("next link found twice"),
            PaginationError::UnknownRel(rel) => String::from_str("unknown rel: ").concat(
                rel.as_str(),
            ),
            PaginationError::HeaderNotText => String::from_str("failed to convert header to a str"),
        }
    }
}

} // verus!
