//! The encyclopedia's query interface: the two request URLs, and reading the
//! search results and page extracts out of its JSON responses.
use vstd::prelude::*;
use vstd::string::StringExecFns;
use vstd::string::StringSliceAdditionalSpecFns;
use vstd::utf8::encode_utf8;
use crate::json::JsonValue;
use crate::json::field;
use crate::json::find_member;
use crate::json::get_field;
use crate::json::member;
use crate::json::json_of;
use crate::json::lemma_member_is_listed;
use crate::json::parse_json;
use crate::text::decimal;
use crate::text::decimal_text;
use crate::text::encoded_byte;
use crate::text::hex_digit;
use crate::text::is_unreserved;
use crate::text::form_decoded;
use crate::text::form_encoded;
use crate::text::lemma_form_round_trip;
use crate::text::parse_u32;
use crate::text::push_form_encoded;
use crate::text::unsigned_of;

verus! {

/// What goes wrong when reading a response.
#[derive(Debug, Clone, Copy, PartialEq, Eq, Structural)]
pub enum WikiError {
    /// The body is not JSON, or not of the expected shape.
    Malformed,
    /// The extract response holds no page under the requested identifier.
    PageNotFound,
}

/// One search result.
#[derive(Debug, Clone, PartialEq, Eq)]
pub struct WikiPage {
    /// The page's numeric identifier, in decimal.
    pub page_id: String,
    pub title: String,
}

pub struct WikiPageView {
    pub page_id: Seq<char>,
    pub title: Seq<char>,
}

impl View for WikiPage {
    type V = WikiPageView;

    open spec fn view(&self) -> WikiPageView {
        WikiPageView { page_id: self.page_id@, title: self.title@ }
    }
}

/// The views of a list of pages.
pub open spec fn pages_view(ps: Seq<WikiPage>) -> Seq<WikiPageView> {
    ps.map_values(|p: WikiPage| p@)
}

/// The text before the encoded keyword in a search URL.
pub open spec fn search_prefix() -> Seq<char> {
    "https://en.wikipedia.org/w/api.php?action=query&list=search&srsearch="@
}

/// The text after the encoded keyword in a search URL.
pub open spec fn search_suffix() -> Seq<char> {
    "&format=json"@
}

/// The search URL for a keyword given as UTF-8 bytes.
pub open spec fn search_url_of(keyword: Seq<u8>) -> Seq<char> {
    search_prefix() + form_encoded(keyword) + search_suffix()
}

/// The text before the encoded identifier in an extract URL.
pub open spec fn extract_prefix() -> Seq<char> {
    "https://en.wikipedia.org/w/api.php?action=query&pageids="@
}

/// The text after the encoded identifier in an extract URL.
pub open spec fn extract_suffix() -> Seq<char> {
    "&prop=extracts&explaintext=true&format=json"@
}

/// The URL that fetches the plain-text extract of a page, by identifier.
pub open spec fn extract_url_of(page_id: Seq<u8>) -> Seq<char> {
    extract_prefix() + form_encoded(page_id) + extract_suffix()
}

/// The URL of a search for `keyword`: a query action listing search results,
/// with the keyword form-encoded, answered in JSON.
pub fn search_url(keyword: &str) -> (r: String)
    ensures
        r@ == search_url_of(keyword.spec_bytes()),
{
    let mut s = "https://en.wikipedia.org/w/api.php?action=query&list=search&srsearch=".to_owned();
    push_form_encoded(&mut s, keyword);
    s.append("&format=json");
    s
}

/// The URL that fetches the plain-text extract of the page `page_id`.
pub fn extract_url(page_id: &str) -> (r: String)
    ensures
        r@ == extract_url_of(page_id.spec_bytes()),
{
    let mut s = "https://en.wikipedia.org/w/api.php?action=query&pageids=".to_owned();
    push_form_encoded(&mut s, page_id);
    s.append("&prop=extracts&explaintext=true&format=json");
    s
}

/// A JSON number that is a whole number fitting in 32 bits.
pub open spec fn u32_of(v: JsonValue) -> Option<u32> {
    match v {
        JsonValue::Number(t) => unsigned_of(encode_utf8(t@)),
        _ => None,
    }
}

/// The text of a JSON string.
pub open spec fn text_of(v: Option<JsonValue>) -> Option<Seq<char>> {
    match v {
        Some(JsonValue::Text(t)) => Some(t@),
        _ => None,
    }
}

/// One search entry: an object with a string `title` and a 32-bit `pageid`;
/// the identifier is kept in decimal.
pub open spec fn search_entry(v: JsonValue) -> Option<WikiPageView> {
    match (text_of(field(v, "title"@)), field(v, "pageid"@)) {
        (Some(t), Some(n)) => match u32_of(n) {
            Some(id) => Some(WikiPageView { page_id: decimal(id as nat), title: t }),
            None => None,
        },
        _ => None,
    }
}

/// The search entries of a list, in order; `None` if any is malformed.
pub open spec fn search_entries(items: Seq<JsonValue>) -> Option<Seq<WikiPageView>>
    decreases items.len(),
{
    if items.len() == 0 {
        Some(Seq::empty())
    } else {
        match (search_entries(items.drop_last()), search_entry(items.last())) {
            (Some(ps), Some(p)) => Some(ps.push(p)),
            _ => None,
        }
    }
}

/// The list of entries of a search response `{query: {search: [...]}}`.
pub open spec fn search_list(doc: JsonValue) -> Option<Seq<JsonValue>> {
    match field(doc, "query"@) {
        Some(q) => match field(q, "search"@) {
            Some(JsonValue::Array(items)) => Some(items@),
            _ => None,
        },
        None => None,
    }
}

/// The results of a search response.
pub open spec fn search_results_of(doc: JsonValue) -> Option<Seq<WikiPageView>> {
    match search_list(doc) {
        Some(items) => search_entries(items),
        None => None,
    }
}

/// What a search response body yields.
pub open spec fn search_outcome(body: Seq<char>) -> Result<Seq<WikiPageView>, WikiError> {
    match json_of(body) {
        Some(doc) => match search_results_of(doc) {
            Some(ps) => Ok(ps),
            None => Err(WikiError::Malformed),
        },
        None => Err(WikiError::Malformed),
    }
}

/// Once a prefix of the list holds a malformed entry, so does every longer one.
proof fn lemma_entries_malformed_prefix(items: Seq<JsonValue>, k: int, j: int)
    requires
        0 <= k <= j <= items.len(),
        search_entries(items.take(k)) is None,
    ensures
        search_entries(items.take(j)) is None,
    decreases j - k,
{
    if j > k {
        lemma_entries_malformed_prefix(items, k, j - 1);
        assert(items.take(j).drop_last() =~= items.take(j - 1));
    }
}

fn search_entry_of(v: &JsonValue) -> (r: Option<WikiPage>)
    ensures
        match r {
            Some(p) => search_entry(*v) == Some(p@),
            None => search_entry(*v) is None,
        },
{
    let title = match get_field(v, &"title".to_owned()) {
        Some(JsonValue::Text(t)) => t.clone(),
        _ => return None,
    };
    let n = match get_field(v, &"pageid".to_owned()) {
        Some(n) => n,
        None => return None,
    };
    let id = match n {
        JsonValue::Number(t) => match parse_u32(t.as_str()) {
            Some(id) => id,
            None => return None,
        },
        _ => return None,
    };
    Some(WikiPage { page_id: decimal_text(id), title })
}

/// Reads the results out of a parsed search response, in the order given.
pub fn pages_from_search_json(doc: &JsonValue) -> (r: Option<Vec<WikiPage>>)
    ensures
        match r {
            Some(ps) => search_results_of(*doc) == Some(pages_view(ps@)),
            None => search_results_of(*doc) is None,
        },
{
    let q = match get_field(doc, &"query".to_owned()) {
        Some(q) => q,
        None => return None,
    };
    let items = match get_field(q, &"search".to_owned()) {
        Some(JsonValue::Array(items)) => items,
        _ => return None,
    };
    let n = items.len();
    let mut out: Vec<WikiPage> = Vec::new();
    let mut i: usize = 0;
    while i < n
        invariant
            n == items@.len(),
            i <= n,
            search_entries(items@.take(i as int)) == Some(pages_view(out@)),
            search_results_of(*doc) == search_entries(items@),
        decreases n - i,
    {
        proof {
            assert(items@.take(i as int + 1).drop_last() =~= items@.take(i as int));
            assert(items@.take(i as int + 1).last() == items@[i as int]);
        }
        let ghost before = out@;
        match search_entry_of(&items[i]) {
            Some(p) => {
                let ghost pv = p@;
                out.push(p);
                proof {
                    assert(pages_view(out@) =~= pages_view(before).push(pv));
                }
            },
            None => {
                proof {
                    let t = items@.take(i as int + 1);
                    assert(search_entry(t.last()) is None);
                    assert(search_entries(t) is None);
                    lemma_entries_malformed_prefix(items@, i as int + 1, n as int);
                    assert(items@.take(n as int) =~= items@);
                }
                return None;
            },
        }
        i = i + 1;
    }
    proof {
        assert(items@.take(n as int) =~= items@);
    }
    Some(out)
}

/// The plain-text extract of a page object.
pub open spec fn extract_text(page: JsonValue) -> Option<Seq<char>> {
    text_of(field(page, "extract"@))
}

/// Whether every page of a page map carries a string extract.
pub open spec fn all_extracts(pages: Seq<(String, JsonValue)>) -> bool {
    forall|i: int| 0 <= i < pages.len() ==> (#[trigger] extract_text(pages[i].1)) is Some
}

/// The extract of page `page_id` in an extract response
/// `{query: {pages: {<id>: {extract}, ...}}}`, where every listed page must
/// carry an extract.
pub open spec fn extract_in(doc: JsonValue, page_id: Seq<char>) -> Result<Seq<char>, WikiError> {
    match field(doc, "query"@) {
        Some(q) => match field(q, "pages"@) {
            Some(JsonValue::Object(ms)) => if all_extracts(ms@) {
                match member(ms@, page_id) {
                    Some(p) => Ok(extract_text(p)->0),
                    None => Err(WikiError::PageNotFound),
                }
            } else {
                Err(WikiError::Malformed)
            },
            _ => Err(WikiError::Malformed),
        },
        None => Err(WikiError::Malformed),
    }
}

/// What an extract response body yields for page `page_id`.
pub open spec fn extract_outcome(body: Seq<char>, page_id: Seq<char>) -> Result<
    Seq<char>,
    WikiError,
> {
    match json_of(body) {
        Some(doc) => extract_in(doc, page_id),
        None => Err(WikiError::Malformed),
    }
}

fn extract_of(page: &JsonValue) -> (r: Option<String>)
    ensures
        match r {
            Some(t) => extract_text(*page) == Some(t@),
            None => extract_text(*page) is None,
        },
{
    match get_field(page, &"extract".to_owned()) {
        Some(JsonValue::Text(t)) => Some(t.clone()),
        _ => None,
    }
}

/// Reads the extract of page `page_id` out of a parsed extract response.
pub fn extract_from_json(doc: &JsonValue, page_id: &String) -> (r: Result<String, WikiError>)
    ensures
        match r {
            Ok(t) => extract_in(*doc, page_id@) == Ok::<Seq<char>, WikiError>(t@),
            Err(e) => extract_in(*doc, page_id@) == Err::<Seq<char>, WikiError>(e),
        },
{
    let q = match get_field(doc, &"query".to_owned()) {
        Some(q) => q,
        None => return Err(WikiError::Malformed),
    };
    let ms = match get_field(q, &"pages".to_owned()) {
        Some(JsonValue::Object(ms)) => ms,
        _ => return Err(WikiError::Malformed),
    };
    let n = ms.len();
    let mut i: usize = 0;
    while i < n
        invariant
            n == ms@.len(),
            i <= n,
            forall|j: int| 0 <= j < i ==> (#[trigger] extract_text(ms@[j].1)) is Some,
            field(*doc, "query"@) == Some(*q),
            field(*q, "pages"@) == Some(JsonValue::Object(*ms)),
        decreases n - i,
    {
        if extract_of(&ms[i].1).is_none() {
            assert(!all_extracts(ms@));
            return Err(WikiError::Malformed);
        }
        i = i + 1;
    }
    assert(all_extracts(ms@));
    match find_member(ms, page_id) {
        Some(p) => match extract_of(p) {
            Some(t) => Ok(t),
            None => {
                proof {
                    lemma_member_is_listed(ms@, page_id@);
                }
                Err(WikiError::Malformed)
            },
        },
        None => Err(WikiError::PageNotFound),
    }
}

/// Reads the search results out of a search response body.
pub fn search_results_from_body(body: &str) -> (r: Result<Vec<WikiPage>, WikiError>)
    ensures
        match r {
            Ok(ps) => search_outcome(body@) == Ok::<Seq<WikiPageView>, WikiError>(pages_view(ps@)),
            Err(e) => search_outcome(body@) == Err::<Seq<WikiPageView>, WikiError>(e),
        },
{
    match parse_json(body) {
        Some(doc) => match pages_from_search_json(&doc) {
            Some(ps) => Ok(ps),
            None => Err(WikiError::Malformed),
        },
        None => Err(WikiError::Malformed),
    }
}

/// Reads the extract of page `page_id` out of an extract response body.
pub fn extract_from_body(body: &str, page_id: &String) -> (r: Result<String, WikiError>)
    ensures
        match r {
            Ok(t) => extract_outcome(body@, page_id@) == Ok::<Seq<char>, WikiError>(t@),
            Err(e) => extract_outcome(body@, page_id@) == Err::<Seq<char>, WikiError>(e),
        },
{
    match parse_json(body) {
        Some(doc) => extract_from_json(&doc, page_id),
        None => Err(WikiError::Malformed),
    }
}

/// A character that may stand in a query value without changing how the
/// query splits: an unreserved character, `+`, `%` or an upper-case hex digit.
pub open spec fn query_safe(c: char) -> bool {
    ('a' <= c && c <= 'z') || ('A' <= c && c <= 'Z') || ('0' <= c && c <= '9') || c == '*'
        || c == '-' || c == '.' || c == '_' || c == '+' || c == '%'
}

/// Every keyword is sent intact: its encoding holds only characters that
/// cannot end the search value or start another parameter.
pub proof fn lemma_encoded_keyword_is_query_safe(keyword: Seq<u8>)
    ensures
        forall|i: int|
            0 <= i < form_encoded(keyword).len() ==> query_safe(#[trigger] form_encoded(keyword)[i]),
    decreases keyword.len(),
{
    if keyword.len() > 0 {
        lemma_encoded_keyword_is_query_safe(keyword.drop_last());
        let b = keyword.last();
        let e = encoded_byte(b);
        assert(forall|i: int| 0 <= i < e.len() ==> query_safe(#[trigger] e[i])) by {
            if !is_unreserved(b) && b != 32 {
                assert(query_safe(hex_digit(b / 16)));
                assert(query_safe(hex_digit(b % 16)));
            }
        }
        let pre = form_encoded(keyword.drop_last());
        assert forall|i: int| 0 <= i < form_encoded(keyword).len() implies query_safe(
            #[trigger] form_encoded(keyword)[i],
        ) by {
            if i < pre.len() {
                assert(form_encoded(keyword)[i] == pre[i]);
            } else {
                assert(form_encoded(keyword)[i] == e[i - pre.len()]);
            }
        }
    }
}

/// The search URL carries the keyword as its search value, encoded so that it
/// neither ends that value nor adds a parameter, and so that decoding the
/// value gives back the keyword's bytes exactly.
pub proof fn lemma_search_url_carries_keyword(keyword: Seq<u8>)
    ensures
        search_url_of(keyword) == search_prefix() + form_encoded(keyword) + search_suffix(),
        form_decoded(form_encoded(keyword)) == keyword,
        forall|i: int|
            0 <= i < form_encoded(keyword).len() ==> query_safe(#[trigger] form_encoded(keyword)[i]),
{
    lemma_form_round_trip(keyword);
    lemma_encoded_keyword_is_query_safe(keyword);
}

/// A readable search response yields exactly as many results as it lists
/// entries.
pub proof fn lemma_search_result_count(items: Seq<JsonValue>)
    requires
        search_entries(items) is Some,
    ensures
        search_entries(items)->0.len() == items.len(),
    decreases items.len(),
{
    if items.len() > 0 {
        lemma_search_result_count(items.drop_last());
    }
}

/// A search response whose entries carry titles `titles` and identifiers
/// `ids` yields one result per entry, in the same order, each with the title
/// and the identifier in decimal.
pub proof fn lemma_search_round_trip(
    doc: JsonValue,
    items: Seq<JsonValue>,
    ids: Seq<u32>,
    titles: Seq<Seq<char>>,
)
    requires
        search_list(doc) == Some(items),
        ids.len() == items.len(),
        titles.len() == items.len(),
        forall|i: int|
            0 <= i < items.len() ==> text_of(field(#[trigger] items[i], "title"@)) == Some(
                titles[i],
            ) && field(items[i], "pageid"@) is Some && u32_of(field(items[i], "pageid"@)->0)
                == Some(ids[i]),
    ensures
        search_results_of(doc) == Some(
            Seq::new(
                items.len(),
                |i: int| WikiPageView { page_id: decimal(ids[i] as nat), title: titles[i] },
            ),
        ),
{
    lemma_search_prefix(items, ids, titles, items.len() as int);
    assert(items.take(items.len() as int) =~= items);
}

proof fn lemma_search_prefix(items: Seq<JsonValue>, ids: Seq<u32>, titles: Seq<Seq<char>>, k: int)
    requires
        0 <= k <= items.len(),
        ids.len() == items.len(),
        titles.len() == items.len(),
        forall|i: int|
            0 <= i < items.len() ==> text_of(field(#[trigger] items[i], "title"@)) == Some(
                titles[i],
            ) && field(items[i], "pageid"@) is Some && u32_of(field(items[i], "pageid"@)->0)
                == Some(ids[i]),
    ensures
        search_entries(items.take(k)) == Some(
            Seq::new(k as nat, |i: int| WikiPageView { page_id: decimal(ids[i] as nat), title: titles[i] }),
        ),
    decreases k,
{
    let want = Seq::new(k as nat, |i: int| WikiPageView { page_id: decimal(ids[i] as nat), title: titles[i] });
    if k == 0 {
        assert(items.take(0).len() == 0);
        assert(want =~= Seq::empty());
    } else {
        lemma_search_prefix(items, ids, titles, k - 1);
        let t = items.take(k);
        assert(t.drop_last() =~= items.take(k - 1));
        assert(t.last() == items[k - 1]);
        let prev = Seq::new((k - 1) as nat, |i: int| WikiPageView { page_id: decimal(ids[i] as nat), title: titles[i] });
        assert(search_entry(items[k - 1]) == Some(WikiPageView { page_id: decimal(ids[k - 1] as nat), title: titles[k - 1] }));
        assert(want =~= prev.push(WikiPageView { page_id: decimal(ids[k - 1] as nat), title: titles[k - 1] }));
    }
}

} // verus!
