//! The settings of the AI services: which keys and endpoints are used, and what is shown of them.

use vstd::prelude::*;
use vstd::string::*;

use crate::error::{command_error, CommandError, CommandErrorView};
use crate::names::NameSet;
use crate::text::{
    ascii_lower, ascii_lower_text, before, before_ends_at_the_first_occurrence, cat4, chars_of,
    contains, ends_with, inked, lemma_inked_edge, list_contains, matches_at, opt_view, same_text,
    starts_with, string_of, text_before, text_contains, trim, trim_text, trimming_takes_white_only,
    views,
};

verus! {

/// The key to use when listing the models of Gemini.
#[derive(Debug)]
pub struct ListGeminiModelsPayload {
    pub api_key: Option<String>,
}

/// The service to test.
#[derive(Debug)]
pub struct TestAiServicePayload {
    pub service_id: String,
}

/// A service, with values that have not been saved yet.
#[derive(Debug)]
pub struct AiServiceIdPayload {
    pub service_id: String,
    pub api_key: Option<String>,
    pub base_url: Option<String>,
}

/// The result of testing a service.
#[derive(Debug)]
pub struct TestAiServiceResponse {
    pub ok: bool,
    pub message: String,
}

/// The prompt to delete.
#[derive(Debug)]
pub struct DeletePromptPayload {
    pub id: String,
}

/// The result of trying a prompt.
#[derive(Debug)]
pub struct TestPromptResponse {
    pub output: String,
    pub summary: String,
    pub faqs: String,
    pub model: String,
}

// ---------------------------------------------------------------------------
// Drafts and stored values
// ---------------------------------------------------------------------------

/// A value without the space around it, if anything is left.
pub open spec fn filled(value: Option<Seq<char>>) -> Option<Seq<char>> {
    match value {
        Some(v) if trim(v).len() > 0 => Some(trim(v)),
        _ => None,
    }
}

/// A draft, if it holds anything, else the stored value, if that does.
pub open spec fn draft_or_stored(draft: Option<Seq<char>>, stored: Option<Seq<char>>) -> Option<
    Seq<char>,
> {
    match filled(draft) {
        Some(v) => Some(v),
        None => filled(stored),
    }
}

/// The text of a value that may be absent.
pub open spec fn str_view(value: Option<&str>) -> Option<Seq<char>> {
    match value {
        Some(v) => Some(v@),
        None => None,
    }
}

fn fill(value: Option<&str>) -> (r: Option<String>)
    ensures
        opt_view(r) == filled(str_view(value)),
{
    match value {
        None => None,
        Some(v) => {
            let trimmed: String = trim_text(v);
            if trimmed.as_str().is_empty() {
                None
            } else {
                Some(trimmed)
            }
        },
    }
}

/// Chooses between a draft and the stored value. Nothing is stored.
pub fn draft_or_stored_value(draft: Option<&str>, stored: Option<&str>) -> (r: Option<String>)
    ensures
        opt_view(r) == draft_or_stored(str_view(draft), str_view(stored)),
{
    match fill(draft) {
        Some(v) => Some(v),
        None => fill(stored),
    }
}

fn borrow_text(value: &Option<String>) -> (r: Option<&str>)
    ensures
        str_view(r) == opt_view(*value),
{
    match value {
        Some(v) => Some(v.as_str()),
        None => None,
    }
}

// ---------------------------------------------------------------------------
// Redaction
// ---------------------------------------------------------------------------

/// The key of a service, as it is stored and as it is shown.
pub struct ServiceKey {
    pub api_key: Option<String>,
    pub has_api_key: bool,
}

/// The keys of the AI settings.
pub struct AiKeys {
    pub gemini: ServiceKey,
    pub remote_services: Vec<ServiceKey>,
}

/// A key as it is shown: only whether there is one.
pub open spec fn shown(key: ServiceKey) -> ServiceKey {
    ServiceKey { api_key: None, has_api_key: key.api_key is Some }
}

/// Hides the keys of the AI settings. What is shown holds no key, and says of each service whether
/// it has one.
pub fn redact_ai_keys(keys: &mut AiKeys)
    ensures
        final(keys).gemini == shown(old(keys).gemini),
        final(keys).remote_services@ == old(keys).remote_services@.map_values(
            |k: ServiceKey| shown(k),
        ),
{
    let ghost stored = keys.remote_services@;
    let gemini_has: bool = keys.gemini.api_key.is_some();
    keys.gemini = ServiceKey { api_key: None, has_api_key: gemini_has };
    let mut out: Vec<ServiceKey> = Vec::new();
    let mut i: usize = 0;
    while i < keys.remote_services.len()
        invariant
            i <= keys.remote_services@.len(),
            keys.remote_services@ == stored,
            keys.gemini == shown(old(keys).gemini),
            out@ =~= stored.take(i as int).map_values(|k: ServiceKey| shown(k)),
        decreases keys.remote_services@.len() - i,
    {
        let has: bool = keys.remote_services[i].api_key.is_some();
        out.push(ServiceKey { api_key: None, has_api_key: has });
        proof {
            assert(stored.take(i + 1) =~= stored.take(i as int).push(stored[i as int]));
            assert(out@ =~= stored.take(i + 1).map_values(|k: ServiceKey| shown(k)));
        }
        i = i + 1;
    }
    assert(stored.take(i as int) =~= stored);
    keys.remote_services = out;
}

/// What is shown holds no key, and is the same for any two keys: only whether there is one is told.
pub proof fn shown_hides_the_key(a: ServiceKey, b: ServiceKey)
    requires
        a.api_key is Some == b.api_key is Some,
    ensures
        shown(a).api_key is None,
        shown(a) == shown(b),
{
}

// ---------------------------------------------------------------------------
// The models of Gemini
// ---------------------------------------------------------------------------

/// The number of pages that are read of one endpoint.
pub const GEMINI_MAX_PAGES: usize = 25;

/// A model of a page.
pub struct GeminiModelEntry {
    pub name: Option<String>,
    pub supported_generation_methods: Option<Vec<String>>,
}

/// A page of models.
pub struct GeminiModelsResponse {
    pub models: Option<Vec<GeminiModelEntry>>,
    pub next_page_token: Option<String>,
}

/// Chooses the key for listing the models of Gemini.
pub fn list_gemini_models(
    payload: &Option<ListGeminiModelsPayload>,
    stored: &Option<String>,
) -> (r: Result<String, CommandError>)
    ensures
        ({
            let draft = match payload {
                Some(p) => opt_view(p.api_key),
                None => None,
            };
            match draft_or_stored(draft, opt_view(*stored)) {
                Some(key) => r is Ok && r->Ok_0@ == key,
                None => r is Err && r->Err_0@ == command_error(
                    "validation"@,
                    "Gemini API key is required"@,
                ),
            }
        }),
{
    let draft: Option<&str> = match payload {
        Some(p) => borrow_text(&p.api_key),
        None => None,
    };
    match draft_or_stored_value(draft, borrow_text(stored)) {
        Some(key) => Ok(key),
        None => Err(CommandError::new("validation", "Gemini API key is required")),
    }
}

/// A text without any of the leading occurrences of another.
pub open spec fn without_prefixes(s: Seq<char>, p: Seq<char>) -> Seq<char>
    decreases s.len(),
{
    if p.len() > 0 && starts_with(s, p) {
        without_prefixes(s.skip(p.len() as int), p)
    } else {
        s
    }
}

fn strip_prefixes(s: &str, p: &str) -> (r: String)
    ensures
        r@ == without_prefixes(s@, p@),
{
    let v: Vec<char> = chars_of(s);
    let q: Vec<char> = chars_of(p);
    let total: usize = v.len();
    let mut i: usize = 0;
    assert(v@.skip(0) =~= v@);
    while q.len() > 0 && matches_at(&v, i, &q)
        invariant
            total == v@.len(),
            i <= v@.len(),
            without_prefixes(v@.skip(i as int), q@) == without_prefixes(v@, q@),
        decreases v@.len() - i,
    {
        assert(v@.skip(i as int).skip(q@.len() as int) =~= v@.skip(i + q@.len()));
        i = i + q.len();
    }
    assert(v@.skip(i as int) =~= v@.subrange(i as int, v@.len() as int));
    string_of(&v[i..total])
}

/// The name under which a model of a page is offered, if it is: it generates content and has a
/// name.
pub open spec fn offered_name(entry: GeminiModelEntry) -> Option<Seq<char>> {
    let generates = entry.supported_generation_methods matches Some(m) && views(m@).contains(
        "generateContent"@,
    );
    let cleaned = match entry.name {
        Some(n) => without_prefixes(trim(n@), "models/"@),
        None => Seq::empty(),
    };
    if generates && entry.name is Some && cleaned.len() > 0 {
        Some(cleaned)
    } else {
        None
    }
}

fn offer(entry: &GeminiModelEntry) -> (r: Option<String>)
    ensures
        opt_view(r) == offered_name(*entry),
{
    let generates: bool = match &entry.supported_generation_methods {
        Some(methods) => list_contains(methods, "generateContent"),
        None => false,
    };
    if !generates {
        return None;
    }
    match &entry.name {
        None => None,
        Some(name) => {
            let cleaned: String = strip_prefixes(trim_text(name.as_str()).as_str(), "models/");
            if cleaned.as_str().is_empty() {
                None
            } else {
                Some(cleaned)
            }
        },
    }
}

/// What follows a page.
pub enum GeminiPage {
    /// The endpoint has no more.
    Done,
    /// Read the page with this token.
    Next(String),
}

/// The answer to a request for a page.
pub struct GeminiAnswer {
    pub status: u16,
    /// The status as it is shown.
    pub status_text: String,
    /// The page, or why it could not be read; looked at only when the status is a success.
    pub page: Result<GeminiModelsResponse, String>,
}

/// Why a page ends the listing with an error, if it does. An endpoint that does not exist ends it
/// without one.
pub open spec fn page_error(answer: GeminiAnswer) -> Option<CommandErrorView> {
    if answer.status == 401 || answer.status == 403 {
        Some(
            command_error("gemini_models"@, "Gemini API key is invalid or unauthorized"@),
        )
    } else if answer.status == 404 {
        None
    } else if !(200 <= answer.status < 300) {
        Some(
            command_error(
                "gemini_models"@,
                "Gemini models request failed with status "@ + answer.status_text@,
            ),
        )
    } else {
        match answer.page {
            Err(e) => Some(command_error("gemini_models"@, e@)),
            Ok(_) => None,
        }
    }
}

/// The models of an answer.
pub open spec fn answer_entries(answer: GeminiAnswer) -> Seq<GeminiModelEntry> {
    if 200 <= answer.status < 300 && answer.page is Ok && answer.page->Ok_0.models is Some {
        answer.page->Ok_0.models->0@
    } else {
        Seq::empty()
    }
}

/// The token of the page after an answer, unless it is the last that is read.
pub open spec fn next_token(answer: GeminiAnswer, page_number: nat) -> Option<Seq<char>> {
    if 200 <= answer.status < 300 && answer.page is Ok && page_number + 1 < GEMINI_MAX_PAGES {
        filled(opt_view(answer.page->Ok_0.next_page_token))
    } else {
        None
    }
}

/// Whether a name is offered by one of some models.
pub open spec fn offered_by(entries: Seq<GeminiModelEntry>, name: Seq<char>) -> bool {
    exists|i: int| 0 <= i < entries.len() && offered_name(#[trigger] entries[i]) == Some(name)
}

/// The catalog that is read first.
pub const GEMINI_BETA_MODELS: &'static str = "https://generativelanguage.googleapis.com/v1beta/models";

/// The catalog that is read after it.
pub const GEMINI_MODELS: &'static str = "https://generativelanguage.googleapis.com/v1/models";

/// The catalogs whose models are offered together, in the order in which they are read.
pub fn gemini_endpoints() -> (r: Vec<&'static str>)
    ensures
        r@ == seq![GEMINI_BETA_MODELS, GEMINI_MODELS],
{
    let mut out: Vec<&'static str> = Vec::new();
    out.push(GEMINI_BETA_MODELS);
    out.push(GEMINI_MODELS);
    assert(out@ =~= seq![GEMINI_BETA_MODELS, GEMINI_MODELS]);
    out
}

/// Collects the models of a page, and says which page is next. At most [`GEMINI_MAX_PAGES`] pages
/// are read; `page_number` counts from zero.
pub fn collect_gemini_models_from_endpoint(
    answer: &GeminiAnswer,
    page_number: usize,
    collected: &mut NameSet,
) -> (r: Result<GeminiPage, CommandError>)
    requires
        old(collected).wf(),
        page_number < GEMINI_MAX_PAGES,
    ensures
        final(collected).wf(),
        match page_error(*answer) {
            Some(e) => r is Err && r->Err_0@ == e && *final(collected) == *old(collected),
            None => {
                &&& r is Ok
                &&& match next_token(*answer, page_number as nat) {
                    Some(token) => r->Ok_0 matches GeminiPage::Next(t) && t@ == token,
                    None => r->Ok_0 is Done,
                }
                &&& forall|n: Seq<char>|
                    #[trigger] final(collected).list().contains(n) <==> (old(
                        collected,
                    ).list().contains(n) || offered_by(answer_entries(*answer), n))
            },
        },
{
    if answer.status == 401 || answer.status == 403 {
        return Err(
            CommandError::new("gemini_models", "Gemini API key is invalid or unauthorized"),
        );
    }
    if answer.status == 404 {
        assert(answer_entries(*answer) =~= Seq::empty());
        return Ok(GeminiPage::Done);
    }
    if !(200 <= answer.status && answer.status < 300) {
        let mut message: String = "Gemini models request failed with status ".to_owned();
        message.append(answer.status_text.as_str());
        return Err(CommandError::new("gemini_models", message.as_str()));
    }
    let page: &GeminiModelsResponse = match &answer.page {
        Err(error) => {
            return Err(CommandError::new("gemini_models", error.as_str()));
        },
        Ok(page) => page,
    };
    let ghost start = collected.list();
    let ghost entries = answer_entries(*answer);
    if let Some(models) = &page.models {
        let mut i: usize = 0;
        while i < models.len()
            invariant
                i <= models@.len(),
                entries == models@,
                collected.wf(),
                forall|n: Seq<char>|
                    #[trigger] collected.list().contains(n) <==> (start.contains(n) || offered_by(
                        entries.take(i as int),
                        n,
                    )),
            decreases models@.len() - i,
        {
            let ghost prior = collected.list();
            let ghost seen = entries.take(i as int);
            let ghost more = entries.take(i + 1);
            let name: Option<String> = offer(&models[i]);
            assert(more =~= seen.push(entries[i as int]));
            assert forall|n: Seq<char>| #[trigger] offered_by(more, n) <==> (offered_by(seen, n)
                || offered_name(entries[i as int]) == Some(n)) by {
                if offered_by(seen, n) {
                    let k = choose|k: int|
                        0 <= k < seen.len() && offered_name(#[trigger] seen[k]) == Some(n);
                    assert(more[k] == seen[k]);
                }
                if offered_name(entries[i as int]) == Some(n) {
                    assert(more[i as int] == entries[i as int]);
                }
                if offered_by(more, n) {
                    let k = choose|k: int|
                        0 <= k < more.len() && offered_name(#[trigger] more[k]) == Some(n);
                    if k < i {
                        assert(seen[k] == more[k]);
                    }
                }
            }
            if let Some(value) = name {
                collected.insert(value);
            }
            i = i + 1;
        }
        assert(entries.take(i as int) =~= entries);
    }
    let next: Option<String> = fill(borrow_text(&page.next_page_token));
    if page_number + 1 >= GEMINI_MAX_PAGES {
        return Ok(GeminiPage::Done);
    }
    match next {
        Some(token) => Ok(GeminiPage::Next(token)),
        None => Ok(GeminiPage::Done),
    }
}

// ---------------------------------------------------------------------------
// The models of other services
// ---------------------------------------------------------------------------

/// The kind of a remote service, as far as its catalog is concerned.
#[derive(Clone, Copy, PartialEq, Eq, Structural, Debug)]
pub enum RemoteServiceKind {
    Google,
    Anthropic,
    Azure,
    Custom,
    /// A service with a catalog of the usual form.
    Other,
}

/// A remote service.
pub struct RemoteService {
    pub id: String,
    pub kind: RemoteServiceKind,
    pub api_key: Option<String>,
    pub base_url: Option<String>,
}

/// A request for a catalog.
pub struct CatalogRequest {
    pub endpoint: String,
    pub headers: Vec<(String, String)>,
}

/// How the catalog of a service is had.
pub enum ServiceCatalog {
    /// The service has none.
    Empty,
    Fetch(CatalogRequest),
}

/// The first service with an id.
pub open spec fn service_of(services: Seq<RemoteService>, id: Seq<char>) -> Option<RemoteService>
    decreases services.len(),
{
    if services.len() == 0 {
        None
    } else if services[0].id@ == id {
        Some(services[0])
    } else {
        service_of(services.skip(1), id)
    }
}

fn find_service<'a>(services: &'a Vec<RemoteService>, id: &str) -> (r: Option<&'a RemoteService>)
    ensures
        match service_of(services@, id@) {
            Some(s) => r is Some && *r->0 == s,
            None => r is None,
        },
{
    let mut i: usize = 0;
    assert(services@.skip(0) =~= services@);
    while i < services.len()
        invariant
            i <= services@.len(),
            service_of(services@.skip(i as int), id@) == service_of(services@, id@),
        decreases services@.len() - i,
    {
        if same_text(services[i].id.as_str(), id) {
            return Some(&services[i]);
        }
        assert(services@.skip(i as int).skip(1) =~= services@.skip(i + 1));
        i = i + 1;
    }
    None
}

/// A text without its trailing slashes.
pub open spec fn without_trailing_slashes(s: Seq<char>) -> Seq<char>
    decreases s.len(),
{
    if s.len() > 0 && s.last() == '/' {
        without_trailing_slashes(s.drop_last())
    } else {
        s
    }
}

fn strip_trailing_slashes(s: &str) -> (r: String)
    ensures
        r@ == without_trailing_slashes(s@),
{
    let v: Vec<char> = chars_of(s);
    let mut b: usize = v.len();
    assert(v@.subrange(0, b as int) =~= v@);
    while 0 < b && v[b - 1] == '/'
        invariant
            b <= v@.len(),
            without_trailing_slashes(v@.subrange(0, b as int)) == without_trailing_slashes(v@),
        decreases b,
    {
        assert(v@.subrange(0, b as int).drop_last() =~= v@.subrange(0, b - 1));
        b = b - 1;
    }
    string_of(&v[0..b])
}

/// The catalog's endpoint for a base address, which may be that of the completions.
pub open spec fn catalog_endpoint(base_url: Seq<char>) -> Seq<char> {
    without_trailing_slashes(before(base_url, "/chat/completions"@)) + "/models"@
}

/// The headers of a catalog request.
pub open spec fn header_views(headers: Seq<(String, String)>) -> Seq<(Seq<char>, Seq<char>)> {
    headers.map_values(|h: (String, String)| (h.0@, h.1@))
}

/// The headers for a service and a key.
pub open spec fn catalog_headers(kind: RemoteServiceKind, key: Option<Seq<char>>) -> Seq<
    (Seq<char>, Seq<char>),
> {
    match key {
        None => Seq::empty(),
        Some(k) => if kind == RemoteServiceKind::Anthropic {
            seq![("x-api-key"@, k), ("anthropic-version"@, "2023-06-01"@)]
        } else {
            seq![("authorization"@, "Bearer "@ + k)]
        },
    }
}

/// Whether a header may hold a text: no control characters but the tab.
pub open spec fn header_text(s: Seq<char>) -> bool {
    forall|i: int| 0 <= i < s.len() ==> header_char(#[trigger] s[i])
}

/// Whether a header may hold a character.
pub open spec fn header_char(c: char) -> bool {
    (c as int >= 32 && c as int != 127) || c == '\t'
}

/// Checks that a text can be the value of a header, with `reqwest::header::HeaderValue::from_str`
/// (of the `http` crate): it takes a text whose bytes are at least 32 and not 127, or tabs, that
/// is, one without control characters below 128 but the tab. Its error is always worded alike.
#[verifier::external_body]
fn check_header_value(value: &str) -> (r: Result<(), String>)
    ensures
        r is Ok <==> header_text(value@),
        r matches Err(e) ==> e@ == "failed to parse header value"@,
{
    match reqwest::header::HeaderValue::from_str(value) {
        Ok(_) => Ok(()),
        Err(error) => Err(error.to_string()),
    }
}

/// How the catalog of a service is had, or why it cannot be.
pub open spec fn catalog_plan(
    services: Seq<RemoteService>,
    payload: AiServiceIdPayload,
) -> Result<Option<(Seq<char>, Seq<(Seq<char>, Seq<char>)>)>, CommandErrorView> {
    match service_of(services, payload.service_id@) {
        None => Err(command_error("not_found"@, "AI service not found"@)),
        Some(s) => {
            let url = draft_or_stored(opt_view(payload.base_url), opt_view(s.base_url));
            let key = draft_or_stored(opt_view(payload.api_key), opt_view(s.api_key));
            if s.kind == RemoteServiceKind::Google {
                Err(
                    command_error(
                        "validation"@,
                        "Use the Gemini model catalog for Google services"@,
                    ),
                )
            } else if s.kind == RemoteServiceKind::Azure || s.kind == RemoteServiceKind::Custom {
                Ok(None)
            } else if url is None {
                Err(command_error("validation"@, "AI service base URL is required"@))
            } else if s.kind == RemoteServiceKind::Anthropic && key is None {
                Err(command_error("missing_api_key"@, "Anthropic API key is required"@))
            } else if key is Some && !header_text(catalog_headers(s.kind, key)[0].1) {
                Err(command_error("validation"@, "failed to parse header value"@))
            } else {
                Ok(Some((catalog_endpoint(url->0), catalog_headers(s.kind, key))))
            }
        },
    }
}

/// Plans the request for the catalog of a service. Drafts go before what is stored.
pub fn list_ai_service_models(services: &Vec<RemoteService>, payload: &AiServiceIdPayload) -> (r:
    Result<ServiceCatalog, CommandError>)
    ensures
        match catalog_plan(services@, *payload) {
            Err(e) => r is Err && r->Err_0@ == e,
            Ok(None) => r is Ok && r->Ok_0 is Empty,
            Ok(Some((endpoint, headers))) => {
                &&& r is Ok
                &&& r->Ok_0 matches ServiceCatalog::Fetch(q) && q.endpoint@ == endpoint
                    && header_views(q.headers@) == headers
            },
        },
{
    let service: &RemoteService = match find_service(services, payload.service_id.as_str()) {
        Some(service) => service,
        None => {
            return Err(CommandError::new("not_found", "AI service not found"));
        },
    };
    if service.kind == RemoteServiceKind::Google {
        return Err(
            CommandError::new("validation", "Use the Gemini model catalog for Google services"),
        );
    }
    if service.kind == RemoteServiceKind::Azure || service.kind == RemoteServiceKind::Custom {
        return Ok(ServiceCatalog::Empty);
    }
    let base_url: String = match draft_or_stored_value(
        borrow_text(&payload.base_url),
        borrow_text(&service.base_url),
    ) {
        Some(url) => url,
        None => {
            return Err(CommandError::new("validation", "AI service base URL is required"));
        },
    };
    let mut endpoint: String = strip_trailing_slashes(
        text_before(base_url.as_str(), "/chat/completions").as_str(),
    );
    endpoint.append("/models");
    let key: Option<String> = draft_or_stored_value(
        borrow_text(&payload.api_key),
        borrow_text(&service.api_key),
    );
    let mut headers: Vec<(String, String)> = Vec::new();
    if service.kind == RemoteServiceKind::Anthropic {
        match key {
            None => {
                return Err(CommandError::new("missing_api_key", "Anthropic API key is required"));
            },
            Some(k) => {
                if let Err(error) = check_header_value(k.as_str()) {
                    return Err(CommandError::new("validation", error.as_str()));
                }
                headers.push(("x-api-key".to_owned(), k));
                headers.push(("anthropic-version".to_owned(), "2023-06-01".to_owned()));
            },
        }
    } else if let Some(k) = key {
        let mut bearer: String = "Bearer ".to_owned();
        bearer.append(k.as_str());
        if let Err(error) = check_header_value(bearer.as_str()) {
            return Err(CommandError::new("validation", error.as_str()));
        }
        headers.push(("authorization".to_owned(), bearer));
    }
    proof {
        let s = service_of(services@, payload.service_id@)->0;
        let k = draft_or_stored(opt_view(payload.api_key), opt_view(s.api_key));
        assert(header_views(headers@) =~= catalog_headers(s.kind, k));
    }
    Ok(ServiceCatalog::Fetch(CatalogRequest { endpoint, headers }))
}

/// Collects the ids of a catalog's entries, in order and each once; an entry may have none.
pub fn collect_model_ids(ids: &Vec<Option<String>>) -> (r: NameSet)
    ensures
        r.wf(),
        forall|n: Seq<char>|
            #[trigger] r.list().contains(n) <==> exists|i: int|
                0 <= i < ids@.len() && opt_view(#[trigger] ids@[i]) == Some(n),
{
    let mut out: NameSet = NameSet::new();
    let mut i: usize = 0;
    while i < ids.len()
        invariant
            i <= ids@.len(),
            out.wf(),
            forall|n: Seq<char>|
                #[trigger] out.list().contains(n) <==> exists|k: int|
                    0 <= k < i && opt_view(#[trigger] ids@[k]) == Some(n),
        decreases ids@.len() - i,
    {
        if let Some(id) = &ids[i] {
            out.insert(id.clone());
        }
        proof {
            assert forall|n: Seq<char>| #[trigger] out.list().contains(n) <==> exists|k: int|
                0 <= k < i + 1 && opt_view(#[trigger] ids@[k]) == Some(n) by {
                if opt_view(ids@[i as int]) == Some(n) {
                    assert(0 <= i < i + 1);
                }
            }
        }
        i = i + 1;
    }
    out
}

/// What a service answered when it was asked for its models: the status, and the identifiers
/// in the body or why the body could not be read.
pub struct CatalogAnswer {
    pub status: u16,
    pub status_text: String,
    pub ids: Result<Vec<Option<String>>, String>,
}

/// Reads the answer to a catalog request: an unsuccessful status and an unreadable body are
/// errors; otherwise the named models are offered, each once, in order.
pub fn read_catalog_answer(answer: &CatalogAnswer) -> (r: Result<NameSet, CommandError>)
    ensures
        if !(200 <= answer.status < 300) {
            r is Err && r->Err_0@ == command_error(
                "ai_models"@,
                "Model catalog request failed with status "@ + answer.status_text@,
            )
        } else {
            match answer.ids {
                Err(error) => r is Err && r->Err_0@ == command_error("ai_models"@, error@),
                Ok(ids) => {
                    &&& r is Ok
                    &&& r->Ok_0.wf()
                    &&& forall|n: Seq<char>|
                        #[trigger] r->Ok_0.list().contains(n) <==> exists|i: int|
                            0 <= i < ids@.len() && opt_view(#[trigger] ids@[i]) == Some(n)
                },
            }
        },
{
    if !(200 <= answer.status && answer.status < 300) {
        let mut message: String = "Model catalog request failed with status ".to_owned();
        message.append(answer.status_text.as_str());
        return Err(CommandError::new("ai_models", message.as_str()));
    }
    match &answer.ids {
        Err(error) => Err(CommandError::new("ai_models", error.as_str())),
        Ok(ids) => Ok(collect_model_ids(ids)),
    }
}

// ---------------------------------------------------------------------------
// Testing a service
// ---------------------------------------------------------------------------

/// The code of an error that a service gave. A spent quota is told before anything else, since its
/// message may also speak of the key.
pub open spec fn service_error_code(message: Seq<char>) -> Seq<char> {
    let m = ascii_lower(message);
    if contains(m, "429"@) || contains(m, "quota"@) || contains(m, "rate limit"@) {
        "ai_quota"@
    } else if contains(m, "401"@) || contains(m, "403"@) || contains(m, "authentication"@)
        || contains(m, "api key"@) {
        "ai_authentication"@
    } else if contains(m, "model"@) && (contains(m, "not found"@) || contains(m, "invalid"@)
        || contains(m, "404"@)) {
        "ai_model"@
    } else if contains(m, "request failed"@) || contains(m, "connection"@) || contains(
        m,
        "network"@,
    ) || contains(m, "timed out"@) || contains(m, "timeout"@) {
        "ai_connection"@
    } else if contains(m, "404"@) || contains(m, "endpoint"@) || contains(m, "url"@) {
        "ai_endpoint"@
    } else {
        "ai_service_test"@
    }
}

/// Classifies an error that a service gave.
pub fn classify_ai_service_error(message: &str) -> (r: CommandError)
    ensures
        r@ == command_error(service_error_code(message@), message@),
{
    let normalized: String = ascii_lower_text(message);
    let m: &str = normalized.as_str();
    let code: &str = if text_contains(m, "429") || text_contains(m, "quota") || text_contains(
        m,
        "rate limit",
    ) {
        "ai_quota"
    } else if text_contains(m, "401") || text_contains(m, "403") || text_contains(
        m,
        "authentication",
    ) || text_contains(m, "api key") {
        "ai_authentication"
    } else if text_contains(m, "model") && (text_contains(m, "not found") || text_contains(
        m,
        "invalid",
    ) || text_contains(m, "404")) {
        "ai_model"
    } else if text_contains(m, "request failed") || text_contains(m, "connection")
        || text_contains(m, "network") || text_contains(m, "timed out") || text_contains(
        m,
        "timeout",
    ) {
        "ai_connection"
    } else if text_contains(m, "404") || text_contains(m, "endpoint") || text_contains(m, "url") {
        "ai_endpoint"
    } else {
        "ai_service_test"
    };
    CommandError::new(code, message)
}

/// A message that speaks of a quota is never taken for a problem with the key.
pub proof fn quota_goes_before_authentication(message: Seq<char>)
    requires
        contains(ascii_lower(message), "429"@) || contains(ascii_lower(message), "quota"@)
            || contains(ascii_lower(message), "rate limit"@),
    ensures
        service_error_code(message) == "ai_quota"@,
{
}

/// What a service under test is asked.
pub const SERVICE_TEST_PROMPT: &'static str = "Reply with exactly: OK";

/// Whether a service can be tested: `found` says whether a client could be built for it, or
/// why its configuration was refused.
pub fn check_tested_service(found: &Result<bool, String>) -> (r: Result<(), CommandError>)
    ensures
        match found {
            Err(reason) => r is Err && r->Err_0@ == command_error(
                "ai_service_configuration"@,
                reason@,
            ),
            Ok(false) => r is Err && r->Err_0@ == command_error(
                "ai_service_unavailable"@,
                "The AI service is disabled or its configuration is incomplete"@,
            ),
            Ok(true) => r is Ok,
        },
{
    match found {
        Err(reason) => Err(CommandError::new("ai_service_configuration", reason.as_str())),
        Ok(built) => {
            if *built {
                Ok(())
            } else {
                Err(
                    CommandError::new(
                        "ai_service_unavailable",
                        "The AI service is disabled or its configuration is incomplete",
                    ),
                )
            }
        },
    }
}

/// Judges the answer of a service that was tested.
pub fn test_ai_service(answer: &str) -> (r: Result<TestAiServiceResponse, CommandError>)
    ensures
        r is Ok <==> trim(answer@).len() > 0,
        r is Ok ==> r->Ok_0.ok && r->Ok_0.message@ == "AI service connection verified"@,
        r is Err ==> r->Err_0@ == command_error(
            "ai_service_empty_response"@,
            "The AI service returned an empty response"@,
        ),
{
    if trim_text(answer).as_str().is_empty() {
        return Err(
            CommandError::new(
                "ai_service_empty_response",
                "The AI service returned an empty response",
            ),
        );
    }
    Ok(
        TestAiServiceResponse { ok: true, message: "AI service connection verified".to_owned() },
    )
}

// ---------------------------------------------------------------------------
// Trying a prompt
// ---------------------------------------------------------------------------

/// What a prompt is for.
#[derive(Clone, Copy, PartialEq, Eq, Structural, Debug)]
pub enum PromptTask {
    Optimize,
    Summary,
    Faq,
    EmotionAnalysis,
}

/// A prompt to try.
pub struct TestPromptPayload {
    pub input: String,
    pub language: Option<String>,
    pub task: Option<PromptTask>,
    pub prompt_override: Option<String>,
    pub model_override: Option<String>,
}

/// How a prompt is tried.
pub struct PromptTrial {
    pub input: String,
    pub model: String,
    pub language: String,
    pub task: PromptTask,
    pub optimize_prompt_override: Option<String>,
    pub summary_prompt_override: Option<String>,
}

/// Plans the trial of a prompt: its input must hold something, and what is not asked for comes
/// from the settings. The prompt replaces that of its own task only.
pub fn test_prompt(payload: &TestPromptPayload, stored_model: &str, stored_language: &str) -> (r:
    Result<PromptTrial, CommandError>)
    ensures
        r is Ok <==> trim(payload.input@).len() > 0,
        r is Err ==> r->Err_0@ == command_error(
            "validation"@,
            "prompt test input cannot be empty"@,
        ),
        r matches Ok(t) ==> {
            &&& t.input@ == trim(payload.input@)
            &&& t.model@ == (match filled(opt_view(payload.model_override)) {
                Some(m) => m,
                None => stored_model@,
            })
            &&& t.language@ == (match payload.language {
                Some(l) => l@,
                None => stored_language@,
            })
            &&& t.task == (match payload.task {
                Some(k) => k,
                None => PromptTask::Optimize,
            })
            &&& t.task == PromptTask::Optimize ==> t.optimize_prompt_override
                == payload.prompt_override && t.summary_prompt_override is None
            &&& t.task != PromptTask::Optimize ==> t.optimize_prompt_override is None
                && t.summary_prompt_override == payload.prompt_override
        },
{
    let input: String = trim_text(payload.input.as_str());
    if input.as_str().is_empty() {
        return Err(CommandError::new("validation", "prompt test input cannot be empty"));
    }
    let model: String = match fill(borrow_text(&payload.model_override)) {
        Some(model) => model,
        None => stored_model.to_owned(),
    };
    let language: String = match &payload.language {
        Some(language) => language.clone(),
        None => stored_language.to_owned(),
    };
    let task: PromptTask = match payload.task {
        Some(task) => task,
        None => PromptTask::Optimize,
    };
    if task == PromptTask::Optimize {
        Ok(
            PromptTrial {
                input,
                model,
                language,
                task,
                optimize_prompt_override: payload.prompt_override.clone(),
                summary_prompt_override: None,
            },
        )
    } else {
        Ok(
            PromptTrial {
                input,
                model,
                language,
                task,
                optimize_prompt_override: None,
                summary_prompt_override: payload.prompt_override.clone(),
            },
        )
    }
}

/// Makes the result of a trial that gave one text.
pub fn single_prompt_result(output: &str, model: &str) -> (r: TestPromptResponse)
    ensures
        r.output@ == output@,
        r.summary@ == Seq::<char>::empty(),
        r.faqs@ == Seq::<char>::empty(),
        r.model@ == model@,
{
    TestPromptResponse {
        output: output.to_owned(),
        summary: String::new(),
        faqs: String::new(),
        model: model.to_owned(),
    }
}

/// Makes the result of a trial that gave a summary and questions.
pub fn summary_prompt_result(summary: &str, faqs: &str, model: &str) -> (r: TestPromptResponse)
    ensures
        r.output@ == "Summary:\n"@ + summary@ + "\n\nFAQs:\n"@ + faqs@,
        r.summary@ == summary@,
        r.faqs@ == faqs@,
        r.model@ == model@,
{
    TestPromptResponse {
        output: cat4("Summary:\n", summary, "\n\nFAQs:\n", faqs),
        summary: summary.to_owned(),
        faqs: faqs.to_owned(),
        model: model.to_owned(),
    }
}

// ---------------------------------------------------------------------------
// What is promised of drafts and catalogs
// ---------------------------------------------------------------------------

/// A draft that says anything is used, and the stored value only where there is none; both without the
/// white space around them.
pub proof fn a_draft_goes_before_the_stored_value(
    draft: Option<Seq<char>>,
    stored: Option<Seq<char>>,
)
    ensures
        draft is Some && inked(draft->0).len() > 0 ==> draft_or_stored(draft, stored) == Some(
            trim(draft->0),
        ),
        (draft is None || inked(draft->0).len() == 0) && stored is Some && inked(stored->0).len() > 0
            ==> draft_or_stored(draft, stored) == Some(trim(stored->0)),
        draft_or_stored(draft, stored) is None <==> (draft is None || inked(draft->0).len() == 0) && (
        stored is None || inked(stored->0).len() == 0),
{
    if draft is Some {
        trimming_takes_white_only(draft->0);
        lemma_inked_edge(trim(draft->0));
    }
    if stored is Some {
        trimming_takes_white_only(stored->0);
        lemma_inked_edge(trim(stored->0));
    }
}

proof fn lemma_without_prefixes(s: Seq<char>, p: Seq<char>)
    requires
        p.len() > 0,
    ensures
        !starts_with(without_prefixes(s, p), p),
        ends_with(s, without_prefixes(s, p)),
        !starts_with(s, p) ==> without_prefixes(s, p) == s,
    decreases s.len(),
{
    let r = without_prefixes(s, p);
    if starts_with(s, p) {
        let rest = s.skip(p.len() as int);
        lemma_without_prefixes(rest, p);
        assert(s.skip(s.len() - r.len()) =~= rest.skip(rest.len() - r.len()));
    } else {
        assert(s.skip(0) =~= s);
    }
}

/// A model is offered under its name without the prefix of the catalog, and only if it generates content;
/// one whose name has no such prefix keeps its name.
pub proof fn a_model_is_offered_by_its_name(entry: GeminiModelEntry)
    ensures
        offered_name(entry) matches Some(name) ==> {
            &&& name.len() > 0
            &&& !starts_with(name, "models/"@)
            &&& entry.name is Some && ends_with(trim(entry.name->0@), name)
            &&& entry.supported_generation_methods is Some && views(
                entry.supported_generation_methods->0@,
            ).contains("generateContent"@)
        },
        entry.name is Some && inked(entry.name->0@).len() > 0 && !starts_with(
            trim(entry.name->0@),
            "models/"@,
        ) && entry.supported_generation_methods is Some && views(
            entry.supported_generation_methods->0@,
        ).contains("generateContent"@) ==> offered_name(entry) == Some(trim(entry.name->0@)),
        entry.name is Some && offered_name(entry) is None && entry.supported_generation_methods is Some
            && views(entry.supported_generation_methods->0@).contains("generateContent"@)
            ==> without_prefixes(trim(entry.name->0@), "models/"@).len() == 0,
{
    reveal_strlit("models/");
    if entry.name is Some {
        lemma_without_prefixes(trim(entry.name->0@), "models/"@);
        trimming_takes_white_only(entry.name->0@);
        lemma_inked_edge(trim(entry.name->0@));
    }
}

/// A page ends the listing with an error unless it is there and can be read, or the catalog does not
/// exist; a refused key is told as such. No more than twenty-five pages are read.
pub proof fn only_readable_pages_go_on(answer: GeminiAnswer, page_number: nat)
    ensures
        page_error(answer) is None <==> answer.status == 404 || (200 <= answer.status < 300
            && answer.page is Ok),
        answer.status == 401 || answer.status == 403 ==> page_error(answer) == Some(
            command_error("gemini_models"@, "Gemini API key is invalid or unauthorized"@),
        ),
        next_token(answer, page_number) is Some ==> page_number < 24 && 200 <= answer.status < 300,
        page_number < 24 && 200 <= answer.status < 300 && answer.page is Ok
            && answer.page->Ok_0.next_page_token is Some && inked(
            answer.page->Ok_0.next_page_token->0@,
        ).len() > 0 ==> next_token(answer, page_number) == Some(
            trim(answer.page->Ok_0.next_page_token->0@),
        ),
{
    if answer.page is Ok && answer.page->Ok_0.next_page_token is Some {
        trimming_takes_white_only(answer.page->Ok_0.next_page_token->0@);
        lemma_inked_edge(trim(answer.page->Ok_0.next_page_token->0@));
    }
}

/// A service is found by its id: the first of those that have it, and none only where none has it.
pub proof fn a_service_is_found_by_its_id(services: Seq<RemoteService>, id: Seq<char>) -> (at: int)
    ensures
        match service_of(services, id) {
            Some(s) => {
                &&& 0 <= at < services.len()
                &&& services[at] == s
                &&& s.id@ == id
                &&& forall|k: int| 0 <= k < at ==> (#[trigger] services[k]).id@ != id
            },
            None => forall|k: int| 0 <= k < services.len() ==> (#[trigger] services[k]).id@ != id,
        },
    decreases services.len(),
{
    if services.len() == 0 || services[0].id@ == id {
        0
    } else {
        let rest = services.skip(1);
        let at = a_service_is_found_by_its_id(rest, id) + 1;
        if service_of(services, id) is Some {
            assert(services[at] == rest[at - 1]);
            assert forall|k: int| 0 <= k < at implies (#[trigger] services[k]).id@ != id by {
                if k > 0 {
                    assert(rest[k - 1] == services[k]);
                }
            }
        } else {
            assert forall|k: int| 0 <= k < services.len() implies (#[trigger] services[k]).id@ != id by {
                if k > 0 {
                    assert(rest[k - 1] == services[k]);
                }
            }
        }
        at
    }
}

proof fn lemma_slashes(s: Seq<char>)
    ensures
        starts_with(s, without_trailing_slashes(s)),
        without_trailing_slashes(s).len() > 0 ==> without_trailing_slashes(s).last() != '/',
        s.len() > 0 && s.last() != '/' ==> without_trailing_slashes(s) == s,
        without_trailing_slashes(s.push('/')) == without_trailing_slashes(s),
    decreases s.len(),
{
    assert(s.push('/').drop_last() =~= s);
    let r = without_trailing_slashes(s);
    if s.len() > 0 && s.last() == '/' {
        lemma_slashes(s.drop_last());
        assert(s.take(r.len() as int) =~= s.drop_last().take(r.len() as int));
    } else {
        assert(s.take(s.len() as int) =~= s);
    }
}

/// The catalog of a service lies below its base address, which may be written with a slash at its end or
/// be the address of the completions.
pub proof fn a_catalog_lies_below_the_base_address(base: Seq<char>)
    requires
        base.len() > 0,
        base.last() != '/',
        !contains(base + "/chat/completions"@.drop_last(), "/chat/completions"@),
    ensures
        catalog_endpoint(base + "/chat/completions"@) == base + "/models"@,
        !contains(base, "/chat/completions"@) ==> catalog_endpoint(base) == base + "/models"@,
{
    reveal_strlit("/chat/completions");
    let p = "/chat/completions"@;
    let s = base + p;
    before_ends_at_the_first_occurrence(s, p);
    before_ends_at_the_first_occurrence(base, p);
    lemma_slashes(base);
    let n = before(s, p).len() as int;
    let short = base + p.drop_last();
    if n < base.len() {
        assert(starts_with(s.skip(n), p));
        assert(short.skip(n).take(p.len() as int) =~= s.skip(n).take(p.len() as int));
        assert(starts_with(short.skip(n), p));
        assert(contains(short, p));
    }
    if n > base.len() {
        assert(s.skip(base.len() as int) =~= p);
        assert(p.take(p.len() as int) =~= p);
        assert(starts_with(s.skip(base.len() as int), p));
    }
    assert(before(s, p) =~= base) by {
        assert(s.take(n) =~= base);
    }
    if !contains(base, p) {
        let m = before(base, p).len() as int;
        if m < base.len() {
            assert(starts_with(base.skip(m), p));
            assert(contains(base, p));
        }
    }
}

/// The key of a service is sent in the header that the service reads it from, and nowhere else; without a
/// key nothing is sent.
pub proof fn a_key_is_sent_in_its_header(kind: RemoteServiceKind, key: Option<Seq<char>>)
    ensures
        key is None ==> catalog_headers(kind, key).len() == 0,
        key is Some && kind == RemoteServiceKind::Anthropic ==> catalog_headers(kind, key) == seq![
            ("x-api-key"@, key->0),
            ("anthropic-version"@, "2023-06-01"@),
        ],
        key is Some && kind != RemoteServiceKind::Anthropic ==> catalog_headers(kind, key).len() == 1
            && catalog_headers(kind, key)[0].0 == "authorization"@ && starts_with(
            catalog_headers(kind, key)[0].1,
            seq!['B', 'e', 'a', 'r', 'e', 'r', ' '],
        ) && catalog_headers(kind, key)[0].1.skip(7) == key->0,
{
    reveal_strlit("Bearer ");
    if key is Some && kind != RemoteServiceKind::Anthropic {
        let v = catalog_headers(kind, key)[0].1;
        assert(v.take(7) =~= seq!['B', 'e', 'a', 'r', 'e', 'r', ' ']);
        assert(v.skip(7) =~= key->0);
    }
}

/// A catalog is asked for with what was drafted where that says anything, and else with what is stored:
/// its address, and its key. Services without a catalog are not asked.
pub proof fn a_catalog_is_asked_with_the_draft(
    services: Seq<RemoteService>,
    payload: AiServiceIdPayload,
    at: int,
)
    requires
        0 <= at < services.len(),
        services[at].id@ == payload.service_id@,
        forall|k: int| 0 <= k < at ==> (#[trigger] services[k]).id@ != payload.service_id@,
    ensures
        ({
            let s = services[at];
            let plan = catalog_plan(services, payload);
            &&& s.kind == RemoteServiceKind::Azure || s.kind == RemoteServiceKind::Custom ==> plan == Ok::<
                Option<(Seq<char>, Seq<(Seq<char>, Seq<char>)>)>,
                CommandErrorView,
            >(None)
            &&& s.kind == RemoteServiceKind::Google ==> plan is Err
            &&& plan is Ok && plan->Ok_0 is Some ==> {
                let (endpoint, headers) = plan->Ok_0->0;
                &&& payload.base_url is Some && inked(payload.base_url->0@).len() > 0 ==> endpoint
                    == catalog_endpoint(trim(payload.base_url->0@))
                &&& payload.base_url is None ==> s.base_url is Some && endpoint == catalog_endpoint(
                    trim(s.base_url->0@),
                )
                &&& payload.api_key is Some && inked(payload.api_key->0@).len() > 0 ==> headers
                    == catalog_headers(s.kind, Some(trim(payload.api_key->0@)))
                &&& payload.api_key is None && s.api_key is Some && inked(s.api_key->0@).len() > 0
                    ==> headers == catalog_headers(s.kind, Some(trim(s.api_key->0@)))
            }
        }),
{
    let found = a_service_is_found_by_its_id(services, payload.service_id@);
    let s = services[at];
    assert(services[at].id@ == payload.service_id@);
    assert(service_of(services, payload.service_id@) == Some(s)) by {
        if found < at {
            assert(services[found].id@ != payload.service_id@);
        }
    }
    a_draft_goes_before_the_stored_value(opt_view(payload.base_url), opt_view(s.base_url));
    a_draft_goes_before_the_stored_value(opt_view(payload.api_key), opt_view(s.api_key));
}

/// What a service complained of is told by what its message says: of the key, of the model, of the
/// connection or of the address, in this order, and of a quota before them all.
pub proof fn a_complaint_is_told_by_its_words(message: Seq<char>)
    ensures
        ({
            let m = ascii_lower(message);
            let quota = contains(m, "429"@) || contains(m, "quota"@) || contains(m, "rate limit"@);
            let key = contains(m, "401"@) || contains(m, "403"@) || contains(m, "authentication"@)
                || contains(m, "api key"@);
            let model = contains(m, "model"@) && (contains(m, "not found"@) || contains(m, "invalid"@)
                || contains(m, "404"@));
            let link = contains(m, "request failed"@) || contains(m, "connection"@) || contains(
                m,
                "network"@,
            ) || contains(m, "timed out"@) || contains(m, "timeout"@);
            let address = contains(m, "404"@) || contains(m, "endpoint"@) || contains(m, "url"@);
            &&& quota ==> service_error_code(message) == "ai_quota"@
            &&& !quota && key ==> service_error_code(message) == "ai_authentication"@
            &&& !quota && !key && model ==> service_error_code(message) == "ai_model"@
            &&& !quota && !key && !model && link ==> service_error_code(message) == "ai_connection"@
            &&& !quota && !key && !model && !link && address ==> service_error_code(message)
                == "ai_endpoint"@
            &&& !quota && !key && !model && !link && !address ==> service_error_code(message)
                == "ai_service_test"@
        }),
{
}

/// Of a page that can be read every model that is offered is collected, and of any other none.
pub proof fn a_readable_page_offers_its_models(answer: GeminiAnswer, name: Seq<char>)
    ensures
        offered_by(answer_entries(answer), name) <==> 200 <= answer.status < 300 && answer.page is Ok
            && answer.page->Ok_0.models is Some && exists|i: int|
            0 <= i < answer.page->Ok_0.models->0@.len() && offered_name(
                #[trigger] answer.page->Ok_0.models->0@[i],
            ) == Some(name),
{
}

} // verus!
