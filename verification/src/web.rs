//! Request metadata read from HTTP headers, shared by the web adapters.
use vstd::prelude::*;
use crate::text::{split_chars, split_spec, string_from_chars, trim_chars, trim_spec};
use crate::walk::opt_view;

verus! {

/// What a page render knows about its request.
#[derive(Clone, Debug)]
pub struct RequestMetadata {
    pub request_id: Option<String>,
    pub auth_user: Option<String>,
    pub locale: Option<String>,
    pub feature_flags: Vec<String>,
}

impl Default for RequestMetadata {
    fn default() -> (r: Self)
        ensures
            r.request_id is None,
            r.auth_user is None,
            r.locale is None,
            r.feature_flags@.len() == 0,
    {
        RequestMetadata { request_id: None, auth_user: None, locale: None, feature_flags: Vec::new() }
    }
}

/// What a component receives about the request it renders for.
#[derive(Clone, Debug)]
pub struct RenderContext {
    pub metadata: RequestMetadata,
}

impl Default for RenderContext {
    fn default() -> (r: Self)
        ensures
            r.metadata.request_id is None,
            r.metadata.auth_user is None,
            r.metadata.locale is None,
            r.metadata.feature_flags@.len() == 0,
    {
        RenderContext { metadata: RequestMetadata::default() }
    }
}

/// The locale of an `Accept-Language` value: the text before its first
/// `,` (all of it when there is none).
pub open spec fn locale_spec(accept_language: Seq<char>) -> Seq<char> {
    split_spec(accept_language, ',')[0]
}

/// The non-empty trimmed pieces, in order.
pub open spec fn flags_spec(pieces: Seq<Seq<char>>) -> Seq<Seq<char>>
    decreases pieces.len(),
{
    if pieces.len() == 0 {
        Seq::empty()
    } else {
        let t = trim_spec(pieces.last());
        flags_spec(pieces.drop_last()) + if t.len() > 0 {
            seq![t]
        } else {
            Seq::empty()
        }
    }
}

/// The feature flags of an `X-Feature-Flags` value: its `,`-separated
/// pieces, trimmed, without the empty ones.
pub open spec fn feature_flags_spec(raw: Seq<char>) -> Seq<Seq<char>> {
    flags_spec(split_spec(raw, ','))
}

/// The locale of an `Accept-Language` value.
pub fn locale_of(accept_language: &str) -> (r: String)
    ensures
        r@ == locale_spec(accept_language@),
{
    let pieces = split_chars(accept_language, ',');
    proof {
        crate::text::lemma_split_nonempty(accept_language@, ',');
    }
    string_from_chars(&pieces[0])
}

/// The feature flags of an `X-Feature-Flags` value.
pub fn feature_flags_of(raw: &str) -> (r: Vec<String>)
    ensures
        r@.map_values(|f: String| f@) == feature_flags_spec(raw@),
{
    let pieces = split_chars(raw, ',');
    let ghost pv = pieces@.map_values(|p: Vec<char>| p@);
    let mut flags: Vec<String> = Vec::new();
    let mut i: usize = 0;
    assert(pv.take(0) =~= Seq::<Seq<char>>::empty());
    assert(flags@.map_values(|f: String| f@) =~= Seq::<Seq<char>>::empty());
    while i < pieces.len()
        invariant
            i <= pieces.len(),
            pv == pieces@.map_values(|p: Vec<char>| p@),
            flags@.map_values(|f: String| f@) == flags_spec(pv.take(i as int)),
        decreases pieces.len() - i,
    {
        let ghost fv = flags@.map_values(|f: String| f@);
        let trimmed = trim_chars(&pieces[i]);
        proof {
            assert(pv.take(i + 1).drop_last() =~= pv.take(i as int));
            assert(pv.take(i + 1).last() == pieces@[i as int]@);
        }
        if trimmed.len() > 0 {
            let flag = string_from_chars(&trimmed);
            flags.push(flag);
            assert(flags@.map_values(|f: String| f@) =~= fv + seq![trimmed@]);
        } else {
            assert(flags@.map_values(|f: String| f@) =~= fv + Seq::<Seq<char>>::empty());
        }
        i = i + 1;
    }
    assert(pv.take(pieces@.len() as int) =~= pv);
    flags
}

/// Request metadata from the texts of the request's headers: the request
/// id from `X-Request-Id`, the user from `X-Auth-User`, the locale from
/// `Accept-Language` and the feature flags from `X-Feature-Flags`.
pub fn request_metadata_from_values(
    request_id: Option<String>,
    auth_user: Option<String>,
    accept_language: Option<String>,
    feature_flags: Option<String>,
) -> (m: RequestMetadata)
    ensures
        opt_view(m.request_id) == opt_view(request_id),
        opt_view(m.auth_user) == opt_view(auth_user),
        opt_view(m.locale) == match accept_language {
            Some(v) => Some(locale_spec(v@)),
            None => None,
        },
        m.feature_flags@.map_values(|f: String| f@) == match feature_flags {
            Some(raw) => feature_flags_spec(raw@),
            None => Seq::empty(),
        },
{
    let locale = match &accept_language {
        Some(value) => Some(locale_of(value.as_str())),
        None => None,
    };
    let flags = match &feature_flags {
        Some(raw) => feature_flags_of(raw.as_str()),
        None => {
            let v: Vec<String> = Vec::new();
            assert(v@.map_values(|f: String| f@) =~= Seq::<Seq<char>>::empty());
            v
        },
    };
    RequestMetadata { request_id, auth_user, locale, feature_flags: flags }
}

/// The header map of the `http` crate (as `axum` uses it), known to Verus
/// only by name; its contents are `header_map_values`.
#[verifier::external_type_specification]
#[verifier::external_body]
#[verifier::reject_recursive_types(T)]
pub struct ExHttpHeaderMap<T>(axum::http::HeaderMap<T>);

/// A header value of the `http` crate; its bytes are `header_value_bytes`.
#[verifier::external_type_specification]
#[verifier::external_body]
pub struct ExHttpHeaderValue(axum::http::HeaderValue);

/// An `actix-web` request; its headers are `request_header_values`.
#[verifier::external_type_specification]
#[verifier::external_body]
pub struct ExActixRequest(actix_web::HttpRequest);

/// A header value as `actix-web` re-exports it; its bytes are
/// `actix_header_value_bytes`.
#[verifier::external_type_specification]
#[verifier::external_body]
pub struct ExActixHeaderValue(actix_web::http::header::HeaderValue);

/// The values held under each (lower-case) header name of an `http`
/// header map, in the order they were added.
pub uninterp spec fn header_map_values(headers: axum::http::HeaderMap) -> Map<Seq<char>, Seq<Seq<u8>>>;

/// The bytes of an `http` header value.
pub uninterp spec fn header_value_bytes(value: axum::http::HeaderValue) -> Seq<u8>;

/// The values held under each (lower-case) header name of an `actix-web`
/// request, in the order they were added.
pub uninterp spec fn request_header_values(req: actix_web::HttpRequest) -> Map<Seq<char>, Seq<Seq<u8>>>;

/// The bytes of an `actix-web` header value.
pub uninterp spec fn actix_header_value_bytes(value: actix_web::http::header::HeaderValue) -> Seq<u8>;

/// Whether a name is a header name in lower case: letters, digits and `-`.
pub open spec fn is_lower_header_name(name: Seq<char>) -> bool {
    name.len() > 0 && forall|i: int|
        0 <= i < name.len() ==> {
            let c = #[trigger] name[i];
            ('a' <= c && c <= 'z') || ('0' <= c && c <= '9') || c == '-'
        }
}

/// Whether a header byte is visible ASCII or a tab.
pub open spec fn is_visible_ascii(b: u8) -> bool {
    (32 <= b && b < 127) || b == 9
}

/// The text of header bytes, when every byte is visible ASCII or a tab.
pub open spec fn header_bytes_text(bytes: Seq<u8>) -> Option<Seq<char>> {
    if forall|i: int| 0 <= i < bytes.len() ==> is_visible_ascii(#[trigger] bytes[i]) {
        Some(bytes.map_values(|b: u8| b as char))
    } else {
        None
    }
}

/// The text of the first value held under a header name, when there is one
/// and it is text.
pub open spec fn header_text(values: Map<Seq<char>, Seq<Seq<u8>>>, name: Seq<char>) -> Option<Seq<char>> {
    if values.contains_key(name) && values[name].len() > 0 {
        header_bytes_text(values[name][0])
    } else {
        None
    }
}

/// `HeaderMap::get` of the `http` crate with a lower-case name: the first
/// value held under the name, if any.
#[verifier::external_body]
fn header_map_get<'a>(headers: &'a axum::http::HeaderMap, name: &str) -> (r: Option<&'a axum::http::HeaderValue>)
    requires
        is_lower_header_name(name@),
    ensures
        r is Some <==> (header_map_values(*headers).contains_key(name@) && header_map_values(
            *headers,
        )[name@].len() > 0),
        r matches Some(v) ==> header_value_bytes(*v) == header_map_values(*headers)[name@][0],
{
    headers.get(name)
}

/// `HeaderValue::to_str` of the `http` crate, copied into a `String`: the
/// text of the value when every byte is visible ASCII or a tab.
#[verifier::external_body]
fn header_value_text(value: &axum::http::HeaderValue) -> (r: Option<String>)
    ensures
        opt_view(r) == header_bytes_text(header_value_bytes(*value)),
{
    match value.to_str() {
        Ok(text) => Some(text.to_string()),
        Err(_) => None,
    }
}

/// `HttpRequest::headers` then `HeaderMap::get` of `actix-web` with a
/// lower-case name: the first value held under the name, if any.
#[verifier::external_body]
fn request_header_get<'a>(req: &'a actix_web::HttpRequest, name: &str) -> (r: Option<&'a actix_web::http::header::HeaderValue>)
    requires
        is_lower_header_name(name@),
    ensures
        r is Some <==> (request_header_values(*req).contains_key(name@) && request_header_values(
            *req,
        )[name@].len() > 0),
        r matches Some(v) ==> actix_header_value_bytes(*v) == request_header_values(*req)[name@][0],
{
    req.headers().get(name)
}

/// `HeaderValue::to_str` as `actix-web` re-exports it, copied into a
/// `String`: the text of the value when every byte is visible ASCII or a
/// tab.
#[verifier::external_body]
fn actix_header_value_text(value: &actix_web::http::header::HeaderValue) -> (r: Option<String>)
    ensures
        opt_view(r) == header_bytes_text(actix_header_value_bytes(*value)),
{
    match value.to_str() {
        Ok(text) => Some(text.to_string()),
        Err(_) => None,
    }
}

/// The text of the first value of a header, if it is text.
fn header_value(headers: &axum::http::HeaderMap, name: &str) -> (r: Option<String>)
    requires
        is_lower_header_name(name@),
    ensures
        opt_view(r) == header_text(header_map_values(*headers), name@),
{
    match header_map_get(headers, name) {
        Some(value) => header_value_text(value),
        None => None,
    }
}

/// The text of the first value of a request header, if it is text.
fn request_header_value(req: &actix_web::HttpRequest, name: &str) -> (r: Option<String>)
    requires
        is_lower_header_name(name@),
    ensures
        opt_view(r) == header_text(request_header_values(*req), name@),
{
    match request_header_get(req, name) {
        Some(value) => actix_header_value_text(value),
        None => None,
    }
}

/// The metadata that the header texts of a request give.
pub open spec fn metadata_spec(values: Map<Seq<char>, Seq<Seq<u8>>>) -> (
    Option<Seq<char>>,
    Option<Seq<char>>,
    Option<Seq<char>>,
    Seq<Seq<char>>,
) {
    (
        header_text(values, "x-request-id"@),
        header_text(values, "x-auth-user"@),
        match header_text(values, "accept-language"@) {
            Some(v) => Some(locale_spec(v)),
            None => None,
        },
        match header_text(values, "x-feature-flags"@) {
            Some(raw) => feature_flags_spec(raw),
            None => Seq::empty(),
        },
    )
}

/// The view of request metadata.
pub open spec fn metadata_view(m: RequestMetadata) -> (
    Option<Seq<char>>,
    Option<Seq<char>>,
    Option<Seq<char>>,
    Seq<Seq<char>>,
) {
    (
        opt_view(m.request_id),
        opt_view(m.auth_user),
        opt_view(m.locale),
        m.feature_flags@.map_values(|f: String| f@),
    )
}

/// Whether the four header names are lower-case header names.
proof fn lemma_header_names()
    ensures
        is_lower_header_name("x-request-id"@),
        is_lower_header_name("x-auth-user"@),
        is_lower_header_name("accept-language"@),
        is_lower_header_name("x-feature-flags"@),
{
    reveal_strlit("x-request-id");
    reveal_strlit("x-auth-user");
    reveal_strlit("accept-language");
    reveal_strlit("x-feature-flags");
}

/// Request metadata from an `http` header map.
pub fn request_metadata_from_headers(headers: &axum::http::HeaderMap) -> (m: RequestMetadata)
    ensures
        metadata_view(m) == metadata_spec(header_map_values(*headers)),
{
    proof {
        lemma_header_names();
    }
    let request_id = header_value(headers, "x-request-id");
    let auth_user = header_value(headers, "x-auth-user");
    let accept_language = header_value(headers, "accept-language");
    let feature_flags = header_value(headers, "x-feature-flags");
    request_metadata_from_values(request_id, auth_user, accept_language, feature_flags)
}

/// Request metadata from an `actix-web` request.
pub fn request_metadata_from_request(req: &actix_web::HttpRequest) -> (m: RequestMetadata)
    ensures
        metadata_view(m) == metadata_spec(request_header_values(*req)),
{
    proof {
        lemma_header_names();
    }
    let request_id = request_header_value(req, "x-request-id");
    let auth_user = request_header_value(req, "x-auth-user");
    let accept_language = request_header_value(req, "accept-language");
    let feature_flags = request_header_value(req, "x-feature-flags");
    request_metadata_from_values(request_id, auth_user, accept_language, feature_flags)
}

/// A middleware layer that reads request metadata from the headers of each
/// request before the wrapped service sees it.
#[derive(Clone, Copy, Debug, Default)]
pub struct RequestMetadataLayer;

/// The service that a `RequestMetadataLayer` wraps around `inner`.
#[derive(Clone, Debug)]
pub struct RequestMetadataService<S> {
    inner: S,
}

impl RequestMetadataLayer {
    /// Wraps a service.
    pub fn layer<S>(&self, inner: S) -> (r: RequestMetadataService<S>)
        ensures
            r.inner() == inner,
    {
        RequestMetadataService { inner }
    }
}

impl<S> RequestMetadataService<S> {
    /// The wrapped service.
    pub closed spec fn inner(&self) -> S {
        self.inner
    }

    /// The wrapped service.
    pub fn get_ref(&self) -> (r: &S)
        ensures
            *r == self.inner(),
    {
        &self.inner
    }

    /// The wrapped service, taken out.
    pub fn into_inner(self) -> (r: S)
        ensures
            r == self.inner(),
    {
        self.inner
    }
}

/// Every feature flag is non-empty, holds no `,`, and neither starts nor
/// ends with white space; a locale holds no `,`.
pub proof fn lemma_metadata_texts_are_clean(raw: Seq<char>, accept_language: Seq<char>)
    ensures
        forall|k: int| 0 <= k < feature_flags_spec(raw).len() ==> {
            let f = #[trigger] feature_flags_spec(raw)[k];
            &&& f.len() > 0
            &&& !crate::text::is_white_space_spec(f[0])
            &&& !crate::text::is_white_space_spec(f.last())
            &&& forall|j: int| 0 <= j < f.len() ==> f[j] != ','
        },
        forall|j: int| 0 <= j < locale_spec(accept_language).len() ==> #[trigger] locale_spec(accept_language)[j] != ',',
{
    crate::text::lemma_split_pieces_lack_sep(raw, ',');
    crate::text::lemma_split_pieces_lack_sep(accept_language, ',');
    crate::text::lemma_split_nonempty(accept_language, ',');
    let pieces = split_spec(raw, ',');
    lemma_flags_clean(pieces);
    assert forall|j: int| 0 <= j < locale_spec(accept_language).len() implies #[trigger] locale_spec(accept_language)[j] != ',' by {
        assert(split_spec(accept_language, ',')[0][j] == locale_spec(accept_language)[j]);
    }
}

/// The flags of comma-free pieces are clean.
proof fn lemma_flags_clean(pieces: Seq<Seq<char>>)
    requires
        forall|k: int, j: int| 0 <= k < pieces.len() && 0 <= j < pieces[k].len() ==> #[trigger] pieces[k][j] != ',',
    ensures
        forall|k: int| 0 <= k < flags_spec(pieces).len() ==> {
            let f = #[trigger] flags_spec(pieces)[k];
            &&& f.len() > 0
            &&& !crate::text::is_white_space_spec(f[0])
            &&& !crate::text::is_white_space_spec(f.last())
            &&& forall|j: int| 0 <= j < f.len() ==> f[j] != ','
        },
    decreases pieces.len(),
{
    if pieces.len() > 0 {
        let init = pieces.drop_last();
        assert forall|k: int, j: int| 0 <= k < init.len() && 0 <= j < init[k].len() implies #[trigger] init[k][j] != ',' by {
            assert(init[k] == pieces[k]);
        }
        lemma_flags_clean(init);
        let p = pieces.last();
        let t = trim_spec(p);
        lemma_trim_is_clean_slice(p);
        let prev = flags_spec(init);
        assert forall|k: int| 0 <= k < flags_spec(pieces).len() implies {
            let f = #[trigger] flags_spec(pieces)[k];
            &&& f.len() > 0
            &&& !crate::text::is_white_space_spec(f[0])
            &&& !crate::text::is_white_space_spec(f.last())
            &&& forall|j: int| 0 <= j < f.len() ==> f[j] != ','
        } by {
            if k < prev.len() {
                assert(flags_spec(pieces)[k] == prev[k]);
            } else {
                assert(flags_spec(pieces)[k] == t);
                assert forall|j: int| 0 <= j < t.len() implies t[j] != ',' by {
                    let j0 = choose|j0: int| 0 <= j0 < p.len() && p[j0] == t[j];
                    assert(pieces[pieces.len() - 1][j0] == p[j0]);
                }
            }
        }
    }
}

/// A trimmed text neither starts nor ends with white space, and each of its
/// characters comes from the text.
proof fn lemma_trim_is_clean_slice(s: Seq<char>)
    ensures
        trim_spec(s).len() > 0 ==> !crate::text::is_white_space_spec(trim_spec(s)[0])
            && !crate::text::is_white_space_spec(trim_spec(s).last()),
        forall|j: int| 0 <= j < trim_spec(s).len() ==> exists|i: int| 0 <= i < s.len() && s[i] == #[trigger] trim_spec(s)[j],
{
    lemma_trim_start_slice(s);
    lemma_trim_end_slice(crate::text::trim_start_spec(s));
    let a = crate::text::trim_start_spec(s);
    let b = trim_spec(s);
    assert forall|j: int| 0 <= j < b.len() implies exists|i: int| 0 <= i < s.len() && s[i] == #[trigger] b[j] by {
        assert(b[j] == a[j]);
        let i = choose|i: int| 0 <= i < s.len() && s[i] == a[j];
    }
    if b.len() > 0 {
        assert(b[0] == a[0]);
    }
}

/// Trimming the start keeps a suffix that does not start with white space.
proof fn lemma_trim_start_slice(s: Seq<char>)
    ensures
        crate::text::trim_start_spec(s).len() > 0 ==> !crate::text::is_white_space_spec(crate::text::trim_start_spec(s)[0]),
        crate::text::trim_start_spec(s).len() <= s.len(),
        forall|j: int| 0 <= j < crate::text::trim_start_spec(s).len() ==> crate::text::trim_start_spec(s)[j]
            == #[trigger] s[j + s.len() - crate::text::trim_start_spec(s).len()],
        forall|j: int| 0 <= j < crate::text::trim_start_spec(s).len() ==> exists|i: int| 0 <= i < s.len() && s[i]
            == #[trigger] crate::text::trim_start_spec(s)[j],
    decreases s.len(),
{
    if s.len() > 0 && crate::text::is_white_space_spec(s[0]) {
        lemma_trim_start_slice(s.drop_first());
        let t = crate::text::trim_start_spec(s);
        assert forall|j: int| 0 <= j < t.len() implies t[j] == #[trigger] s[j + s.len() - t.len()] by {
            assert(t[j] == s.drop_first()[j + s.drop_first().len() - t.len()]);
            assert(s.drop_first()[j + s.drop_first().len() - t.len()] == s[j + s.len() - t.len()]);
        }
        assert forall|j: int| 0 <= j < t.len() implies exists|i: int| 0 <= i < s.len() && s[i] == #[trigger] t[j] by {
            assert(s[j + s.len() - t.len()] == t[j]);
        }
    } else {
        let t = crate::text::trim_start_spec(s);
        assert forall|j: int| 0 <= j < t.len() implies exists|i: int| 0 <= i < s.len() && s[i] == #[trigger] t[j] by {
            assert(s[j] == t[j]);
        }
    }
}

/// Trimming the end keeps a prefix that does not end with white space.
proof fn lemma_trim_end_slice(s: Seq<char>)
    ensures
        crate::text::trim_end_spec(s).len() > 0 ==> !crate::text::is_white_space_spec(crate::text::trim_end_spec(s).last()),
        crate::text::trim_end_spec(s).len() <= s.len(),
        forall|j: int| 0 <= j < crate::text::trim_end_spec(s).len() ==> crate::text::trim_end_spec(s)[j] == #[trigger] s[j],
    decreases s.len(),
{
    if s.len() > 0 && crate::text::is_white_space_spec(s.last()) {
        lemma_trim_end_slice(s.drop_last());
        let t = crate::text::trim_end_spec(s);
        assert forall|j: int| 0 <= j < t.len() implies t[j] == #[trigger] s[j] by {
            assert(s.drop_last()[j] == s[j]);
        }
    }
}

} // verus!
