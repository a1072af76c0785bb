//! The CORS settings of a middleware and the checks that they make of a
//! request: whether its origin is allowed, whether the method and headers that
//! a preflight request asks for are allowed, which origin a response allows,
//! and the `Vary` header that a CORS response carries.
use vstd::prelude::*;
use actix_web::http::header::HeaderMap;
use crate::bytes::{
    byte_strings, is_visible_ascii, split_commas, trim, join_list, contains_bytes, visible_ascii,
    split_on_commas, trim_bytes, join_with_commas, append_bytes, lemma_join_header_value,
};
use crate::headers::{
    HeaderEntries, header_entries, first_value, set_header, is_method, is_header_value,
    parsed_header_name, header_get, header_insert, parse_method, parse_header_name, is_lower_name,
    is_lower_name_byte,
};
use crate::names::{
    lemma_names, origin_key, request_method_key, request_headers_key, vary_key, vary_list,
    vary_suffix, basic_vary_suffix, private_network_vary_entry, wildcard_value,
};

verus! {

/// Either every value is allowed, or only those of a given collection.
#[derive(Debug)]
pub enum AllOrSome<T> {
    /// Every value is allowed.
    All,
    /// Only these values are allowed.
    Only(T),
}

/// Why a request was refused.
#[derive(Debug, Clone, Copy, PartialEq, Eq, Structural)]
pub enum CorsError {
    /// The wildcard `*` was given as a single allowed origin.
    WildcardOrigin,
    /// The request has no `Origin` header though one is required.
    MissingOrigin,
    /// The preflight request has no `Access-Control-Request-Method` header.
    MissingRequestMethod,
    /// The `Access-Control-Request-Method` header does not name a method.
    BadRequestMethod,
    /// The `Access-Control-Request-Headers` header is not a list of header names.
    BadRequestHeaders,
    /// The origin is not allowed.
    OriginNotAllowed,
    /// The requested method is not allowed.
    MethodNotAllowed,
    /// One or more requested headers are not allowed.
    HeadersNotAllowed,
}

/// The CORS settings of a middleware.
///
/// Origins, methods and header names are held as bytes; the `*_baked` values
/// are the header values sent in responses.
#[derive(Debug)]
pub struct Inner {
    /// The origins that are allowed, byte for byte.
    pub allowed_origins: AllOrSome<Vec<Vec<u8>>>,
    /// Whether origin predicates (functions of the origin and the request)
    /// are configured beside the list of origins.
    pub has_origin_fns: bool,
    /// The methods that preflight requests may ask for.
    pub allowed_methods: Vec<Vec<u8>>,
    /// The `Access-Control-Allow-Methods` value, if any.
    pub allowed_methods_baked: Option<Vec<u8>>,
    /// The header names (lower-case) that preflight requests may ask for.
    pub allowed_headers: AllOrSome<Vec<Vec<u8>>>,
    /// The `Access-Control-Allow-Headers` value, if any.
    pub allowed_headers_baked: Option<Vec<u8>>,
    /// The response headers exposed to the client; `All` exposes every
    /// header of the response.
    pub expose_headers: AllOrSome<Vec<Vec<u8>>>,
    /// The `Access-Control-Expose-Headers` value, if any.
    pub expose_headers_baked: Option<Vec<u8>>,
    /// The `Access-Control-Max-Age` of preflight responses, in seconds.
    pub max_age: Option<usize>,
    /// Whether preflight requests are answered by the middleware.
    pub preflight: bool,
    /// Whether `*` is sent in place of the origin when every origin is allowed.
    pub send_wildcard: bool,
    /// Whether `Access-Control-Allow-Credentials: true` is sent.
    pub supports_credentials: bool,
    /// Whether the CORS request headers are added to `Vary`.
    pub vary_header: bool,
    /// Whether a request from an origin that is not allowed is refused.
    pub block_on_origin_mismatch: bool,
    /// Private network access: `None` where it is not supported (its
    /// headers are then never read nor sent, and `Vary` does not list its
    /// request header); else whether it is allowed.
    pub private_network_access: Option<bool>,
}

/// The bytes of an optional byte vector.
pub open spec fn opt_bytes(o: Option<Vec<u8>>) -> Option<Seq<u8>> {
    match o {
        Some(v) => Some(v@),
        None => None,
    }
}

/// An optional header value holds only header-value bytes.
pub open spec fn opt_header_value(o: Option<Vec<u8>>) -> bool {
    match o {
        Some(v) => is_header_value(v@),
        None => true,
    }
}

/// The method that a header value names: its bytes when they spell a method.
pub open spec fn method_of(v: Seq<u8>) -> Option<Seq<u8>> {
    if is_method(v) {
        Some(v)
    } else {
        None
    }
}

/// The outcome of checking the list of requested header names in `v`
/// against the `allowed` names: the list must be text, every comma-separated
/// entry (trimmed) must be a header name, and every name must be allowed.
pub open spec fn header_list_check(allowed: Seq<Seq<u8>>, v: Seq<u8>) -> Result<(), CorsError> {
    let pieces = split_commas(v);
    if !is_visible_ascii(v) {
        Err(CorsError::BadRequestHeaders)
    } else if exists|i: int|
        0 <= i < pieces.len() && #[trigger] parsed_header_name(trim(pieces[i])) is None {
        Err(CorsError::BadRequestHeaders)
    } else if exists|i: int|
        0 <= i < pieces.len() && !allowed.contains(
            (#[trigger] parsed_header_name(trim(pieces[i])))->0,
        ) {
        Err(CorsError::HeadersNotAllowed)
    } else {
        Ok(())
    }
}

/// The `Vary` header after the CORS request headers (with the private
/// network access one, where that is supported) are added to it: they follow
/// the first existing value, or stand alone.
pub open spec fn with_vary(m: HeaderEntries, private_network: bool) -> HeaderEntries {
    set_header(
        m,
        vary_key(),
        match first_value(m, vary_key()) {
            Some(v) => v + vary_suffix(private_network),
            None => vary_list(private_network),
        },
    )
}

/// The list holds no byte string twice.
pub open spec fn distinct(list: Seq<Vec<u8>>) -> bool {
    byte_strings(list).no_duplicates()
}

/// A list of header names: distinct, each in its lower-case form.
pub open spec fn header_name_list(list: Seq<Vec<u8>>) -> bool {
    &&& distinct(list)
    &&& forall|i: int| 0 <= i < list.len() ==> is_lower_name(#[trigger] list[i]@)
}

/// A list of allowed headers or exposed headers: every one, or distinct
/// lower-case header names.
pub open spec fn header_names_setting(s: AllOrSome<Vec<Vec<u8>>>) -> bool {
    match s {
        AllOrSome::All => true,
        AllOrSome::Only(list) => header_name_list(list@),
    }
}

impl Inner {
    /// The settings hold what their sets of values would: the header values
    /// are valid header values, the listed origins are distinct, the methods
    /// are distinct methods, and the header names are distinct and lower-case.
    pub open spec fn wf(&self) -> bool {
        &&& opt_header_value(self.allowed_methods_baked)
        &&& opt_header_value(self.allowed_headers_baked)
        &&& opt_header_value(self.expose_headers_baked)
        &&& (self.allowed_origins matches AllOrSome::Only(list) ==> distinct(list@))
        &&& distinct(self.allowed_methods@)
        &&& forall|i: int|
            0 <= i < self.allowed_methods@.len() ==> is_method(#[trigger] self.allowed_methods@[i]@)
        &&& header_names_setting(self.allowed_headers)
        &&& header_names_setting(self.expose_headers)
    }

    /// Whether private network access is supported.
    pub open spec fn supports_private_network(&self) -> bool {
        self.private_network_access is Some
    }

    /// Whether private network access is allowed.
    pub open spec fn allows_private_network(&self) -> bool {
        self.private_network_access == Some(true)
    }

    /// Whether the origin is in the list of allowed origins.
    pub open spec fn origin_listed(&self, origin: Seq<u8>) -> bool {
        match self.allowed_origins {
            AllOrSome::All => false,
            AllOrSome::Only(list) => byte_strings(list@).contains(origin),
        }
    }

    /// Whether every origin is allowed without asking any origin predicate.
    pub open spec fn allows_every_origin(&self) -> bool {
        self.allowed_origins is All && !self.has_origin_fns
    }

    /// Whether checking the origin of a request with headers `req` asks the
    /// origin predicates.
    pub open spec fn consults_origin_fns(&self, req: HeaderEntries) -> bool {
        &&& !self.allows_every_origin()
        &&& first_value(req, origin_key()) matches Some(o) && !self.origin_listed(o)
    }

    /// The outcome of checking the origin of a request with headers `req`,
    /// where `fns_accept` tells whether some origin predicate accepts it:
    /// `Ok(b)` tells whether the response may allow the origin.
    pub open spec fn origin_check(&self, req: HeaderEntries, fns_accept: bool) -> Result<bool, CorsError> {
        if self.allows_every_origin() {
            Ok(true)
        } else {
            match first_value(req, origin_key()) {
                None => Err(CorsError::MissingOrigin),
                Some(o) => if self.origin_listed(o) || fns_accept {
                    Ok(true)
                } else if self.block_on_origin_mismatch {
                    Err(CorsError::OriginNotAllowed)
                } else {
                    Ok(false)
                },
            }
        }
    }

    /// The `Access-Control-Allow-Origin` value for a request with headers
    /// `req` whose origin is allowed: `*` when every origin is allowed and the
    /// wildcard is sent, else the request's own origin (if it has one).
    pub open spec fn allow_origin_value(&self, req: HeaderEntries) -> Option<Seq<u8>> {
        match self.allowed_origins {
            AllOrSome::All => if self.send_wildcard {
                Some(wildcard_value())
            } else {
                first_value(req, origin_key())
            },
            AllOrSome::Only(_) => first_value(req, origin_key()),
        }
    }

    /// The outcome of checking the method that a preflight request with
    /// headers `req` asks for.
    pub open spec fn method_check(&self, req: HeaderEntries) -> Result<(), CorsError> {
        match first_value(req, request_method_key()) {
            None => Err(CorsError::MissingRequestMethod),
            Some(v) => match method_of(v) {
                None => Err(CorsError::BadRequestMethod),
                Some(m) => if byte_strings(self.allowed_methods@).contains(m) {
                    Ok(())
                } else {
                    Err(CorsError::MethodNotAllowed)
                },
            },
        }
    }

    /// The outcome of checking the headers that a preflight request with
    /// headers `req` asks for.
    pub open spec fn headers_check(&self, req: HeaderEntries) -> Result<(), CorsError> {
        match self.allowed_headers {
            AllOrSome::All => Ok(()),
            AllOrSome::Only(list) => match first_value(req, request_headers_key()) {
                None => Ok(()),
                Some(v) => header_list_check(byte_strings(list@), v),
            },
        }
    }

    /// Whether the header values that the settings hold are valid.
    pub fn is_well_formed(&self) -> (r: bool)
        ensures
            r == self.wf(),
    {
        let origins_ok = match &self.allowed_origins {
            AllOrSome::All => true,
            AllOrSome::Only(list) => all_distinct(list),
        };
        opt_valid_value(&self.allowed_methods_baked) && opt_valid_value(&self.allowed_headers_baked)
            && opt_valid_value(&self.expose_headers_baked) && origins_ok && all_distinct(
            &self.allowed_methods,
        ) && all_methods(&self.allowed_methods) && names_setting_ok(&self.allowed_headers)
            && names_setting_ok(&self.expose_headers)
    }

    /// Whether checking the origin of this request asks the origin
    /// predicates; they are asked only then.
    pub fn origin_fns_consulted(&self, req: &HeaderMap) -> (r: bool)
        ensures
            r == self.consults_origin_fns(header_entries(*req)),
    {
        proof {
            lemma_names();
        }
        if matches!(self.allowed_origins, AllOrSome::All) && !self.has_origin_fns {
            return false;
        }
        match header_get(req, "origin") {
            None => false,
            Some(o) => !self.lists_origin(&o),
        }
    }

    fn lists_origin(&self, origin: &Vec<u8>) -> (r: bool)
        ensures
            r == self.origin_listed(origin@),
    {
        match &self.allowed_origins {
            AllOrSome::All => false,
            AllOrSome::Only(list) => contains_bytes(list, origin.as_slice()),
        }
    }

    /// Checks the origin of a request; `origin_fns_accept` tells whether some
    /// origin predicate accepts the origin. `Ok(b)` tells whether the response
    /// may allow the origin.
    pub fn validate_origin(&self, req: &HeaderMap, origin_fns_accept: bool) -> (r: Result<
        bool,
        CorsError,
    >)
        ensures
            r == self.origin_check(header_entries(*req), origin_fns_accept),
    {
        proof {
            lemma_names();
        }
        if matches!(self.allowed_origins, AllOrSome::All) && !self.has_origin_fns {
            return Ok(true);
        }
        match header_get(req, "origin") {
            Some(origin) => {
                if self.lists_origin(&origin) || origin_fns_accept {
                    Ok(true)
                } else if self.block_on_origin_mismatch {
                    Err(CorsError::OriginNotAllowed)
                } else {
                    Ok(false)
                }
            },
            None => Err(CorsError::MissingOrigin),
        }
    }

    /// The `Access-Control-Allow-Origin` value for a request whose origin is
    /// allowed.
    pub fn access_control_allow_origin(&self, req: &HeaderMap) -> (r: Option<Vec<u8>>)
        ensures
            opt_bytes(r) == self.allow_origin_value(header_entries(*req)),
            opt_header_value(r),
    {
        proof {
            lemma_names();
        }
        match &self.allowed_origins {
            AllOrSome::All => {
                if self.send_wildcard {
                    let mut w: Vec<u8> = Vec::new();
                    w.push(42u8);
                    assert(w@ =~= wildcard_value());
                    Some(w)
                } else {
                    header_get(req, "origin")
                }
            },
            AllOrSome::Only(_) => header_get(req, "origin"),
        }
    }

    /// Checks the method that a preflight request asks for.
    pub fn validate_allowed_method(&self, req: &HeaderMap) -> (r: Result<(), CorsError>)
        ensures
            r == self.method_check(header_entries(*req)),
    {
        proof {
            lemma_names();
        }
        match header_get(req, "access-control-request-method") {
            None => Err(CorsError::MissingRequestMethod),
            Some(v) => match header_value_try_into_method(v.as_slice()) {
                None => Err(CorsError::BadRequestMethod),
                Some(m) => {
                    if contains_bytes(&self.allowed_methods, m.as_slice()) {
                        Ok(())
                    } else {
                        Err(CorsError::MethodNotAllowed)
                    }
                },
            },
        }
    }

    /// Checks the headers that a preflight request asks for.
    pub fn validate_allowed_headers(&self, req: &HeaderMap) -> (r: Result<(), CorsError>)
        ensures
            r == self.headers_check(header_entries(*req)),
    {
        proof {
            lemma_names();
        }
        match &self.allowed_headers {
            AllOrSome::All => Ok(()),
            AllOrSome::Only(allowed) => match header_get(req, "access-control-request-headers") {
                None => Ok(()),
                Some(v) => check_header_list(allowed, v.as_slice()),
            },
        }
    }
}

fn opt_valid_value(o: &Option<Vec<u8>>) -> (r: bool)
    ensures
        r == opt_header_value(*o),
{
    match o {
        Some(v) => header_value_bytes(v.as_slice()),
        None => true,
    }
}

/// Whether no byte string occurs twice in the list.
pub fn all_distinct(list: &Vec<Vec<u8>>) -> (r: bool)
    ensures
        r == distinct(list@),
{
    let ghost s = byte_strings(list@);
    let mut i: usize = 0;
    while i < list.len()
        invariant
            s == byte_strings(list@),
            i <= list@.len(),
            forall|a: int, b: int| 0 <= a < b < i ==> s[a] != s[b],
        decreases list@.len() - i,
    {
        let mut j: usize = 0;
        while j < i
            invariant
                s == byte_strings(list@),
                j <= i < list@.len(),
                forall|a: int, b: int| 0 <= a < b < i ==> s[a] != s[b],
                forall|a: int| 0 <= a < j ==> s[a] != s[i as int],
            decreases i - j,
        {
            if crate::bytes::bytes_eq(list[j].as_slice(), list[i].as_slice()) {
                assert(s[j as int] == s[i as int]);
                return false;
            }
            j = j + 1;
        }
        i = i + 1;
    }
    assert forall|a: int, b: int| 0 <= a < s.len() && 0 <= b < s.len() && a != b implies s[a] != s[b] by {
        if a > b {
            assert(s[b] != s[a]);
        }
    }
    true
}

/// Whether every entry of the list spells a method.
fn all_methods(list: &Vec<Vec<u8>>) -> (r: bool)
    ensures
        r == forall|i: int| 0 <= i < list@.len() ==> is_method(#[trigger] list@[i]@),
{
    let mut i: usize = 0;
    while i < list.len()
        invariant
            i <= list@.len(),
            forall|k: int| 0 <= k < i ==> is_method(#[trigger] list@[k]@),
        decreases list@.len() - i,
    {
        if parse_method(list[i].as_slice()).is_none() {
            return false;
        }
        i = i + 1;
    }
    true
}

/// Whether the bytes are a header name in its lower-case form.
pub fn lower_header_name(s: &[u8]) -> (r: bool)
    ensures
        r == is_lower_name(s@),
{
    if s.len() == 0 || s.len() > 65535 {
        return false;
    }
    let mut i: usize = 0;
    while i < s.len()
        invariant
            i <= s@.len(),
            forall|k: int| 0 <= k < i ==> #[trigger] is_lower_name_byte(s@[k]),
        decreases s@.len() - i,
    {
        let b = s[i];
        if !((33 <= b && b <= 39) || b == 42 || b == 43 || b == 45 || b == 46 || (48 <= b && b <= 57)
            || (94 <= b && b <= 122) || b == 124 || b == 126) {
            assert(!is_lower_name_byte(s@[i as int]));
            return false;
        }
        i = i + 1;
    }
    true
}

fn names_setting_ok(setting: &AllOrSome<Vec<Vec<u8>>>) -> (r: bool)
    ensures
        r == header_names_setting(*setting),
{
    match setting {
        AllOrSome::All => true,
        AllOrSome::Only(list) => {
            if !all_distinct(list) {
                return false;
            }
            let mut i: usize = 0;
            while i < list.len()
                invariant
                    *setting == AllOrSome::Only(*list),
                    i <= list@.len(),
                    forall|k: int| 0 <= k < i ==> is_lower_name(#[trigger] list@[k]@),
                decreases list@.len() - i,
            {
                if !lower_header_name(list[i].as_slice()) {
                    assert(!is_lower_name(list@[i as int]@));
                    return false;
                }
                i = i + 1;
            }
            true
        },
    }
}

/// Whether the bytes make a valid header value.
pub fn header_value_bytes(s: &[u8]) -> (r: bool)
    ensures
        r == is_header_value(s@),
{
    let mut i: usize = 0;
    while i < s.len()
        invariant
            i <= s@.len(),
            forall|j: int| 0 <= j < i ==> crate::headers::is_value_byte(s@[j]),
        decreases s@.len() - i,
    {
        if !((s[i] >= 32 && s[i] != 127) || s[i] == 9) {
            assert(!crate::headers::is_value_byte(s@[i as int]));
            return false;
        }
        i = i + 1;
    }
    true
}

/// The method that a header value names, if it names one: the value must be
/// text and spell a method.
pub fn header_value_try_into_method(v: &[u8]) -> (r: Option<Vec<u8>>)
    ensures
        opt_bytes(r) == method_of(v@),
{
    if !visible_ascii(v) {
        proof {
            if is_method(v@) {
                assert forall|i: int| 0 <= i < v@.len() implies crate::bytes::is_visible_byte(
                    v@[i],
                ) by {
                    assert(crate::headers::is_method_byte(v@[i]));
                }
            }
        }
        return None;
    }
    parse_method(v)
}

/// Checks a list of requested header names against the allowed names.
fn check_header_list(allowed: &Vec<Vec<u8>>, v: &[u8]) -> (r: Result<(), CorsError>)
    ensures
        r == header_list_check(byte_strings(allowed@), v@),
{
    if !visible_ascii(v) {
        return Err(CorsError::BadRequestHeaders);
    }
    let pieces = split_on_commas(v);
    let ghost sp = split_commas(v@);
    let mut names: Vec<Vec<u8>> = Vec::new();
    let mut i: usize = 0;
    while i < pieces.len()
        invariant
            is_visible_ascii(v@),
            sp == split_commas(v@),
            byte_strings(pieces@) == sp,
            i <= pieces@.len(),
            names@.len() == i,
            forall|j: int|
                0 <= j < i ==> parsed_header_name(trim(#[trigger] sp[j])) == Some(names@[j]@),
        decreases pieces@.len() - i,
    {
        let t = trim_bytes(pieces[i].as_slice());
        assert(sp[i as int] == pieces@[i as int]@);
        match parse_header_name(t.as_slice()) {
            None => {
                assert(parsed_header_name(trim(sp[i as int])) is None);
                assert(exists|j: int|
                    0 <= j < sp.len() && #[trigger] parsed_header_name(trim(sp[j])) is None);
                return Err(CorsError::BadRequestHeaders);
            },
            Some(n) => {
                names.push(n);
            },
        }
        i = i + 1;
    }
    assert(!exists|j: int| 0 <= j < sp.len() && #[trigger] parsed_header_name(trim(sp[j])) is None);
    let mut k: usize = 0;
    while k < names.len()
        invariant
            is_visible_ascii(v@),
            sp == split_commas(v@),
            names@.len() == sp.len(),
            k <= names@.len(),
            forall|j: int|
                0 <= j < sp.len() ==> parsed_header_name(trim(#[trigger] sp[j])) == Some(names@[j]@),
            forall|j: int|
                0 <= j < k ==> byte_strings(allowed@).contains(
                    (#[trigger] parsed_header_name(trim(sp[j])))->0,
                ),
        decreases names@.len() - k,
    {
        if !contains_bytes(allowed, names[k].as_slice()) {
            assert(parsed_header_name(trim(sp[k as int])) == Some(names@[k as int]@));
            assert(!byte_strings(allowed@).contains((parsed_header_name(trim(sp[k as int])))->0));
            assert(exists|j: int|
                0 <= j < sp.len() && !byte_strings(allowed@).contains(
                    (#[trigger] parsed_header_name(trim(sp[j])))->0,
                ));
            return Err(CorsError::HeadersNotAllowed);
        }
        k = k + 1;
    }
    Ok(())
}

/// Adds the CORS request headers (with the private network access one, where
/// that is supported) to the `Vary` header: after its first value, or as its
/// only value.
pub fn add_vary_header(headers: &mut HeaderMap, private_network: bool)
    ensures
        header_entries(*final(headers)) == with_vary(header_entries(*old(headers)), private_network),
{
    proof {
        lemma_names();
    }
    match header_get(headers, "vary") {
        Some(v) => {
            let mut val = v;
            append_bytes(
                &mut val,
                ", Origin, Access-Control-Request-Method, Access-Control-Request-Headers".as_bytes(),
            );
            if private_network {
                append_bytes(&mut val, ", Access-Control-Request-Private-Network".as_bytes());
            }
            proof {
                let a = v@;
                let b = val@;
                let suffix = vary_suffix(private_network);
                assert(b =~= a + suffix);
                assert forall|i: int| 0 <= i < b.len() implies crate::headers::is_value_byte(b[i]) by {
                    if i < a.len() {
                        assert(b[i] == a[i]);
                    } else {
                        assert(b[i] == suffix[i - a.len()]);
                        if private_network {
                            let s1 = basic_vary_suffix();
                            if i - a.len() < s1.len() {
                                assert(suffix[i - a.len()] == s1[i - a.len()]);
                            } else {
                                assert(suffix[i - a.len()] == private_network_vary_entry()[i
                                    - a.len() - s1.len()]);
                            }
                        } else {
                            assert(suffix[i - a.len()] == basic_vary_suffix()[i - a.len()]);
                        }
                    }
                }
            }
            header_insert(headers, "vary", val.as_slice());
        },
        None => {
            if private_network {
                header_insert(
                    headers,
                    "vary",
                    "Origin, Access-Control-Request-Method, Access-Control-Request-Headers, Access-Control-Request-Private-Network".as_bytes(),
                );
            } else {
                header_insert(
                    headers,
                    "vary",
                    "Origin, Access-Control-Request-Method, Access-Control-Request-Headers".as_bytes(),
                );
            }
        },
    }
}

/// The values joined into one header value, separated by `, `.
pub fn intersperse_header_values(vals: &Vec<Vec<u8>>) -> (r: Vec<u8>)
    requires
        vals@.len() > 0,
        forall|i: int| 0 <= i < vals@.len() ==> is_header_value(#[trigger] vals@[i]@),
    ensures
        r@ == join_list(byte_strings(vals@)),
        is_header_value(r@),
{
    proof {
        let s = byte_strings(vals@);
        assert forall|i: int| 0 <= i < s.len() implies is_header_value(#[trigger] s[i]) by {
            assert(s[i] == vals@[i]@);
        }
        lemma_join_header_value(s);
    }
    join_with_commas(vals)
}

} // verus!
