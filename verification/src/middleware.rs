//! The decisions of the CORS middleware: which requests are preflight
//! requests and how they are answered, which requests are refused, which are
//! passed to the wrapped service, and which CORS headers the responses of
//! that service (and its errors) receive.
use vstd::prelude::*;
use std::rc::Rc;
use actix_web::http::header::HeaderMap;
use vstd::string::StringSliceAdditionalSpecFns;
use crate::bytes::{join_list, decimal, bytes_eq, decimal_bytes, lemma_decimal_header_value};
use crate::headers::{
    HeaderEntries, header_entries, bytes_of, first_value, set_header, set_header_opt, lists_names,
    is_lower_name, is_header_value, new_header_map, header_get, header_contains, header_insert,
    header_is_empty, header_names,
};
use crate::inner::{
    Inner, AllOrSome, CorsError, opt_bytes, opt_header_value, method_of, with_vary,
    add_vary_header, intersperse_header_values, header_value_try_into_method,
};
use crate::names::{
    lemma_names, origin_key, request_method_key, request_headers_key, allow_origin_key,
    allow_methods_key, allow_headers_key, allow_credentials_key, expose_headers_key, max_age_key,
    true_value, request_private_network_key, allow_private_network_key,
};

verus! {

/// actix-web's error type (`actix_web::Error`): the error of a wrapped service.
#[verifier::external_type_specification]
#[verifier::external_body]
pub struct ExActixError(actix_web::Error);

/// Service wrapper for Cross-Origin Resource Sharing support: the wrapped
/// service and the CORS settings.
#[derive(Debug, Clone)]
pub struct CorsMiddleware<S> {
    service: S,
    inner: Rc<Inner>,
}

/// The CORS headers that a response to a (non-preflight) request receives.
/// Its header values are always valid header values.
#[derive(Debug)]
pub struct CorsResponseContext {
    /// The `Access-Control-Allow-Origin` value, if any.
    allow_origin: Option<Vec<u8>>,
    /// The `Access-Control-Expose-Headers` value, if one is configured.
    expose_headers: Option<Vec<u8>>,
    /// Whether every header of the response is exposed.
    expose_all_headers: bool,
    /// Whether `Access-Control-Allow-Credentials: true` is sent.
    supports_credentials: bool,
    /// Whether `Access-Control-Allow-Private-Network: true` is sent.
    should_allow_private_network: bool,
    /// Whether the CORS request headers are added to `Vary`.
    vary_header: bool,
    /// Whether `Vary` lists the private network access request header.
    private_network: bool,
}

/// Error wrapper used when the CORS headers are added to the error response
/// of a wrapped service: the service's error and the headers for it.
#[derive(Debug)]
pub struct CorsServiceError {
    inner: actix_web::Error,
    context: CorsResponseContext,
}

/// What the middleware does with a request.
pub enum Route {
    /// The request is a preflight request, answered here: with these response
    /// headers (status 200), or refused with this error (status 400).
    Preflight(Result<HeaderMap, CorsError>),
    /// The request is refused with this error before the wrapped service
    /// sees it.
    Rejected(CorsError),
    /// The request goes to the wrapped service; the flag tells whether the
    /// response may allow the origin, and the context holds the CORS headers
    /// for an error of the service.
    Forward(bool, CorsResponseContext),
}

/// A request is a preflight request when its method is `OPTIONS` and it has
/// an `Access-Control-Request-Method` header that names a method.
pub open spec fn is_preflight(method: Seq<u8>, req: HeaderEntries) -> bool {
    &&& method == bytes_of("OPTIONS")
    &&& first_value(req, request_method_key()) matches Some(v) && method_of(v) is Some
}

/// The outcome of the checks of a preflight request: the origin must be
/// allowed, then the requested method, then the requested headers.
pub open spec fn preflight_check(inner: Inner, req: HeaderEntries, fns_accept: bool) -> Result<
    (),
    CorsError,
> {
    match inner.origin_check(req, fns_accept) {
        Err(e) => Err(e),
        Ok(false) => Err(CorsError::OriginNotAllowed),
        Ok(true) => match inner.method_check(req) {
            Err(e) => Err(e),
            Ok(()) => inner.headers_check(req),
        },
    }
}

/// The headers of the answer to an accepted preflight request: the allowed
/// origin, the allowed methods, the allowed headers (the configured list, or
/// else the requested ones echoed), private network access (when allowed and
/// asked for), credentials, the maximum age, and `Vary`.
pub open spec fn preflight_headers(inner: Inner, req: HeaderEntries) -> HeaderEntries {
    let m1 = set_header_opt(HeaderEntries::empty(), allow_origin_key(), inner.allow_origin_value(req));
    let m2 = set_header_opt(m1, allow_methods_key(), opt_bytes(inner.allowed_methods_baked));
    let m3 = match opt_bytes(inner.allowed_headers_baked) {
        Some(h) => set_header(m2, allow_headers_key(), h),
        None => set_header_opt(m2, allow_headers_key(), first_value(req, request_headers_key())),
    };
    let m4 = if inner.allows_private_network() && req.contains_key(request_private_network_key()) {
        set_header(m3, allow_private_network_key(), true_value())
    } else {
        m3
    };
    let m5 = if inner.supports_credentials {
        set_header(m4, allow_credentials_key(), true_value())
    } else {
        m4
    };
    let m6 = match inner.max_age {
        Some(a) => set_header(m5, max_age_key(), decimal(a as nat)),
        None => m5,
    };
    if inner.vary_header {
        with_vary(m6, inner.supports_private_network())
    } else {
        m6
    }
}

/// `r` is what a preflight request with headers `req` is answered with.
pub open spec fn preflight_answer(
    inner: Inner,
    req: HeaderEntries,
    fns_accept: bool,
    r: Result<HeaderMap, CorsError>,
) -> bool {
    match r {
        Ok(m) => preflight_check(inner, req, fns_accept) == Ok::<(), CorsError>(())
            && header_entries(m) == preflight_headers(inner, req),
        Err(e) => preflight_check(inner, req, fns_accept) == Err::<(), CorsError>(e),
    }
}

impl CorsResponseContext {
    /// The header values of the context are valid header values.
    #[verifier::type_invariant]
    spec fn values_valid(&self) -> bool {
        opt_header_value(self.allow_origin) && opt_header_value(self.expose_headers)
    }

    /// The `Access-Control-Allow-Origin` value, if any.
    pub closed spec fn allowed_origin(&self) -> Option<Seq<u8>> {
        opt_bytes(self.allow_origin)
    }

    /// The configured `Access-Control-Expose-Headers` value, if any.
    pub closed spec fn exposed(&self) -> Option<Seq<u8>> {
        opt_bytes(self.expose_headers)
    }

    /// Whether every header of the response is exposed.
    pub closed spec fn exposes_all(&self) -> bool {
        self.expose_all_headers
    }

    /// Whether `Access-Control-Allow-Credentials: true` is sent.
    pub closed spec fn credentials(&self) -> bool {
        self.supports_credentials
    }

    /// Whether `Access-Control-Allow-Private-Network: true` is sent.
    pub closed spec fn private_network_allowed(&self) -> bool {
        self.should_allow_private_network
    }

    /// Whether the CORS request headers are added to `Vary`.
    pub closed spec fn varies(&self) -> bool {
        self.vary_header
    }

    /// Whether `Vary` lists the private network access request header.
    pub closed spec fn varies_private_network(&self) -> bool {
        self.private_network
    }

    /// The context holds the CORS headers that the settings `inner` give a
    /// response to a request with headers `req`, whose origin is allowed or
    /// not as `origin_allowed` tells.
    pub open spec fn describes(&self, inner: Inner, req: HeaderEntries, origin_allowed: bool) -> bool {
        &&& self.allowed_origin() == (if origin_allowed {
            inner.allow_origin_value(req)
        } else {
            None
        })
        &&& self.exposed() == opt_bytes(inner.expose_headers_baked)
        &&& self.exposes_all() == inner.expose_headers is All
        &&& self.credentials() == inner.supports_credentials
        &&& self.private_network_allowed() == (inner.allows_private_network() && req.contains_key(
            request_private_network_key(),
        ))
        &&& self.varies() == inner.vary_header
        &&& self.varies_private_network() == inner.supports_private_network()
    }

    /// The headers `m` with the allowed origin set.
    pub open spec fn with_origin(&self, m: HeaderEntries) -> HeaderEntries {
        set_header_opt(m, allow_origin_key(), self.allowed_origin())
    }

    /// Whether every header name of the response is listed as exposed, given
    /// the headers `m1` once the origin is set.
    pub open spec fn lists_all_headers(&self, m1: HeaderEntries) -> bool {
        &&& self.exposed() is None
        &&& self.exposes_all()
        &&& m1.dom() != Set::<Seq<u8>>::empty()
    }

    /// The headers `m` with the allowed origin, the exposed headers,
    /// credentials and private network access set, where `exposed_all` is the
    /// list of every header name (used only when every header is exposed).
    pub open spec fn with_cors_headers(&self, m: HeaderEntries, exposed_all: Seq<u8>) -> HeaderEntries {
        let m1 = self.with_origin(m);
        let m2 = match self.exposed() {
            Some(e) => set_header(m1, expose_headers_key(), e),
            None => if self.lists_all_headers(m1) {
                set_header(m1, expose_headers_key(), exposed_all)
            } else {
                m1
            },
        };
        let m3 = if self.credentials() {
            set_header(m2, allow_credentials_key(), true_value())
        } else {
            m2
        };
        if self.private_network_allowed() {
            set_header(m3, allow_private_network_key(), true_value())
        } else {
            m3
        }
    }

    /// The headers `m` once the context is applied: the CORS headers, then
    /// `Vary`.
    pub open spec fn applied(&self, m: HeaderEntries, exposed_all: Seq<u8>) -> HeaderEntries {
        if self.varies() {
            with_vary(self.with_cors_headers(m, exposed_all), self.varies_private_network())
        } else {
            self.with_cors_headers(m, exposed_all)
        }
    }

    /// `new` is `old` once the context is applied; when every header is
    /// exposed, the exposed list names each (lower-case) header name once.
    pub open spec fn apply_result(&self, old: HeaderEntries, new: HeaderEntries) -> bool {
        if self.lists_all_headers(self.with_origin(old)) {
            exists|names: Seq<Seq<u8>>|
                #![trigger join_list(names)]
                lists_names(names, self.with_origin(old)) && (forall|i: int|
                    0 <= i < names.len() ==> is_lower_name(#[trigger] names[i])) && new
                    == self.applied(old, join_list(names))
        } else {
            new == self.applied(old, Seq::<u8>::empty())
        }
    }

    /// The CORS headers for a response to a request, whose origin is allowed
    /// or not as `origin_allowed` tells.
    pub fn from_request_head(inner: &Inner, req: &HeaderMap, origin_allowed: bool) -> (r: Self)
        requires
            inner.wf(),
        ensures
            r.describes(*inner, header_entries(*req), origin_allowed),
    {
        proof {
            lemma_names();
        }
        CorsResponseContext {
            allow_origin: if origin_allowed {
                inner.access_control_allow_origin(req)
            } else {
                None
            },
            expose_headers: clone_opt_bytes(&inner.expose_headers_baked),
            expose_all_headers: matches!(inner.expose_headers, AllOrSome::All),
            supports_credentials: inner.supports_credentials,
            should_allow_private_network: matches!(inner.private_network_access, Some(true))
                && header_contains(req, "access-control-request-private-network"),
            vary_header: inner.vary_header,
            private_network: inner.private_network_access.is_some(),
        }
    }

    /// Adds the CORS headers to the headers of a response.
    pub fn apply(&self, headers: &mut HeaderMap)
        ensures
            self.apply_result(header_entries(*old(headers)), header_entries(*final(headers))),
    {
        proof {
            use_type_invariant(self);
            lemma_names();
        }
        let ghost m0 = header_entries(*headers);
        if let Some(origin) = &self.allow_origin {
            header_insert(headers, "access-control-allow-origin", origin.as_slice());
        }
        let ghost m1 = header_entries(*headers);
        assert(m1 == self.with_origin(m0));
        let ghost mut listing: Seq<Seq<u8>> = Seq::<Seq<u8>>::empty();
        if let Some(expose) = &self.expose_headers {
            header_insert(headers, "access-control-expose-headers", expose.as_slice());
        } else if self.expose_all_headers {
            if !header_is_empty(headers) {
                let names = header_names(headers);
                proof {
                    listing = names@.map_values(|v: Vec<u8>| v@);
                    assert(listing.len() == names@.len());
                    if names@.len() == 0 {
                        assert(listing.to_set() =~= Set::<Seq<u8>>::empty());
                        assert(m1.dom() =~= Set::<Seq<u8>>::empty());
                    }
                    assert forall|i: int| 0 <= i < names@.len() implies is_header_value(
                        #[trigger] names@[i]@,
                    ) by {
                        let n = names@[i]@;
                        assert(is_lower_name(n));
                        assert forall|j: int| 0 <= j < n.len() implies
                            crate::headers::is_value_byte(#[trigger] n[j]) by {
                            assert(crate::headers::is_lower_name_byte(n[j]));
                        }
                    }
                }
                let value = intersperse_header_values(&names);
                proof {
                    assert(listing =~= crate::bytes::byte_strings(names@));
                }
                header_insert(headers, "access-control-expose-headers", value.as_slice());
            }
        }
        if self.supports_credentials {
            header_insert(headers, "access-control-allow-credentials", "true".as_bytes());
        }
        if self.should_allow_private_network {
            header_insert(headers, "access-control-allow-private-network", "true".as_bytes());
        }
        if self.vary_header {
            add_vary_header(headers, self.private_network);
        }
        proof {
            if self.lists_all_headers(m1) {
                assert(lists_names(listing, m1));
                assert(forall|i: int| 0 <= i < listing.len() ==> is_lower_name(#[trigger] listing[i]));
                assert(header_entries(*headers) == self.applied(m0, join_list(listing)));
            } else {
                assert(header_entries(*headers) == self.applied(m0, Seq::<u8>::empty()));
            }
        }
    }
}

fn clone_opt_bytes(o: &Option<Vec<u8>>) -> (r: Option<Vec<u8>>)
    ensures
        opt_bytes(r) == opt_bytes(*o),
{
    match o {
        Some(v) => Some(copy_bytes(v)),
        None => None,
    }
}

fn copy_bytes(v: &Vec<u8>) -> (r: Vec<u8>)
    ensures
        r@ == v@,
{
    let mut r: Vec<u8> = Vec::new();
    crate::bytes::append_bytes(&mut r, v.as_slice());
    r
}

impl CorsServiceError {
    /// The wrapped error.
    pub closed spec fn error(&self) -> actix_web::Error {
        self.inner
    }

    /// The CORS headers for the error response.
    pub closed spec fn headers_context(&self) -> CorsResponseContext {
        self.context
    }

    /// Wraps the error of a wrapped service with the CORS headers for it.
    pub fn new(inner: actix_web::Error, context: CorsResponseContext) -> (r: Self)
        ensures
            r.error() == inner,
            r.headers_context() == context,
    {
        CorsServiceError { inner, context }
    }

    /// The wrapped Actix Web error.
    pub fn inner_error(&self) -> (r: &actix_web::Error)
        ensures
            *r == self.error(),
    {
        &self.inner
    }

    /// Returns the wrapped Actix Web error.
    pub fn into_inner(self) -> (r: actix_web::Error)
        ensures
            r == self.error(),
    {
        self.inner
    }

    /// The CORS headers for the error response.
    pub fn context(&self) -> (r: &CorsResponseContext)
        ensures
            *r == self.headers_context(),
    {
        &self.context
    }

    /// Adds the CORS headers for the error to the headers of the error's
    /// response (whose status and body stay those of the wrapped error).
    pub fn apply_headers(&self, headers: &mut HeaderMap)
        ensures
            self.headers_context().apply_result(
                header_entries(*old(headers)),
                header_entries(*final(headers)),
            ),
    {
        self.context.apply(headers);
    }
}

impl<S> CorsMiddleware<S> {
    /// The CORS settings.
    pub closed spec fn settings(&self) -> Inner {
        *self.inner
    }

    /// The wrapped service.
    pub closed spec fn wrapped(&self) -> S {
        self.service
    }

    /// Wraps a service with CORS settings.
    pub fn new(service: S, inner: Rc<Inner>) -> (r: Self)
        ensures
            r.settings() == *inner,
            r.wrapped() == service,
    {
        CorsMiddleware { service, inner }
    }

    /// The wrapped service.
    pub fn service(&self) -> (r: &S)
        ensures
            *r == self.wrapped(),
    {
        &self.service
    }

    /// The CORS settings.
    pub fn inner(&self) -> (r: &Inner)
        ensures
            *r == self.settings(),
    {
        &self.inner
    }

    /// Returns true if the request is `OPTIONS` and contains an
    /// `Access-Control-Request-Method` header that names a method.
    pub fn is_request_preflight(method: &[u8], req: &HeaderMap) -> (r: bool)
        ensures
            r == is_preflight(method@, header_entries(*req)),
    {
        proof {
            lemma_names();
        }
        if !bytes_eq(method, "OPTIONS".as_bytes()) {
            return false;
        }
        match header_get(req, "access-control-request-method") {
            None => false,
            Some(v) => header_value_try_into_method(v.as_slice()).is_some(),
        }
    }

    /// Validates a preflight request against the settings and builds the
    /// headers of its answer.
    ///
    /// Checks:
    /// - `Origin` header is acceptable;
    /// - `Access-Control-Request-Method` header is acceptable;
    /// - `Access-Control-Request-Headers` header is acceptable.
    pub fn handle_preflight(&self, req: &HeaderMap, origin_fns_accept: bool) -> (r: Result<
        HeaderMap,
        CorsError,
    >)
        requires
            self.settings().wf(),
        ensures
            preflight_answer(self.settings(), header_entries(*req), origin_fns_accept, r),
    {
        let inner: &Inner = &self.inner;
        proof {
            lemma_names();
        }
        match inner.validate_origin(req, origin_fns_accept) {
            Ok(true) => {},
            Ok(false) => return Err(CorsError::OriginNotAllowed),
            Err(err) => return Err(err),
        }
        match inner.validate_allowed_method(req) {
            Err(err) => return Err(err),
            Ok(()) => {},
        }
        match inner.validate_allowed_headers(req) {
            Err(err) => return Err(err),
            Ok(()) => {},
        }
        let ghost q = header_entries(*req);
        let mut res = new_header_map();
        if let Some(origin) = inner.access_control_allow_origin(req) {
            header_insert(&mut res, "access-control-allow-origin", origin.as_slice());
        }
        if let Some(allowed_methods) = &inner.allowed_methods_baked {
            header_insert(&mut res, "access-control-allow-methods", allowed_methods.as_slice());
        }
        if let Some(headers) = &inner.allowed_headers_baked {
            header_insert(&mut res, "access-control-allow-headers", headers.as_slice());
        } else if let Some(headers) = header_get(req, "access-control-request-headers") {
            header_insert(&mut res, "access-control-allow-headers", headers.as_slice());
        }
        if matches!(inner.private_network_access, Some(true)) && header_contains(
            req,
            "access-control-request-private-network",
        ) {
            header_insert(&mut res, "access-control-allow-private-network", "true".as_bytes());
        }
        if inner.supports_credentials {
            header_insert(&mut res, "access-control-allow-credentials", "true".as_bytes());
        }
        if let Some(max_age) = inner.max_age {
            let age = decimal_bytes(max_age);
            proof {
                lemma_decimal_header_value(max_age as nat);
            }
            header_insert(&mut res, "access-control-max-age", age.as_slice());
        }
        if inner.vary_header {
            add_vary_header(&mut res, inner.private_network_access.is_some());
        }
        assert(header_entries(res) == preflight_headers(*inner, q));
        Ok(res)
    }

    /// Decides what happens to a request with this method and these headers;
    /// `origin_fns_accept` tells whether some origin predicate accepts the
    /// request's origin (see `Inner::origin_fns_consulted`).
    pub fn route(&self, method: &[u8], req: &HeaderMap, origin_fns_accept: bool) -> (r: Route)
        requires
            self.settings().wf(),
        ensures
            ({
                let inner = self.settings();
                let q = header_entries(*req);
                if inner.preflight && is_preflight(method@, q) {
                    r matches Route::Preflight(p) && preflight_answer(inner, q, origin_fns_accept, p)
                } else if !q.contains_key(origin_key()) {
                    r matches Route::Forward(allowed, ctx) && !allowed && ctx.describes(inner, q, false)
                } else {
                    match inner.origin_check(q, origin_fns_accept) {
                        Ok(b) => r matches Route::Forward(allowed, ctx) && allowed == b
                            && ctx.describes(inner, q, b),
                        Err(e) => r matches Route::Rejected(e2) && e2 == e,
                    }
                }
            }),
    {
        let inner: &Inner = &self.inner;
        proof {
            lemma_names();
        }
        let has_origin = header_contains(req, "origin");
        if inner.preflight && Self::is_request_preflight(method, req) {
            return Route::Preflight(self.handle_preflight(req, origin_fns_accept));
        }
        let origin_allowed = if !has_origin {
            false
        } else {
            match inner.validate_origin(req, origin_fns_accept) {
                Ok(allowed) => allowed,
                Err(err) => return Route::Rejected(err),
            }
        };
        let error_context = CorsResponseContext::from_request_head(inner, req, origin_allowed);
        Route::Forward(origin_allowed, error_context)
    }

    /// Adds to the error response of a refused request the headers it
    /// receives: `Vary`, when the settings ask for it.
    pub fn finish_rejection(&self, headers: &mut HeaderMap)
        ensures
            header_entries(*final(headers)) == if self.settings().vary_header {
                with_vary(header_entries(*old(headers)), self.settings().supports_private_network())
            } else {
                header_entries(*old(headers))
            },
    {
        if self.inner.vary_header {
            add_vary_header(headers, self.inner.private_network_access.is_some());
        }
    }
}

} // verus!
