//! Properties of the CORS middleware that hold for every request, every
//! setting and every response.
use vstd::prelude::*;
use crate::bytes::{join_list, decimal};
use crate::headers::{
    HeaderEntries, first_value, lists_names, is_lower_name, is_method, parsed_header_name,
};
use crate::bytes::{
    byte_strings, is_visible_ascii, split_commas, trim, trim_start, trim_end, is_space,
};
use crate::inner::{Inner, AllOrSome, CorsError, with_vary, opt_bytes};
use crate::middleware::{CorsResponseContext, preflight_check, preflight_headers};
use crate::names::{
    lemma_names, origin_key, allow_origin_key, allow_credentials_key, expose_headers_key,
    request_headers_key, request_method_key, allow_methods_key, allow_headers_key, max_age_key,
    vary_key, vary_list, vary_suffix, wildcard_value, allow_private_network_key,
    request_private_network_key, true_value,
};

verus! {

/// The `Vary` header, once the CORS request headers are added, holds one
/// value; it ends with the list `Origin, Access-Control-Request-Method,
/// Access-Control-Request-Headers`, and an existing first value is kept in
/// front of that list.
pub proof fn law_vary_lists_cors_request_headers(m: HeaderEntries, private_network: bool)
    ensures
        with_vary(m, private_network).contains_key(vary_key()),
        with_vary(m, private_network)[vary_key()].len() == 1,
        ({
            let v = with_vary(m, private_network)[vary_key()][0];
            let l = vary_list(private_network);
            &&& v.len() >= l.len()
            &&& v.subrange(v.len() - l.len(), v.len() as int) == l
            &&& match first_value(m, vary_key()) {
                Some(old) => v == old + vary_suffix(private_network),
                None => v == l,
            }
        }),
{
    lemma_names();
    let v = with_vary(m, private_network)[vary_key()][0];
    let l = vary_list(private_network);
    match first_value(m, vary_key()) {
        Some(old) => {
            assert(v == old + vary_suffix(private_network));
            assert(v.subrange(v.len() - l.len(), v.len() as int) =~= l);
        },
        None => {
            assert(v.subrange(0, v.len() as int) =~= l);
        },
    }
}

/// When the settings ask for `Vary`, the answer to an accepted preflight
/// request carries exactly the CORS request headers in `Vary`.
pub proof fn law_preflight_answer_varies(inner: Inner, req: HeaderEntries)
    requires
        inner.vary_header,
    ensures
        first_value(preflight_headers(inner, req), vary_key()) == Some(
            vary_list(inner.supports_private_network()),
        ),
{
    lemma_names();
}

/// When a response context asks for `Vary`, every response it is applied to
/// (a response of the wrapped service, or the response to its error) ends up
/// with the CORS request headers at the end of its `Vary` value.
pub proof fn law_applied_context_varies(ctx: CorsResponseContext, old: HeaderEntries, new: HeaderEntries)
    requires
        ctx.varies(),
        ctx.apply_result(old, new),
    ensures
        ({
            let l = vary_list(ctx.varies_private_network());
            first_value(new, vary_key()) matches Some(v) && v.len() >= l.len() && v.subrange(
                v.len() - l.len(),
                v.len() as int,
            ) == l
        }),
{
    let pn = ctx.varies_private_network();
    if ctx.lists_all_headers(ctx.with_origin(old)) {
        let names = choose_listing(ctx, old, new);
        law_vary_lists_cors_request_headers(ctx.with_cors_headers(old, join_list(names)), pn);
    } else {
        law_vary_lists_cors_request_headers(ctx.with_cors_headers(old, Seq::<u8>::empty()), pn);
    }
}

/// A context for a request whose origin is not allowed adds no
/// `Access-Control-Allow-Origin` header: that header of the response is
/// left as it was.
pub proof fn law_disallowed_origin_gets_no_allow_origin(
    ctx: CorsResponseContext,
    inner: Inner,
    req: HeaderEntries,
    old: HeaderEntries,
    new: HeaderEntries,
)
    requires
        ctx.describes(inner, req, false),
        ctx.apply_result(old, new),
    ensures
        new.contains_key(allow_origin_key()) == old.contains_key(allow_origin_key()),
        old.contains_key(allow_origin_key()) ==> new[allow_origin_key()] == old[allow_origin_key()],
{
    lemma_names();
    if ctx.lists_all_headers(ctx.with_origin(old)) {
        let names = choose_listing(ctx, old, new);
        assert(new == ctx.applied(old, join_list(names)));
    }
}

/// Applying a context changes only the CORS response headers and `Vary`:
/// every other header of the response keeps its values.
pub proof fn law_apply_keeps_other_headers(
    ctx: CorsResponseContext,
    old: HeaderEntries,
    new: HeaderEntries,
    key: Seq<u8>,
)
    requires
        ctx.apply_result(old, new),
        key != allow_origin_key(),
        key != expose_headers_key(),
        key != allow_credentials_key(),
        key != allow_private_network_key(),
        key != vary_key(),
    ensures
        new.contains_key(key) == old.contains_key(key),
        old.contains_key(key) ==> new[key] == old[key],
{
    lemma_names();
    if ctx.lists_all_headers(ctx.with_origin(old)) {
        let names = choose_listing(ctx, old, new);
        assert(new == ctx.applied(old, join_list(names)));
    }
}

/// A context sends `Access-Control-Allow-Credentials: true` exactly when the
/// settings support credentials (a response that had the header before keeps
/// it otherwise).
pub proof fn law_credentials_follow_settings(
    ctx: CorsResponseContext,
    old: HeaderEntries,
    new: HeaderEntries,
)
    requires
        ctx.apply_result(old, new),
    ensures
        ctx.credentials() ==> first_value(new, allow_credentials_key()) == Some(
            crate::names::true_value(),
        ),
        !ctx.credentials() ==> (new.contains_key(allow_credentials_key()) == old.contains_key(
            allow_credentials_key(),
        )),
{
    lemma_names();
    if ctx.lists_all_headers(ctx.with_origin(old)) {
        let names = choose_listing(ctx, old, new);
        assert(new == ctx.applied(old, join_list(names)));
    }
}

/// When every header is exposed, the exposed list names each header of the
/// response once: the allowed origin header among them, and the credentials
/// header (added afterwards) only when the response already had it.
pub proof fn law_expose_all_lists_each_header_once(
    ctx: CorsResponseContext,
    old: HeaderEntries,
    names: Seq<Seq<u8>>,
)
    requires
        lists_names(names, ctx.with_origin(old)),
    ensures
        names.no_duplicates(),
        ctx.allowed_origin() is Some ==> names.contains(allow_origin_key()),
        names.contains(allow_credentials_key()) == old.contains_key(allow_credentials_key()),
        forall|k: Seq<u8>| old.contains_key(k) ==> names.contains(k),
{
    lemma_names();
    assert(names.to_set() == ctx.with_origin(old).dom());
    if ctx.allowed_origin() is Some {
        assert(ctx.with_origin(old).dom().contains(allow_origin_key()));
        assert(names.to_set().contains(allow_origin_key()));
    }
    assert(names.to_set().contains(allow_credentials_key()) == names.contains(allow_credentials_key()));
    assert forall|k: Seq<u8>| old.contains_key(k) implies names.contains(k) by {
        assert(ctx.with_origin(old).dom().contains(k));
        assert(names.to_set().contains(k));
    }
}

/// Two contexts that describe the same request under the same settings (such
/// as the one kept for an error of the wrapped service and the one made for
/// its response) add the same headers to a response.
pub proof fn law_error_and_response_contexts_agree(
    a: CorsResponseContext,
    b: CorsResponseContext,
    inner: Inner,
    req: HeaderEntries,
    origin_allowed: bool,
    m: HeaderEntries,
    exposed_all: Seq<u8>,
)
    requires
        a.describes(inner, req, origin_allowed),
        b.describes(inner, req, origin_allowed),
    ensures
        a.applied(m, exposed_all) == b.applied(m, exposed_all),
{
}

/// The allowed origin sent in a response is `*` (only when every origin is
/// allowed and the wildcard is sent) or the request's own origin: never
/// another origin.
pub proof fn law_allowed_origin_is_wildcard_or_echo(inner: Inner, req: HeaderEntries)
    ensures
        inner.allow_origin_value(req) == Some(wildcard_value()) && inner.allowed_origins is All
            && inner.send_wildcard || inner.allow_origin_value(req) == first_value(req, origin_key()),
{
}

/// When every origin is allowed and no origin predicate is set, every
/// request's origin is accepted.
pub proof fn law_any_origin_allowed(inner: Inner, req: HeaderEntries, fns_accept: bool)
    requires
        inner.allowed_origins is All,
        !inner.has_origin_fns,
    ensures
        inner.origin_check(req, fns_accept) == Ok::<bool, CorsError>(true),
{
}

/// Without blocking on a mismatched origin, a request that has an origin is
/// never refused for it: its origin check succeeds, telling only whether the
/// origin is allowed.
pub proof fn law_no_refusal_without_blocking(inner: Inner, req: HeaderEntries, fns_accept: bool)
    requires
        !inner.block_on_origin_mismatch,
        first_value(req, origin_key()) is Some,
    ensures
        inner.origin_check(req, fns_accept) is Ok,
{
}

/// The origin predicates decide nothing when they are not consulted: the
/// origin check then gives the same outcome whatever they would answer.
pub proof fn law_origin_fns_asked_only_when_needed(inner: Inner, req: HeaderEntries)
    requires
        !inner.consults_origin_fns(req),
    ensures
        inner.origin_check(req, true) == inner.origin_check(req, false),
{
}

/// A preflight request is accepted only when its origin is allowed, its
/// method is allowed and its headers are allowed; then (and only then) its
/// answer allows the origin the settings give it.
pub proof fn law_preflight_accepted_only_when_all_checks_pass(
    inner: Inner,
    req: HeaderEntries,
    fns_accept: bool,
)
    ensures
        preflight_check(inner, req, fns_accept) == Ok::<(), CorsError>(()) <==> (inner.origin_check(
            req,
            fns_accept,
        ) == Ok::<bool, CorsError>(true) && inner.method_check(req) == Ok::<(), CorsError>(())
            && inner.headers_check(req) == Ok::<(), CorsError>(())),
        first_value(preflight_headers(inner, req), allow_origin_key()) == inner.allow_origin_value(
            req,
        ),
{
    lemma_names();
}

/// The listing of header names that an "expose all" application used.
proof fn choose_listing(ctx: CorsResponseContext, old: HeaderEntries, new: HeaderEntries) -> (names: Seq<
    Seq<u8>,
>)
    requires
        ctx.apply_result(old, new),
        ctx.lists_all_headers(ctx.with_origin(old)),
    ensures
        lists_names(names, ctx.with_origin(old)),
        new == ctx.applied(old, join_list(names)),
{
    choose|names: Seq<Seq<u8>>|
        #![trigger join_list(names)]
        lists_names(names, ctx.with_origin(old)) && (forall|i: int|
            0 <= i < names.len() ==> is_lower_name(#[trigger] names[i])) && new == ctx.applied(
            old,
            join_list(names),
        )
}

/// `Access-Control-Allow-Private-Network: true` is sent exactly when the
/// settings allow private network access and the request asks for it: in the
/// response context (a response that had the header before keeps it
/// otherwise), and in the answer to a preflight request.
pub proof fn law_private_network_only_when_allowed_and_asked(
    ctx: CorsResponseContext,
    inner: Inner,
    req: HeaderEntries,
    origin_allowed: bool,
    old: HeaderEntries,
    new: HeaderEntries,
)
    requires
        ctx.describes(inner, req, origin_allowed),
        ctx.apply_result(old, new),
    ensures
        (inner.allows_private_network() && req.contains_key(request_private_network_key()))
            ==> first_value(new, allow_private_network_key()) == Some(true_value()),
        !(inner.allows_private_network() && req.contains_key(request_private_network_key())) ==> (
        new.contains_key(allow_private_network_key()) == old.contains_key(allow_private_network_key())),
        preflight_headers(inner, req).contains_key(allow_private_network_key()) == (
        inner.allows_private_network() && req.contains_key(request_private_network_key())),
{
    lemma_names();
    if ctx.lists_all_headers(ctx.with_origin(old)) {
        let names = choose_listing(ctx, old, new);
        assert(new == ctx.applied(old, join_list(names)));
    }
}

/// Every accepted preflight's answer holds `Access-Control-Allow-Credentials:
/// true` when the settings support credentials and no such header otherwise,
/// whatever origins are allowed.
pub proof fn law_preflight_credentials_exactly_when_supported(inner: Inner, req: HeaderEntries)
    ensures
        inner.supports_credentials ==> first_value(preflight_headers(inner, req), allow_credentials_key())
            == Some(true_value()),
        !inner.supports_credentials ==> !preflight_headers(inner, req).contains_key(
            allow_credentials_key(),
        ),
{
    lemma_names();
}

/// The CORS headers a forwarded response (or an error response) receives
/// hold `Access-Control-Allow-Credentials: true` when the settings support
/// credentials, whatever origins are allowed; otherwise that header of the
/// response is left as it was.
pub proof fn law_response_credentials_exactly_when_supported(
    inner: Inner,
    req: HeaderEntries,
    ctx: CorsResponseContext,
    origin_allowed: bool,
    old: HeaderEntries,
    new: HeaderEntries,
)
    requires
        ctx.describes(inner, req, origin_allowed),
        ctx.apply_result(old, new),
    ensures
        inner.supports_credentials ==> first_value(new, allow_credentials_key()) == Some(true_value()),
        !inner.supports_credentials ==> (new.contains_key(allow_credentials_key()) == old.contains_key(
            allow_credentials_key(),
        )),
{
    law_credentials_follow_settings(ctx, old, new);
}

/// Every entry of `Access-Control-Request-Headers` counts, at whatever
/// position: the headers check passes only when the list is text and every
/// comma-separated entry, trimmed, is a header name on the allowed list; when
/// every entry is a header name and one of them (the first included) is not
/// allowed, the check fails with `HeadersNotAllowed`.
pub proof fn law_every_requested_header_must_be_allowed(
    inner: Inner,
    req: HeaderEntries,
    list: Vec<Vec<u8>>,
    v: Seq<u8>,
)
    requires
        inner.allowed_headers == AllOrSome::Only(list),
        first_value(req, request_headers_key()) == Some(v),
    ensures
        inner.headers_check(req) == Ok::<(), CorsError>(()) <==> (is_visible_ascii(v) && forall|i: int|
            0 <= i < split_commas(v).len() ==> ((#[trigger] parsed_header_name(trim(split_commas(v)[i])))
                matches Some(n) && byte_strings(list@).contains(n))),
        (is_visible_ascii(v) && (forall|i: int|
            0 <= i < split_commas(v).len() ==> (#[trigger] parsed_header_name(
                trim(split_commas(v)[i]),
            )) is Some) && (exists|i: int|
            0 <= i < split_commas(v).len() && !byte_strings(list@).contains(
                (#[trigger] parsed_header_name(trim(split_commas(v)[i])))->0,
            ))) ==> inner.headers_check(req) == Err::<(), CorsError>(CorsError::HeadersNotAllowed),
{
    let pieces = split_commas(v);
    if inner.headers_check(req) == Ok::<(), CorsError>(()) {
        assert forall|i: int| 0 <= i < pieces.len() implies ((#[trigger] parsed_header_name(
            trim(pieces[i]),
        )) matches Some(n) && byte_strings(list@).contains(n)) by {
            assert(parsed_header_name(trim(pieces[i])) is Some);
        }
    }
}

/// An origin that is listed, or that an origin predicate accepts, is allowed
/// whether or not mismatched origins are blocked; blocking refuses only an
/// origin that is neither listed nor accepted; and an origin is allowed only
/// when it is listed, accepted, or every origin is allowed.
pub proof fn law_listed_or_accepted_origin_is_allowed(
    inner: Inner,
    req: HeaderEntries,
    fns_accept: bool,
    o: Seq<u8>,
)
    requires
        first_value(req, origin_key()) == Some(o),
    ensures
        ((inner.allowed_origins matches AllOrSome::Only(l) && byte_strings(l@).contains(o))
            || fns_accept) ==> inner.origin_check(req, fns_accept) == Ok::<bool, CorsError>(true),
        inner.origin_check(req, fns_accept) == Err::<bool, CorsError>(CorsError::OriginNotAllowed)
            ==> inner.block_on_origin_mismatch && !fns_accept && !(inner.allowed_origins matches AllOrSome::Only(l)
            && byte_strings(l@).contains(o)),
        inner.origin_check(req, fns_accept) == Ok::<bool, CorsError>(true) ==> ((
        inner.allowed_origins matches AllOrSome::Only(l) && byte_strings(l@).contains(o)) || fns_accept
            || (inner.allowed_origins is All && !inner.has_origin_fns)),
{
}

/// The requested method passes only when it is one of the allowed methods
/// (so with no allowed method, none passes); a requested method that spells
/// a method but is not allowed fails with `MethodNotAllowed`.
pub proof fn law_method_allowed_only_if_listed(inner: Inner, req: HeaderEntries)
    ensures
        inner.method_check(req) == Ok::<(), CorsError>(()) ==> (first_value(req, request_method_key())
            matches Some(m) && byte_strings(inner.allowed_methods@).contains(m)),
        inner.allowed_methods@.len() == 0 ==> inner.method_check(req) != Ok::<(), CorsError>(()),
        (first_value(req, request_method_key()) matches Some(m) && is_method(m)
            && !byte_strings(inner.allowed_methods@).contains(m)) ==> inner.method_check(req) == Err::<
            (),
            CorsError,
        >(CorsError::MethodNotAllowed),
{
}

/// When the settings ask for `Vary`, a forwarded response (or an error
/// response) gets the same CORS request header list in `Vary` as a preflight
/// answer: it lists `Access-Control-Request-Private-Network` exactly when
/// private network access is supported, allowed or not.
pub proof fn law_forwarded_vary_matches_preflight(
    ctx: CorsResponseContext,
    inner: Inner,
    req: HeaderEntries,
    origin_allowed: bool,
    preflight_req: HeaderEntries,
    old: HeaderEntries,
    new: HeaderEntries,
)
    requires
        ctx.describes(inner, req, origin_allowed),
        inner.vary_header,
        ctx.apply_result(old, new),
    ensures
        ({
            let l = vary_list(inner.private_network_access is Some);
            &&& first_value(new, vary_key()) matches Some(v) && v.len() >= l.len() && v.subrange(
                v.len() - l.len(),
                v.len() as int,
            ) == l
            &&& !old.contains_key(vary_key()) ==> first_value(new, vary_key()) == Some(l)
            &&& first_value(preflight_headers(inner, preflight_req), vary_key()) == Some(l)
        }),
{
    lemma_names();
    let pn = inner.private_network_access is Some;
    let x = if ctx.lists_all_headers(ctx.with_origin(old)) {
        let names = choose_listing(ctx, old, new);
        join_list(names)
    } else {
        Seq::<u8>::empty()
    };
    assert(new == ctx.applied(old, x));
    law_vary_lists_cors_request_headers(ctx.with_cors_headers(old, x), pn);
    if !old.contains_key(vary_key()) {
        assert(!ctx.with_cors_headers(old, x).contains_key(vary_key()));
    }
}

/// The answer to an accepted preflight request holds these headers and no
/// other: `Access-Control-Allow-Origin` is the request's own origin, or `*`
/// when every origin is allowed and the wildcard is sent; the allowed methods
/// and the allowed headers are the configured values, the allowed headers
/// falling back to the requested ones; `Access-Control-Max-Age` is the
/// configured age in decimal; `Vary` is present exactly when the settings ask
/// for it.
pub proof fn law_preflight_answer_headers(inner: Inner, req: HeaderEntries)
    ensures
        ({
            let m = preflight_headers(inner, req);
            &&& first_value(m, allow_origin_key()) == (if inner.allowed_origins is All
                && inner.send_wildcard {
                Some(wildcard_value())
            } else {
                first_value(req, origin_key())
            })
            &&& first_value(m, allow_methods_key()) == opt_bytes(inner.allowed_methods_baked)
            &&& first_value(m, allow_headers_key()) == (match inner.allowed_headers_baked {
                Some(h) => Some(h@),
                None => first_value(req, request_headers_key()),
            })
            &&& first_value(m, max_age_key()) == (match inner.max_age {
                Some(a) => Some(decimal(a as nat)),
                None => None,
            })
            &&& m.contains_key(vary_key()) == inner.vary_header
            &&& forall|k: Seq<u8>|
                #![trigger m.contains_key(k)]
                m.contains_key(k) ==> (k == allow_origin_key() || k == allow_methods_key() || k
                    == allow_headers_key() || k == allow_private_network_key() || k
                    == allow_credentials_key() || k == max_age_key() || k == vary_key())
        }),
{
    lemma_names();
    let m = preflight_headers(inner, req);
    assert(first_value(m, allow_origin_key()) == inner.allow_origin_value(req));
}

/// The pieces joined back with commas between them.
pub open spec fn join_on_commas(pieces: Seq<Seq<u8>>) -> Seq<u8>
    decreases pieces.len(),
{
    if pieces.len() <= 1 {
        if pieces.len() == 1 {
            pieces[0]
        } else {
            Seq::<u8>::empty()
        }
    } else {
        join_on_commas(pieces.drop_last()) + seq![44u8] + pieces.last()
    }
}

/// Splitting on commas gives at least one piece, no piece holds a comma, and
/// the pieces joined back with commas give the bytes again.
pub proof fn law_split_commas_pieces(v: Seq<u8>)
    ensures
        split_commas(v).len() >= 1,
        forall|i: int| 0 <= i < split_commas(v).len() ==> !(#[trigger] split_commas(v)[i]).contains(44u8),
        join_on_commas(split_commas(v)) == v,
    decreases v.len(),
{
    if v.len() > 0 {
        let w = v.drop_last();
        law_split_commas_pieces(w);
        let p = split_commas(w);
        let c = v.last();
        assert(v =~= w.push(c));
        if c == 44 {
            let q = p.push(Seq::<u8>::empty());
            assert(q.drop_last() =~= p);
            assert(join_on_commas(q) =~= v);
            assert forall|i: int| 0 <= i < q.len() implies !(#[trigger] q[i]).contains(44u8) by {
                if i < p.len() {
                    assert(q[i] == p[i]);
                }
            }
        } else {
            let x = p.last().push(c);
            let q = p.update(p.len() - 1, x);
            assert forall|i: int| 0 <= i < q.len() implies !(#[trigger] q[i]).contains(44u8) by {
                if i < p.len() - 1 {
                    assert(q[i] == p[i]);
                } else {
                    assert(!p[i].contains(44u8));
                    if x.contains(44u8) {
                        let j = choose|j: int| 0 <= j < x.len() && x[j] == 44u8;
                        if j < p.last().len() {
                            assert(p.last()[j] == 44u8);
                        }
                    }
                }
            }
            if p.len() == 1 {
                assert(join_on_commas(p) == p[0]);
                assert(join_on_commas(q) =~= v);
            } else {
                assert(q.drop_last() =~= p.drop_last());
                assert(join_on_commas(q) =~= join_on_commas(p.drop_last()) + seq![44u8] + x);
                assert(join_on_commas(q) =~= v);
            }
        }
    }
}

/// Trimming keeps a contiguous part of the bytes: everything removed before
/// and after it is whitespace, and the part kept neither starts nor ends with
/// whitespace.
pub proof fn law_trim_removes_only_outer_whitespace(s: Seq<u8>)
    ensures
        exists|a: int, b: int|
            #![trigger s.subrange(a, b)]
            0 <= a <= b <= s.len() && trim(s) == s.subrange(a, b) && (forall|i: int|
                0 <= i < a ==> is_space(#[trigger] s[i])) && (forall|i: int|
                b <= i < s.len() ==> is_space(#[trigger] s[i])),
        trim(s).len() > 0 ==> !is_space(trim(s)[0]) && !is_space(trim(s).last()),
{
    let a = lemma_trim_start_part(s);
    let t = trim_start(s);
    let b = lemma_trim_end_part(t);
    assert(trim(s) == t.subrange(0, b));
    assert(t.subrange(0, b) =~= s.subrange(a, a + b));
    assert forall|i: int| a + b <= i < s.len() implies is_space(#[trigger] s[i]) by {
        assert(s[i] == t[i - a]);
    }
    assert(trim(s) == s.subrange(a, a + b));
    if trim(s).len() > 0 {
        assert(trim(s)[0] == t[0]);
    }
}

proof fn lemma_trim_start_part(s: Seq<u8>) -> (a: int)
    ensures
        0 <= a <= s.len(),
        trim_start(s) == s.subrange(a, s.len() as int),
        forall|i: int| 0 <= i < a ==> is_space(#[trigger] s[i]),
        trim_start(s).len() > 0 ==> !is_space(trim_start(s)[0]),
    decreases s.len(),
{
    if s.len() > 0 && is_space(s[0]) {
        let a1 = lemma_trim_start_part(s.drop_first());
        assert(s.drop_first().subrange(a1, s.drop_first().len() as int) =~= s.subrange(
            a1 + 1,
            s.len() as int,
        ));
        assert forall|i: int| 0 <= i < a1 + 1 implies is_space(#[trigger] s[i]) by {
            if i > 0 {
                assert(s[i] == s.drop_first()[i - 1]);
            }
        }
        a1 + 1
    } else {
        assert(s.subrange(0, s.len() as int) =~= s);
        0
    }
}

proof fn lemma_trim_end_part(s: Seq<u8>) -> (b: int)
    ensures
        0 <= b <= s.len(),
        trim_end(s) == s.subrange(0, b),
        forall|i: int| b <= i < s.len() ==> is_space(#[trigger] s[i]),
        trim_end(s).len() > 0 ==> !is_space(trim_end(s).last()),
        trim_end(s).len() > 0 ==> trim_end(s)[0] == s[0],
    decreases s.len(),
{
    if s.len() > 0 && is_space(s.last()) {
        let b1 = lemma_trim_end_part(s.drop_last());
        assert(s.drop_last().subrange(0, b1) =~= s.subrange(0, b1));
        assert forall|i: int| b1 <= i < s.len() implies is_space(#[trigger] s[i]) by {
            if i < s.len() - 1 {
                assert(s[i] == s.drop_last()[i]);
            }
        }
        b1
    } else {
        assert(s.subrange(0, s.len() as int) =~= s);
        s.len() as int
    }
}

/// A forwarded response (or an error response) to a request whose origin is
/// allowed gets `Access-Control-Allow-Origin`: `*` when every origin is
/// allowed and the wildcard is sent, else the request's own origin; and a
/// configured list of exposed headers is sent as it is.
pub proof fn law_forwarded_response_headers(
    ctx: CorsResponseContext,
    inner: Inner,
    req: HeaderEntries,
    o: Seq<u8>,
    old: HeaderEntries,
    new: HeaderEntries,
)
    requires
        ctx.describes(inner, req, true),
        first_value(req, origin_key()) == Some(o),
        ctx.apply_result(old, new),
    ensures
        first_value(new, allow_origin_key()) == Some(
            if inner.allowed_origins is All && inner.send_wildcard {
                wildcard_value()
            } else {
                o
            },
        ),
        inner.expose_headers_baked matches Some(e) ==> first_value(new, expose_headers_key()) == Some(
            e@,
        ),
{
    lemma_names();
    if ctx.lists_all_headers(ctx.with_origin(old)) {
        let names = choose_listing(ctx, old, new);
        assert(new == ctx.applied(old, join_list(names)));
    }
}

} // verus!
