//! The header names and fixed header values of the CORS protocol, as bytes,
//! and the facts about them that the proofs use: each name is a lower-case
//! header name, the names of response headers differ from each other, and
//! each fixed value is a valid header value.
use vstd::prelude::*;
use crate::headers::{bytes_of, is_lower_name, is_header_value};

verus! {

/// `Origin`.
pub open spec fn origin_key() -> Seq<u8> {
    bytes_of("origin")
}

/// `Access-Control-Request-Method`.
pub open spec fn request_method_key() -> Seq<u8> {
    bytes_of("access-control-request-method")
}

/// `Access-Control-Request-Headers`.
pub open spec fn request_headers_key() -> Seq<u8> {
    bytes_of("access-control-request-headers")
}

/// `Access-Control-Allow-Origin`.
pub open spec fn allow_origin_key() -> Seq<u8> {
    bytes_of("access-control-allow-origin")
}

/// `Access-Control-Allow-Methods`.
pub open spec fn allow_methods_key() -> Seq<u8> {
    bytes_of("access-control-allow-methods")
}

/// `Access-Control-Allow-Headers`.
pub open spec fn allow_headers_key() -> Seq<u8> {
    bytes_of("access-control-allow-headers")
}

/// `Access-Control-Allow-Credentials`.
pub open spec fn allow_credentials_key() -> Seq<u8> {
    bytes_of("access-control-allow-credentials")
}

/// `Access-Control-Expose-Headers`.
pub open spec fn expose_headers_key() -> Seq<u8> {
    bytes_of("access-control-expose-headers")
}

/// `Access-Control-Max-Age`.
pub open spec fn max_age_key() -> Seq<u8> {
    bytes_of("access-control-max-age")
}

/// `Vary`.
pub open spec fn vary_key() -> Seq<u8> {
    bytes_of("vary")
}

/// The value `*`.
pub open spec fn wildcard_value() -> Seq<u8> {
    bytes_of("*")
}

/// The value `true`.
pub open spec fn true_value() -> Seq<u8> {
    bytes_of("true")
}

/// `Access-Control-Request-Private-Network`.
pub open spec fn request_private_network_key() -> Seq<u8> {
    bytes_of("access-control-request-private-network")
}

/// `Access-Control-Allow-Private-Network`.
pub open spec fn allow_private_network_key() -> Seq<u8> {
    bytes_of("access-control-allow-private-network")
}

/// The request headers that a CORS response depends on, as listed in `Vary`;
/// with private network access supported, its request header is listed too.
pub open spec fn vary_list(private_network: bool) -> Seq<u8> {
    if private_network {
        bytes_of(
            "Origin, Access-Control-Request-Method, Access-Control-Request-Headers, Access-Control-Request-Private-Network",
        )
    } else {
        bytes_of("Origin, Access-Control-Request-Method, Access-Control-Request-Headers")
    }
}

/// The same list, to follow an existing `Vary` value.
pub open spec fn vary_suffix(private_network: bool) -> Seq<u8> {
    list_separator() + vary_list(private_network)
}

/// The list of the CORS request headers without private network access, to
/// follow an existing `Vary` value.
pub open spec fn basic_vary_suffix() -> Seq<u8> {
    bytes_of(", Origin, Access-Control-Request-Method, Access-Control-Request-Headers")
}

/// The private network access request header, to follow a list in `Vary`.
pub open spec fn private_network_vary_entry() -> Seq<u8> {
    bytes_of(", Access-Control-Request-Private-Network")
}

/// The separator of a list in a header value.
pub open spec fn list_separator() -> Seq<u8> {
    bytes_of(", ")
}

/// Every name above is a lower-case header name; the names of the response
/// headers differ from each other and from the request headers' names; every
/// fixed value is a valid header value.
pub proof fn lemma_names()
    ensures
        is_lower_name(origin_key()),
        is_lower_name(request_method_key()),
        is_lower_name(request_headers_key()),
        is_lower_name(allow_origin_key()),
        is_lower_name(allow_methods_key()),
        is_lower_name(allow_headers_key()),
        is_lower_name(allow_credentials_key()),
        is_lower_name(expose_headers_key()),
        is_lower_name(max_age_key()),
        is_lower_name(vary_key()),
        is_lower_name(request_private_network_key()),
        is_lower_name(allow_private_network_key()),
        allow_private_network_key() != allow_origin_key(),
        allow_private_network_key() != allow_methods_key(),
        allow_private_network_key() != allow_headers_key(),
        allow_private_network_key() != allow_credentials_key(),
        allow_private_network_key() != expose_headers_key(),
        allow_private_network_key() != max_age_key(),
        allow_private_network_key() != vary_key(),
        allow_origin_key() != allow_methods_key(),
        allow_origin_key() != allow_headers_key(),
        allow_origin_key() != allow_credentials_key(),
        allow_origin_key() != expose_headers_key(),
        allow_origin_key() != max_age_key(),
        allow_origin_key() != vary_key(),
        allow_methods_key() != allow_headers_key(),
        allow_methods_key() != allow_credentials_key(),
        allow_methods_key() != expose_headers_key(),
        allow_methods_key() != max_age_key(),
        allow_methods_key() != vary_key(),
        allow_headers_key() != allow_credentials_key(),
        allow_headers_key() != expose_headers_key(),
        allow_headers_key() != max_age_key(),
        allow_headers_key() != vary_key(),
        allow_credentials_key() != expose_headers_key(),
        allow_credentials_key() != max_age_key(),
        allow_credentials_key() != vary_key(),
        expose_headers_key() != max_age_key(),
        expose_headers_key() != vary_key(),
        max_age_key() != vary_key(),
        is_header_value(wildcard_value()),
        is_header_value(true_value()),
        is_header_value(vary_list(false)),
        is_header_value(vary_list(true)),
        is_header_value(basic_vary_suffix()),
        is_header_value(private_network_vary_entry()),
        is_header_value(list_separator()),
        basic_vary_suffix() == vary_suffix(false),
        basic_vary_suffix() + private_network_vary_entry() == vary_suffix(true),
        vary_list(false) + private_network_vary_entry() == vary_list(true),
        wildcard_value() == seq![42u8],
        list_separator() == seq![44u8, 32u8],
{
    reveal_strlit("origin");
    reveal_strlit("access-control-request-method");
    reveal_strlit("access-control-request-headers");
    reveal_strlit("access-control-allow-origin");
    reveal_strlit("access-control-allow-methods");
    reveal_strlit("access-control-allow-headers");
    reveal_strlit("access-control-allow-credentials");
    reveal_strlit("access-control-expose-headers");
    reveal_strlit("access-control-max-age");
    reveal_strlit("vary");
    reveal_strlit("*");
    reveal_strlit("true");
    reveal_strlit("Origin, Access-Control-Request-Method, Access-Control-Request-Headers");
    reveal_strlit(", Origin, Access-Control-Request-Method, Access-Control-Request-Headers");
    reveal_strlit(", ");
    vstd::string::is_ascii_spec_bytes("origin");
    vstd::string::is_ascii_spec_bytes("access-control-request-method");
    vstd::string::is_ascii_spec_bytes("access-control-request-headers");
    vstd::string::is_ascii_spec_bytes("access-control-allow-origin");
    vstd::string::is_ascii_spec_bytes("access-control-allow-methods");
    vstd::string::is_ascii_spec_bytes("access-control-allow-headers");
    vstd::string::is_ascii_spec_bytes("access-control-allow-credentials");
    vstd::string::is_ascii_spec_bytes("access-control-expose-headers");
    vstd::string::is_ascii_spec_bytes("access-control-max-age");
    vstd::string::is_ascii_spec_bytes("vary");
    vstd::string::is_ascii_spec_bytes("*");
    vstd::string::is_ascii_spec_bytes("true");
    vstd::string::is_ascii_spec_bytes(
        "Origin, Access-Control-Request-Method, Access-Control-Request-Headers",
    );
    vstd::string::is_ascii_spec_bytes(
        ", Origin, Access-Control-Request-Method, Access-Control-Request-Headers",
    );
    vstd::string::is_ascii_spec_bytes(", ");
    reveal_strlit("access-control-request-private-network");
    reveal_strlit("access-control-allow-private-network");
    reveal_strlit("Origin, Access-Control-Request-Method, Access-Control-Request-Headers, Access-Control-Request-Private-Network");
    reveal_strlit(", Access-Control-Request-Private-Network");
    vstd::string::is_ascii_spec_bytes("access-control-request-private-network");
    vstd::string::is_ascii_spec_bytes("access-control-allow-private-network");
    vstd::string::is_ascii_spec_bytes("Origin, Access-Control-Request-Method, Access-Control-Request-Headers, Access-Control-Request-Private-Network");
    vstd::string::is_ascii_spec_bytes(", Access-Control-Request-Private-Network");
    assert(allow_methods_key()[21] != allow_headers_key()[21]);
    assert(basic_vary_suffix() =~= vary_suffix(false));
    assert(basic_vary_suffix() + private_network_vary_entry() =~= vary_suffix(true));
    assert(vary_list(false) + private_network_vary_entry() =~= vary_list(true));
    assert(wildcard_value() =~= seq![42u8]);
    assert(list_separator() =~= seq![44u8, 32u8]);
}

} // verus!
