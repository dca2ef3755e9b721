//! The URL a window's traffic goes through, built from a proxy record.
use vstd::prelude::*;
use url::Url;
use crate::text::{chars_of, decimal, i32_decimal, string_from_chars, text_equals};
use crate::types::ProxyInfo;

verus! {

/// What `Url::parse` makes of a text, serialized again; none when the text
/// is not a valid absolute URL.
pub uninterp spec fn parsed_url(s: Seq<char>) -> Option<Seq<char>>;

/// The serialization of the URL parsed from `s` after `set_username(user)`
/// and `set_password(Some(pass))`; none when `s` does not parse.
pub uninterp spec fn url_with_credentials(s: Seq<char>, user: Seq<char>, pass: Seq<char>) -> Option<
    Seq<char>,
>;

/// `Url::parse` from the url crate, the parsed URL being handed back as its
/// serialization (`Url`'s `Display`). The result is named by `parsed_url`.
#[verifier::external_body]
fn parse_url_text(s: &str) -> (r: Option<String>)
    ensures
        match r {
            Some(t) => parsed_url(s@) == Some(t@),
            None => parsed_url(s@) is None,
        },
{
    Url::parse(s).ok().map(|u| u.to_string())
}

/// `Url::parse`, then `Url::set_username` and `Url::set_password`, whose
/// refusals are ignored as the caller ignores them, handed back as the
/// serialization. The result is named by `url_with_credentials`.
#[verifier::external_body]
fn add_url_credentials(s: &str, user: &str, pass: &str) -> (r: Option<String>)
    ensures
        match r {
            Some(t) => url_with_credentials(s@, user@, pass@) == Some(t@),
            None => url_with_credentials(s@, user@, pass@) is None,
        },
{
    match Url::parse(s) {
        Ok(mut u) => {
            let _ = u.set_username(user);
            let _ = u.set_password(Some(pass));
            Some(u.to_string())
        },
        Err(_) => None,
    }
}

/// `scheme://host:port` for the supported proxy types, empty otherwise.
pub open spec fn proxy_base(proxy_type: Seq<char>, host: Seq<char>, port: int) -> Seq<char> {
    if proxy_type == "http"@ {
        "http://"@ + host + ":"@ + decimal(port)
    } else if proxy_type == "socks5"@ {
        "socks5://"@ + host + ":"@ + decimal(port)
    } else {
        Seq::empty()
    }
}

/// The proxy URL text once credentials are added: with both a user name and
/// a password the base URL is parsed and given them (the base itself when it
/// does not parse); otherwise the base as it is.
pub open spec fn proxy_with_auth(base: Seq<char>, user: Option<Seq<char>>, pass: Option<Seq<char>>) -> Seq<char> {
    if base.len() == 0 {
        base
    } else {
        match (user, pass) {
            (Some(u), Some(p)) => match url_with_credentials(base, u, p) {
                Some(t) => t,
                None => base,
            },
            _ => base,
        }
    }
}

pub open spec fn opt_chars(o: Option<String>) -> Option<Seq<char>> {
    match o {
        Some(s) => Some(s@),
        None => None,
    }
}

/// The base URL of a proxy.
pub fn proxy_base_url(proxy_type: &str, host: &str, port: i32) -> (r: String)
    ensures
        r@ == proxy_base(proxy_type@, host@, port as int),
{
    let scheme = if text_equals(proxy_type, "http") {
        String::from_str("http://")
    } else if text_equals(proxy_type, "socks5") {
        String::from_str("socks5://")
    } else {
        return string_from_chars(Vec::<char>::new().as_slice());
    };
    let digits = i32_decimal(port);
    let port_text = string_from_chars(digits.as_slice());
    let r = scheme.concat(host);
    let r = r.concat(":");
    r.concat(port_text.as_str())
}

/// The proxy URL of a proxy record, serialized: none for an unsupported type
/// or a URL that does not parse.
pub fn build_proxy_url(proxy: &ProxyInfo) -> (r: Option<String>)
    ensures
        ({
            let t = proxy_with_auth(
                proxy_base(proxy.proxy_type@, proxy.host@, proxy.port as int),
                opt_chars(proxy.username),
                opt_chars(proxy.password),
            );
            match r {
                Some(u) => t.len() > 0 && parsed_url(t) == Some(u@),
                None => t.len() == 0 || parsed_url(t) is None,
            }
        }),
{
    let base = proxy_base_url(proxy.proxy_type.as_str(), proxy.host.as_str(), proxy.port);
    let base_chars = chars_of(base.as_str());
    let with_auth: String = if base_chars.len() == 0 {
        base
    } else {
        match (&proxy.username, &proxy.password) {
            (Some(u), Some(p)) => match add_url_credentials(base.as_str(), u.as_str(), p.as_str()) {
                Some(t) => t,
                None => base,
            },
            _ => base,
        }
    };
    let auth_chars = chars_of(with_auth.as_str());
    if auth_chars.len() == 0 {
        return None;
    }
    parse_url_text(with_auth.as_str())
}

} // verus!
