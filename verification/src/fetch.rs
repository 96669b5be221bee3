//! How an archive is fetched: directly, or through the proxy that the
//! environment names.

use vstd::prelude::*;

verus! {

/// The way a request takes.
#[derive(Clone, Debug, PartialEq, Eq)]
pub enum Route {
    /// Straight to the host.
    Direct,
    /// Through the proxy at this address.
    Proxy(String),
}

/// A route as a value.
pub enum Routed {
    Direct,
    Proxy(Seq<char>),
}

impl View for Route {
    type V = Routed;

    open spec fn view(&self) -> Routed {
        match self {
            Route::Direct => Routed::Direct,
            Route::Proxy(address) => Routed::Proxy(address@),
        }
    }
}

/// The text of an optional string.
pub open spec fn text_of(value: Option<String>) -> Option<Seq<char>> {
    match value {
        Some(text) => Some(text@),
        None => None,
    }
}

/// The proxy setting in force: the value of `https_proxy` if that variable
/// is set, the value of `HTTPS_PROXY` otherwise.
pub open spec fn setting_of(https_proxy: Option<Seq<char>>, https_proxy_upper: Option<Seq<char>>)
    -> Option<Seq<char>> {
    if https_proxy is Some {
        https_proxy
    } else {
        https_proxy_upper
    }
}

/// The route for a proxy setting: through the proxy if there is a setting
/// and it is a valid proxy address, direct otherwise. A malformed setting is
/// passed over in silence.
pub open spec fn route_of(setting: Option<Seq<char>>, valid: bool) -> Routed {
    match setting {
        Some(address) => if valid {
            Routed::Proxy(address)
        } else {
            Routed::Direct
        },
        None => Routed::Direct,
    }
}

/// Whether `ureq` takes `address` for a proxy address.
pub uninterp spec fn is_proxy_address(address: Seq<char>) -> bool;

/// Whether the setting, if there is one, is a valid proxy address.
pub open spec fn is_valid_setting(setting: Option<Seq<char>>) -> bool {
    match setting {
        Some(address) => is_proxy_address(address),
        None => false,
    }
}

/// Asks `ureq::Proxy::new` whether it can parse `address`. The parser reads
/// nothing but its argument, so its verdict is a property of the address.
#[verifier::external_body]
fn parses_as_proxy(address: &str) -> (valid: bool)
    ensures
        valid == is_proxy_address(address@),
{
    ureq::Proxy::new(address).is_ok()
}

/// Picks the proxy setting in force from the values of the environment
/// variables `https_proxy` and `HTTPS_PROXY`, `None` standing for a variable
/// that is not set.
pub fn proxy_setting(https_proxy: Option<String>, https_proxy_upper: Option<String>) -> (setting:
    Option<String>)
    ensures
        setting == if https_proxy is Some {
            https_proxy
        } else {
            https_proxy_upper
        },
        text_of(setting) == setting_of(text_of(https_proxy), text_of(https_proxy_upper)),
{
    match https_proxy {
        Some(address) => Some(address),
        None => https_proxy_upper,
    }
}

/// Chooses the route for a proxy setting, given whether the setting is a
/// valid proxy address.
pub fn route_for(setting: Option<String>, valid: bool) -> (route: Route)
    ensures
        route@ == route_of(text_of(setting), valid),
{
    match setting {
        Some(address) => if valid {
            Route::Proxy(address)
        } else {
            Route::Direct
        },
        None => Route::Direct,
    }
}

/// Chooses the route of a download from the values of the environment
/// variables `https_proxy` and `HTTPS_PROXY`: through the proxy that the
/// setting in force names, or direct where there is no setting or it is
/// malformed.
pub fn select_route(https_proxy: Option<String>, https_proxy_upper: Option<String>) -> (route:
    Route)
    ensures
        route@ == route_of(
            setting_of(text_of(https_proxy), text_of(https_proxy_upper)),
            is_valid_setting(setting_of(text_of(https_proxy), text_of(https_proxy_upper))),
        ),
{
    let setting = proxy_setting(https_proxy, https_proxy_upper);
    let valid = match &setting {
        Some(address) => parses_as_proxy(address.as_str()),
        None => false,
    };
    route_for(setting, valid)
}

} // verus!
