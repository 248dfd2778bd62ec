//! Network settings: which traffic goes through the proxy.
use vstd::prelude::*;

use crate::chars::{chars_of, string_of};
use crate::text::{trim, trim_chars};

verus! {

/// Whether provider and vendor traffic use the proxy, and the proxy address.
#[derive(Clone, Debug)]
pub struct NetworkSettings {
    pub easyeda_use_proxy: bool,
    pub lcsc_use_proxy: bool,
    pub proxy_address: String,
}

impl Default for NetworkSettings {
    /// Provider traffic through a local proxy, vendor traffic direct.
    fn default() -> (r: NetworkSettings)
        ensures
            r.easyeda_use_proxy,
            !r.lcsc_use_proxy,
            r.proxy_address@ == "http://127.0.0.1:10808"@,
    {
        NetworkSettings {
            easyeda_use_proxy: true,
            lcsc_use_proxy: false,
            proxy_address: String::from_str("http://127.0.0.1:10808"),
        }
    }
}

/// The proxy a client is built with: the trimmed address, when it is not blank.
pub open spec fn effective(p: Option<Seq<char>>) -> Option<Seq<char>> {
    match p {
        Some(a) => if trim(a).len() > 0 {
            Some(trim(a))
        } else {
            None
        },
        None => None,
    }
}

/// The proxy a client is built with (see `effective`).
pub fn effective_proxy(proxy: Option<&str>) -> (r: Option<String>)
    ensures
        crate::bundle::opt_view(r) == effective(
            match proxy {
                Some(p) => Some(p@),
                None => None,
            },
        ),
{
    match proxy {
        Some(p) => {
            let c = chars_of(p);
            let t = trim_chars(&c);
            if t.len() > 0 {
                Some(string_of(&t))
            } else {
                None
            }
        },
        None => None,
    }
}

/// The address that must be a valid proxy URL before the settings are kept:
/// the trimmed address, when some traffic uses the proxy and it is not blank.
pub fn proxy_to_validate(settings: &NetworkSettings) -> (r: Option<String>)
    ensures
        crate::bundle::opt_view(r) == if (settings.easyeda_use_proxy || settings.lcsc_use_proxy)
            && trim(settings.proxy_address@).len() > 0 {
            Some(trim(settings.proxy_address@))
        } else {
            None
        },
{
    if !(settings.easyeda_use_proxy || settings.lcsc_use_proxy) {
        return None;
    }
    let c = chars_of(settings.proxy_address.as_str());
    let t = trim_chars(&c);
    if t.len() > 0 {
        Some(string_of(&t))
    } else {
        None
    }
}

/// Proxies of the three clients: vendor, provider primary, provider fallback.
/// The fallback takes the route the primary does not.
pub fn client_proxies(settings: &NetworkSettings) -> (r: (Option<String>, Option<String>, Option<String>))
    ensures
        r.0 == (if settings.lcsc_use_proxy {
            Some(settings.proxy_address)
        } else {
            None
        }),
        r.1 == (if settings.easyeda_use_proxy {
            Some(settings.proxy_address)
        } else {
            None
        }),
        r.2 == (if settings.easyeda_use_proxy {
            None
        } else {
            Some(settings.proxy_address)
        }),
{
    let lcsc = if settings.lcsc_use_proxy {
        Some(settings.proxy_address.clone())
    } else {
        None
    };
    let primary = if settings.easyeda_use_proxy {
        Some(settings.proxy_address.clone())
    } else {
        None
    };
    let fallback = if settings.easyeda_use_proxy {
        None
    } else {
        Some(settings.proxy_address.clone())
    };
    (lcsc, primary, fallback)
}

} // verus!
