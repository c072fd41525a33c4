//! The orchestrator's settings, as far as they are decided rather than
//! read: defaults, the choice of the logging directives, and the endpoints
//! derived from the settings.
use vstd::prelude::*;

use crate::text::{concat2, concat3, decimal, u16_to_text};
use crate::url_model::{url_parse, UrlParseError, UrlView, WebUrl};

pub mod http;
pub mod logging;
pub mod monitoring;

verus! {

/// The text `http://{address}:{port}{path}`.
pub open spec fn local_url_text(address: Seq<char>, port: u16, path: Seq<char>) -> Seq<char> {
    "http://"@ + address + ":"@ + decimal(port as nat) + path
}

/// Parses `http://{address}:{port}{path}`.
fn local_url(address: &str, port: u16, path: &str) -> (r: Result<WebUrl, UrlParseError>)
    ensures
        match r {
            Ok(u) => url_parse(local_url_text(address@, port, path@)) == Ok::<UrlView, Seq<char>>(u@),
            Err(e) => url_parse(local_url_text(address@, port, path@)) == Err::<UrlView, Seq<char>>(e@),
        },
{
    let port_text = u16_to_text(port);
    let head = concat3("http://", address, ":");
    let with_port = concat2(head.as_str(), port_text.as_str());
    let text = concat2(with_port.as_str(), path);
    WebUrl::parse(text.as_str())
}

/// The URL of the metrics endpoint of an orchestrator that listens on
/// `address` and `port`: `http://{address}:{port}/metrics`.
pub fn metrics_url_from_settings(address: &str, port: u16) -> (r: Result<WebUrl, UrlParseError>)
    ensures
        match r {
            Ok(u) => url_parse(local_url_text(address@, port, "/metrics"@)) == Ok::<UrlView, Seq<char>>(u@),
            Err(e) => url_parse(local_url_text(address@, port, "/metrics"@)) == Err::<UrlView, Seq<char>>(e@),
        },
{
    local_url(address, port, "/metrics")
}

/// The message for a missing configuration file, which lists the searched
/// paths quoted and separated by `, `.
pub open spec fn missing_config_text(paths: Seq<Seq<char>>) -> Seq<char> {
    "Couldn't find a configuration file. Searched: "@ + quoted_list(paths) + "."@
}

/// The paths, each in double quotes, separated by `, `.
pub open spec fn quoted_list(paths: Seq<Seq<char>>) -> Seq<char>
    decreases paths.len(),
{
    if paths.len() == 0 {
        Seq::empty()
    } else if paths.len() == 1 {
        "\""@ + paths[0] + "\""@
    } else {
        quoted_list(paths.drop_last()) + ", "@ + "\""@ + paths.last() + "\""@
    }
}

/// The message for a missing configuration file.
pub fn missing_config_message(paths: &Vec<String>) -> (s: String)
    ensures
        s@ == missing_config_text(paths@.map_values(|p: String| p@)),
{
    let ghost all = paths@.map_values(|p: String| p@);
    let mut list = String::new();
    let mut i: usize = 0;
    while i < paths.len()
        invariant
            i <= paths@.len(),
            all == paths@.map_values(|p: String| p@),
            list@ == quoted_list(all.subrange(0, i as int)),
        decreases paths.len() - i,
    {
        let quoted = concat3("\"", paths[i].as_str(), "\"");
        let ghost prefix = all.subrange(0, i as int + 1);
        proof {
            assert(prefix.drop_last() =~= all.subrange(0, i as int));
            assert(prefix.last() == paths@[i as int]@);
        }
        if i == 0 {
            list = quoted;
            assert(prefix.len() == 1);
        } else {
            list = concat3(list.as_str(), ", ", quoted.as_str());
            assert(list@ =~= quoted_list(prefix.drop_last()) + ", "@ + "\""@ + prefix.last() + "\""@);
        }
        i = i + 1;
    }
    assert(all.subrange(0, all.len() as int) =~= all);
    concat3("Couldn't find a configuration file. Searched: ", list.as_str(), ".")
}

} // verus!
