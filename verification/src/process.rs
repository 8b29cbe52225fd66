//! Decisions around the game client's processes and launch: which process
//! names belong to the client, which command-line arguments a launch uses,
//! and which install locations a launcher registry file names. Listing and
//! killing processes, file existence checks and spawning live outside the
//! library.

use vstd::prelude::*;

use crate::config_proxy::obj_of_text;
use crate::config_proxy::str_spec;
use crate::text::contains_seq;
use crate::text::contains_sub;
use crate::text::dec_spec;
use crate::text::u16_to_string;

verus! {

/// Whether a process name belongs to the game client or a game it launched.
pub open spec fn riot_name_spec(name: Seq<char>) -> bool {
    ||| contains_seq(name, "RiotClientServices"@)
    ||| contains_seq(name, "LeagueClient"@)
    ||| contains_seq(name, "VALORANT-Win64-Shipping"@)
    ||| contains_seq(name, "Riot Client"@)
}

/// Whether a process name belongs to the game client or a game it launched.
pub fn is_riot_process_name(name: &str) -> (r: bool)
    ensures
        r == riot_name_spec(name@),
{
    contains_sub(name, "RiotClientServices") || contains_sub(name, "LeagueClient") || contains_sub(
        name,
        "VALORANT-Win64-Shipping",
    ) || contains_sub(name, "Riot Client")
}

/// The client flags for a launch: config URL pointed at the local proxy,
/// the product to start, and the live patchline.
pub fn launch_args(game: &str, config_proxy_port: u16) -> (r: Result<Vec<String>, String>)
    ensures
        (game@ == "league_of_legends"@ || game@ == "valorant"@) <==> r is Ok,
        match r {
            Ok(args) => {
                &&& args@.len() == 3
                &&& args@[0]@ == "--client-config-url=http://127.0.0.1:"@ + dec_spec(
                    config_proxy_port as int,
                )
                &&& args@[1]@ == "--launch-product="@ + game@
                &&& args@[2]@ == "--launch-patchline=live"@
            },
            Err(e) => e@ == "Unknown game: "@ + game@,
        },
{
    if !(crate::text::str_eq(game, "league_of_legends") || crate::text::str_eq(game, "valorant")) {
        let mut e = String::from_str("Unknown game: ");
        e.append(game);
        return Err(e);
    }
    let mut url = String::from_str("--client-config-url=http://127.0.0.1:");
    let port = u16_to_string(config_proxy_port);
    url.append(port.as_str());
    let mut product = String::from_str("--launch-product=");
    product.append(game);
    let mut args: Vec<String> = Vec::new();
    args.push(url);
    args.push(product);
    args.push(String::from_str("--launch-patchline=live"));
    Ok(args)
}

/// The string value under a key of a parsed JSON object, when both exist.
pub open spec fn key_str(om: Map<Seq<char>, serde_json::Value>, k: Seq<char>) -> Option<Seq<char>> {
    if om.dom().contains(k) {
        str_spec(om[k])
    } else {
        None
    }
}

/// A string option as a sequence of zero or one candidates.
pub open spec fn opt_to_seq(o: Option<Seq<char>>) -> Seq<Seq<char>> {
    match o {
        Some(s) => seq![s],
        None => Seq::<Seq<char>>::empty(),
    }
}

/// The install locations named in the launcher's registry file, in priority
/// order: `rc_live`, `rc_default`, `rc_beta`. The caller takes the first
/// one that exists on disk. An unreadable registry yields no candidates.
pub fn install_candidates(registry_text: &str) -> (r: Vec<String>)
    ensures
        ({
            let cands = match obj_of_text(registry_text@) {
                Some(om) => opt_to_seq(key_str(om, "rc_live"@)) + opt_to_seq(
                    key_str(om, "rc_default"@),
                ) + opt_to_seq(key_str(om, "rc_beta"@)),
                None => Seq::<Seq<char>>::empty(),
            };
            &&& r@.len() == cands.len()
            &&& forall|i: int| 0 <= i < r@.len() ==> r@[i]@ == cands[i]
        }),
{
    let mut r: Vec<String> = Vec::new();
    match crate::config_proxy::parse_object(registry_text) {
        None => r,
        Some(m) => {
            match crate::config_proxy::map_get(&m, "rc_live") {
                Some(v) => {
                    match crate::config_proxy::value_as_str(v) {
                        Some(s) => r.push(s),
                        None => {},
                    }
                },
                None => {},
            }
            match crate::config_proxy::map_get(&m, "rc_default") {
                Some(v) => {
                    match crate::config_proxy::value_as_str(v) {
                        Some(s) => r.push(s),
                        None => {},
                    }
                },
                None => {},
            }
            match crate::config_proxy::map_get(&m, "rc_beta") {
                Some(v) => {
                    match crate::config_proxy::value_as_str(v) {
                        Some(s) => r.push(s),
                        None => {},
                    }
                },
                None => {},
            }
            r
        },
    }
}

} // verus!
