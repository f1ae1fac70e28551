//! The address the service listens on.

use vstd::prelude::*;
use crate::decimal::{decimal, parse_port, port_number, port_text};
use crate::env::Dotenv;
use crate::fatal::Fatal;

verus! {

/// The host to listen on: what `HOST` is set to, else the loopback address.
/// The value is not interpreted; an empty one stays empty.
pub open spec fn host_setting(settings: Map<Seq<char>, Seq<char>>) -> Seq<char> {
    if settings.contains_key("HOST"@) {
        settings["HOST"@]
    } else {
        "127.0.0.1"@
    }
}

/// The text of the port to listen on: what `PORT` is set to, else `3000`.
pub open spec fn port_setting(settings: Map<Seq<char>, Seq<char>>) -> Seq<char> {
    if settings.contains_key("PORT"@) {
        settings["PORT"@]
    } else {
        "3000"@
    }
}

/// Host and port joined by a colon, the port as its shortest numeral.
pub open spec fn address_text(host: Seq<char>, port: u16) -> Seq<char> {
    host + seq![':'] + decimal(port as nat)
}

/// The listen address that the settings give, where the port is one.
pub open spec fn listen_address(settings: Map<Seq<char>, Seq<char>>) -> Option<Seq<char>> {
    match port_number(port_setting(settings)) {
        Some(port) => Some(address_text(host_setting(settings), port)),
        None => None,
    }
}

/// The port used where none is set is a port number.
pub proof fn lemma_default_port()
    ensures
        port_number("3000"@) == Some(3000u16),
{
    reveal_strlit("3000");
    let text = "3000"@;
    assert(text =~= seq!['3', '0', '0', '0']);
    assert(text.drop_last() =~= seq!['3', '0', '0']);
    assert(text.drop_last().drop_last() =~= seq!['3', '0']);
    assert(text.drop_last().drop_last().drop_last() =~= seq!['3']);
    assert(text.drop_last().drop_last().drop_last().drop_last() =~= Seq::<char>::empty());
    reveal_with_fuel(crate::decimal::decimal_value, 5);
    assert(crate::decimal::decimal_value(text) == 3000);
}

/// Without a `PORT` setting there is always a listen address.
pub proof fn lemma_address_without_port(settings: Map<Seq<char>, Seq<char>>)
    requires
        !settings.contains_key("PORT"@),
    ensures
        listen_address(settings) == Some(address_text(host_setting(settings), 3000u16)),
{
    lemma_default_port();
}

/// Joins host and port into the address to listen on.
pub fn format_address(host: &str, port: u16) -> (address: String)
    ensures
        address@ == address_text(host@, port),
{
    let mut address = host.to_owned();
    address.append(":");
    let numeral = port_text(port);
    address.append(numeral.as_str());
    proof {
        reveal_strlit(":");
        assert(":"@ =~= seq![':']);
    }
    address
}

/// The listen address, or the reason there is none.
pub fn try_get_address(env: &Dotenv) -> (resolved: Result<String, Fatal>)
    ensures
        match resolved {
            Ok(address) => listen_address(env@) == Some(address@),
            Err(fatal) => listen_address(env@) is None && fatal == Fatal::InvalidPort,
        },
{
    let host = env.get_or_default("HOST", "127.0.0.1");
    let port_text = env.get_or_default("PORT", "3000");
    match parse_port(port_text.as_str()) {
        Some(port) => Ok(format_address(host.as_str(), port)),
        None => Err(Fatal::InvalidPort),
    }
}

/// The listen address of settings whose port is a port number.
pub fn get_address(env: &Dotenv) -> (address: String)
    requires
        port_number(port_setting(env@)) is Some,
    ensures
        Some(address@) == listen_address(env@),
{
    match try_get_address(env) {
        Ok(address) => address,
        Err(_) => vstd::pervasive::unreached(),
    }
}

} // verus!
