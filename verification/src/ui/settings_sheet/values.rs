//! What a value typed into a Settings field changes. A value is read in full before anything is
//! kept: a refused one leaves every setting as it was, and only a kept one is to be saved.

use vstd::prelude::*;
use crate::text::{string_from_chars, trim, trimmed};
use crate::ui::add_dialog::{connections_of, parse_connections};
use crate::ui::settings_sheet::names::{
    check_domains, check_servers, entries, entries_of, servers_refusal,
};
use crate::ui::settings_sheet::{headers_of, parse_headers, proxy_schemed, proxy_setting};
use crate::text::split_char;

verus! {

/// The settings these fields write.
pub struct Preferences {
    /// How many connections a download opens; None lets the engine decide.
    pub connections: Option<u16>,
    /// The user agent sent; None sends the program's own.
    pub user_agent: Option<String>,
    pub proxy: Option<String>,
    pub headers: Vec<(String, String)>,
    /// Whether name servers are asked over HTTPS rather than on port 53.
    pub dns_over_https: bool,
    /// The name servers as written.
    pub dns_servers_written: String,
    /// Whether the servers written are the ones in use, rather than one of the offered pairs.
    pub dns_custom: bool,
    /// The domains the system's own resolver answers for, as written.
    pub dns_system_domains: String,
}

/// The fields whose value is read here.
#[derive(Clone, Copy, Debug, PartialEq, Eq, Structural)]
pub enum Field {
    Connections,
    UserAgent,
    Proxy,
    NameServers,
    SystemDomains,
    Headers,
}

/// How many answers a field needs about its entries being IP addresses: one per name server,
/// one per system domain, none for the other fields.
pub open spec fn answers_needed(field: Field, text: Seq<char>) -> nat {
    match field {
        Field::NameServers => entries_of(trim(text)).len(),
        Field::SystemDomains => crate::ui::settings_sheet::names::domains_of(trim(text)).len(),
        _ => 0,
    }
}

/// The headers as their texts.
pub open spec fn header_texts(headers: Vec<(String, String)>) -> Seq<(Seq<char>, Seq<char>)> {
    headers@.map_values(|h: (String, String)| (h.0@, h.1@))
}

impl Preferences {
    /// A field's text applied: trimmed, read for its setting, and kept -- or, when it cannot be
    /// read, refused with the reason and every setting left as it was. `addresses` says, for
    /// the name-server and system-domain fields, which of their entries read as IP addresses.
    pub fn apply(&mut self, field: Field, text: &str, addresses: &[bool]) -> (r: Result<(), String>)
        requires
            addresses@.len() == answers_needed(field, text@),
        ensures
            r is Err ==> *final(self) == *old(self),
            r is Ok ==> match field {
                Field::Connections => *final(self) == (Preferences {
                    connections: final(self).connections,
                    ..*old(self)
                }) && connections_of(trim(text@)) == Some(final(self).connections),
                Field::UserAgent => *final(self) == (Preferences {
                    user_agent: final(self).user_agent,
                    ..*old(self)
                }) && match final(self).user_agent {
                    Some(a) => a@ == trim(text@) && a@.len() > 0,
                    None => trim(text@).len() == 0,
                },
                Field::Proxy => *final(self) == (Preferences {
                    proxy: final(self).proxy,
                    ..*old(self)
                }) && match final(self).proxy {
                    Some(p) => p@ == trim(text@) && proxy_schemed(trim(text@)),
                    None => trim(text@).len() == 0,
                },
                Field::NameServers => *final(self) == (Preferences {
                    dns_servers_written: final(self).dns_servers_written,
                    dns_custom: true,
                    ..*old(self)
                }) && final(self).dns_servers_written@ == trim(text@),
                Field::SystemDomains => *final(self) == (Preferences {
                    dns_system_domains: final(self).dns_system_domains,
                    ..*old(self)
                }) && final(self).dns_system_domains@ == trim(text@),
                Field::Headers => *final(self) == (Preferences {
                    headers: final(self).headers,
                    ..*old(self)
                }) && headers_of(split_char(trim(text@), ';')) == Some(
                    header_texts(final(self).headers),
                ),
            },
            match field {
                Field::Connections => r is Ok <==> connections_of(trim(text@)) is Some,
                Field::UserAgent => r is Ok,
                Field::Proxy => r is Ok <==> (trim(text@).len() == 0 || proxy_schemed(
                    trim(text@),
                )),
                Field::NameServers => r is Ok <==> servers_refusal(
                    entries_of(trim(text@)),
                    old(self).dns_over_https,
                    addresses@,
                ) is None,
                Field::SystemDomains => r is Ok <==> !addresses@.contains(true),
                Field::Headers => r is Ok <==> headers_of(split_char(trim(text@), ';')) is Some,
            },
    {
        let t = string_from_chars(trimmed(text).as_slice());
        proof {
            crate::text::lemma_trim_twice(text@);
        }
        match field {
            Field::Connections => {
                let n = match parse_connections(t.as_str()) {
                    Ok(n) => n,
                    Err(why) => return Err(why),
                };
                self.connections = n;
            },
            Field::UserAgent => {
                self.user_agent = if t.as_str().is_empty() {
                    None
                } else {
                    Some(t)
                };
            },
            Field::Proxy => {
                let p = match proxy_setting(t.as_str()) {
                    Ok(p) => p,
                    Err(why) => return Err(why),
                };
                self.proxy = p;
            },
            Field::NameServers => {
                let servers = entries(t.as_str());
                if let Err(why) = check_servers(servers.as_slice(), self.dns_over_https, addresses) {
                    return Err(why);
                }
                self.dns_servers_written = t;
                self.dns_custom = true;
            },
            Field::SystemDomains => {
                if let Err(why) = check_domains(addresses) {
                    return Err(why);
                }
                self.dns_system_domains = t;
            },
            Field::Headers => {
                self.headers = match parse_headers(t.as_str()) {
                    Ok(h) => h,
                    Err(why) => return Err(why),
                };
            },
        }
        Ok(())
    }
}

} // verus!
