//! Mail-server defaults for identity-provider realms.
//!
//! A realm's outgoing-mail settings are derived from the deployment
//! configuration; every setting the configuration leaves open falls back to
//! a fixed default, so a realm always gets a complete set of six entries.

use vstd::prelude::*;

verus! {

use crate::dec::{append_dec, dec_seq};

/// The deployment's optional mail-server configuration.
#[derive(Clone, Debug)]
pub struct SmtpConfig {
    pub starttls: Option<bool>,
    pub port: Option<u16>,
    pub host: Option<String>,
    pub from: Option<String>,
    pub from_display_name: Option<String>,
    pub ssl: Option<bool>,
}

/// Wire rendering of a configured flag.
pub open spec fn bool_str(b: bool) -> Seq<char> {
    if b {
        "true"@
    } else {
        "false"@
    }
}

pub open spec fn smtp_starttls_value(cfg: SmtpConfig) -> Seq<char> {
    match cfg.starttls {
        Some(b) => bool_str(b),
        None => "false"@,
    }
}

pub open spec fn smtp_port_value(cfg: SmtpConfig) -> Seq<char> {
    match cfg.port {
        Some(p) => dec_seq(p as nat),
        None => "1025"@,
    }
}

pub open spec fn smtp_host_value(cfg: SmtpConfig) -> Seq<char> {
    match cfg.host {
        Some(h) => h@,
        None => "smtp"@,
    }
}

pub open spec fn smtp_from_value(cfg: SmtpConfig) -> Seq<char> {
    match cfg.from {
        Some(f) => f@,
        None => "noreply@qm.local"@,
    }
}

pub open spec fn smtp_from_display_name_value(cfg: SmtpConfig) -> Seq<char> {
    match cfg.from_display_name {
        Some(f) => f@,
        None => "qm"@,
    }
}

pub open spec fn smtp_ssl_value(cfg: SmtpConfig) -> Seq<char> {
    match cfg.ssl {
        Some(b) => bool_str(b),
        None => "false"@,
    }
}

/// Render a flag.
fn bool_string(b: bool) -> (r: String)
    ensures
        r@ == bool_str(b),
{
    if b {
        String::from_str("true")
    } else {
        String::from_str("false")
    }
}

/// The complete mail-server settings for a realm: each configured value
/// taken as given, each missing one replaced by its fixed default.
pub fn get_smtp_server_defaults(cfg: &SmtpConfig) -> (r: Option<Vec<(String, String)>>)
    ensures
        r is Some,
        ({
            let entries = r->0@;
            &&& entries.len() == 6
            &&& entries[0].0@ == "starttls"@ && entries[0].1@ == smtp_starttls_value(*cfg)
            &&& entries[1].0@ == "port"@ && entries[1].1@ == smtp_port_value(*cfg)
            &&& entries[2].0@ == "host"@ && entries[2].1@ == smtp_host_value(*cfg)
            &&& entries[3].0@ == "from"@ && entries[3].1@ == smtp_from_value(*cfg)
            &&& entries[4].0@ == "fromDisplayName"@ && entries[4].1@
                == smtp_from_display_name_value(*cfg)
            &&& entries[5].0@ == "ssl"@ && entries[5].1@ == smtp_ssl_value(*cfg)
        }),
{
    let mut defaults: Vec<(String, String)> = Vec::new();
    let starttls = match cfg.starttls {
        Some(b) => bool_string(b),
        None => String::from_str("false"),
    };
    defaults.push((String::from_str("starttls"), starttls));
    let port = match cfg.port {
        Some(p) => {
            let mut s = String::new();
            append_dec(&mut s, p as u64);
            s
        },
        None => String::from_str("1025"),
    };
    defaults.push((String::from_str("port"), port));
    let host = match &cfg.host {
        Some(h) => h.clone(),
        None => String::from_str("smtp"),
    };
    defaults.push((String::from_str("host"), host));
    let from = match &cfg.from {
        Some(f) => f.clone(),
        None => String::from_str("noreply@qm.local"),
    };
    defaults.push((String::from_str("from"), from));
    let from_display_name = match &cfg.from_display_name {
        Some(f) => f.clone(),
        None => String::from_str("qm"),
    };
    defaults.push((String::from_str("fromDisplayName"), from_display_name));
    let ssl = match cfg.ssl {
        Some(b) => bool_string(b),
        None => String::from_str("false"),
    };
    defaults.push((String::from_str("ssl"), ssl));
    Some(defaults)
}

} // verus!
