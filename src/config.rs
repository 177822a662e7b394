//! Service settings: built-in defaults, overridden by what a settings file gives.
use crate::models::duplicate_opt;
use vstd::prelude::*;

verus! {

#[derive(Debug, Clone, Default, PartialEq, Eq)]
pub struct JWTSettings {
    pub secret: Option<String>,
    pub expiration: Option<i64>,
}

#[derive(Debug, Clone, Default, PartialEq, Eq)]
pub struct DatabaseSettings {
    pub url: String,
}

#[derive(Debug, Clone, Default, PartialEq, Eq)]
pub struct ServiceSettings {
    pub port: u16,
    pub logfile: Option<String>,
}

#[derive(Debug, Clone, Default, PartialEq, Eq)]
pub struct LogSettings {
    pub debug: bool,
}

#[derive(Debug, Clone, Default, PartialEq, Eq)]
pub struct LDAPSettings {
    pub url: String,
    pub organization: String,
    pub filter: String,
}

#[derive(Debug, Clone, Default, PartialEq, Eq)]
pub struct Settings {
    pub service: ServiceSettings,
    pub database: DatabaseSettings,
    pub ldap: LDAPSettings,
    pub jwt: JWTSettings,
    pub log: LogSettings,
}

/// The values a settings file sets; each one left out keeps its default.
#[derive(Debug, Clone, Default, PartialEq, Eq)]
pub struct SettingsLayer {
    pub service_port: Option<u16>,
    pub service_logfile: Option<String>,
    pub database_url: Option<String>,
    pub ldap_url: Option<String>,
    pub ldap_organization: Option<String>,
    pub ldap_filter: Option<String>,
    pub jwt_secret: Option<String>,
    pub jwt_expiration: Option<i64>,
    pub log_debug: Option<bool>,
}

pub open spec fn default_database_url_text() -> Seq<char> {
    "roompla.sqlite"@
}

pub open spec fn default_ldap_url_text() -> Seq<char> {
    "ldaps://ldapmaster.cms.hu-berlin.de"@
}

pub open spec fn default_ldap_organization_text() -> Seq<char> {
    "ou=users,ou=Benutzerverwaltung,ou=Computer- und Medienservice,o=Humboldt-Universitaet zu Berlin,c=DE"@
}

pub open spec fn default_ldap_filter_text() -> Seq<char> {
    "(uid=*)"@
}

pub fn default_database_url() -> (r: String)
    ensures
        r@ == default_database_url_text(),
{
    "roompla.sqlite".to_owned()
}

pub fn default_ldap_url() -> (r: String)
    ensures
        r@ == default_ldap_url_text(),
{
    "ldaps://ldapmaster.cms.hu-berlin.de".to_owned()
}

pub fn default_ldap_organization() -> (r: String)
    ensures
        r@ == default_ldap_organization_text(),
{
    "ou=users,ou=Benutzerverwaltung,ou=Computer- und Medienservice,o=Humboldt-Universitaet zu Berlin,c=DE".to_owned()
}

pub fn default_ldap_filter() -> (r: String)
    ensures
        r@ == default_ldap_filter_text(),
{
    "(uid=*)".to_owned()
}

pub fn default_service_port() -> (r: u16)
    ensures
        r == 5050,
{
    5050
}

/// The text of an optional string.
pub open spec fn opt_text(s: Option<String>) -> Option<Seq<char>> {
    match s {
        Some(x) => Some(x@),
        None => None,
    }
}

/// A text given by a layer, else the default.
pub open spec fn layered(given: Option<String>, default: Seq<char>) -> Seq<char> {
    match given {
        Some(x) => x@,
        None => default,
    }
}

fn pick_text(given: &Option<String>, default: String) -> (r: String)
    ensures
        r@ == layered(*given, default@),
{
    match given {
        Some(x) => x.clone(),
        None => default,
    }
}

impl Settings {
    /// Whether the settings hold the built-in defaults: no token secret or
    /// lifetime, no log file, no debug logging.
    pub open spec fn is_default(&self) -> bool {
        &&& self.service.port == 5050
        &&& self.service.logfile is None
        &&& self.database.url@ == default_database_url_text()
        &&& self.ldap.url@ == default_ldap_url_text()
        &&& self.ldap.organization@ == default_ldap_organization_text()
        &&& self.ldap.filter@ == default_ldap_filter_text()
        &&& self.jwt.secret is None
        &&& self.jwt.expiration is None
        &&& !self.log.debug
    }

    /// The built-in default settings.
    pub fn new() -> (r: Settings)
        ensures
            r.is_default(),
    {
        Settings {
            service: ServiceSettings { port: default_service_port(), logfile: None },
            database: DatabaseSettings { url: default_database_url() },
            ldap: LDAPSettings {
                url: default_ldap_url(),
                organization: default_ldap_organization(),
                filter: default_ldap_filter(),
            },
            jwt: JWTSettings { secret: None, expiration: None },
            log: LogSettings { debug: false },
        }
    }

    /// The defaults, with every value that the file's layer sets taking its place.
    pub fn with_file(layer: &SettingsLayer) -> (r: Settings)
        ensures
            r.service.port == (match layer.service_port { Some(p) => p, None => 5050u16 }),
            opt_text(r.service.logfile) == opt_text(layer.service_logfile),
            r.database.url@ == layered(layer.database_url, default_database_url_text()),
            r.ldap.url@ == layered(layer.ldap_url, default_ldap_url_text()),
            r.ldap.organization@ == layered(layer.ldap_organization, default_ldap_organization_text()),
            r.ldap.filter@ == layered(layer.ldap_filter, default_ldap_filter_text()),
            opt_text(r.jwt.secret) == opt_text(layer.jwt_secret),
            r.jwt.expiration == layer.jwt_expiration,
            r.log.debug == (match layer.log_debug { Some(d) => d, None => false }),
    {
        let port = match layer.service_port {
            Some(p) => p,
            None => default_service_port(),
        };
        let debug = match layer.log_debug {
            Some(d) => d,
            None => false,
        };
        Settings {
            service: ServiceSettings { port, logfile: duplicate_opt(&layer.service_logfile) },
            database: DatabaseSettings { url: pick_text(&layer.database_url, default_database_url()) },
            ldap: LDAPSettings {
                url: pick_text(&layer.ldap_url, default_ldap_url()),
                organization: pick_text(&layer.ldap_organization, default_ldap_organization()),
                filter: pick_text(&layer.ldap_filter, default_ldap_filter()),
            },
            jwt: JWTSettings { secret: duplicate_opt(&layer.jwt_secret), expiration: layer.jwt_expiration },
            log: LogSettings { debug },
        }
    }

    /// Puts `generated` in place of a token secret that is not configured.
    pub fn ensure_secret(&mut self, generated: String)
        ensures
            opt_text(final(self).jwt.secret) == (match opt_text(old(self).jwt.secret) {
                Some(s) => Some(s),
                None => Some(generated@),
            }),
            final(self).jwt.expiration == old(self).jwt.expiration,
            final(self).service.port == old(self).service.port,
            opt_text(final(self).service.logfile) == opt_text(old(self).service.logfile),
            final(self).database.url@ == old(self).database.url@,
            final(self).ldap.url@ == old(self).ldap.url@,
            final(self).ldap.organization@ == old(self).ldap.organization@,
            final(self).ldap.filter@ == old(self).ldap.filter@,
            final(self).log.debug == old(self).log.debug,
    {
        if self.jwt.secret.is_none() {
            self.jwt.secret = Some(generated);
        }
    }
}

} // verus!
