//! Static description of the services the gateway knows at start-up.
use crate::registry::{fresh_record, keyed_by_name, registered, Record, ServiceRegistry};
use vstd::prelude::*;

verus! {

/// Why a configuration could not be produced.
#[derive(Clone, Debug)]
pub struct ConfigError(pub String);

/// Where one backend service listens.
#[derive(Clone, Debug)]
pub struct ServiceConfig {
    pub name: String,
    pub host: String,
    pub port: u16,
}

/// The gateway's own address and the services it routes to, each under a
/// key. Keys are meant to be distinct; where one repeats, the later entry
/// counts.
#[derive(Clone, Debug)]
pub struct Config {
    pub services: Vec<(String, ServiceConfig)>,
    pub host: String,
    pub port: u16,
}

pub struct ServiceConfigView {
    pub name: Seq<char>,
    pub host: Seq<char>,
    pub port: u16,
}

impl View for ServiceConfig {
    type V = ServiceConfigView;

    open spec fn view(&self) -> ServiceConfigView {
        ServiceConfigView { name: self.name@, host: self.host@, port: self.port }
    }
}

pub type EntryView = (Seq<char>, ServiceConfigView);

pub open spec fn entries_view(services: Vec<(String, ServiceConfig)>) -> Seq<EntryView> {
    services@.map_values(|e: (String, ServiceConfig)| (e.0@, e.1@))
}

/// The decimal digit `d` as a character.
pub open spec fn digit_char(d: nat) -> char {
    if d == 0 {
        '0'
    } else if d == 1 {
        '1'
    } else if d == 2 {
        '2'
    } else if d == 3 {
        '3'
    } else if d == 4 {
        '4'
    } else if d == 5 {
        '5'
    } else if d == 6 {
        '6'
    } else if d == 7 {
        '7'
    } else if d == 8 {
        '8'
    } else {
        '9'
    }
}

/// `n` written in decimal, without leading zeros.
pub open spec fn decimal(n: nat) -> Seq<char>
    decreases n,
{
    if n < 10 {
        seq![digit_char(n)]
    } else {
        decimal(n / 10).push(digit_char(n % 10))
    }
}

/// The base URL of a service at `host` and `port`.
pub open spec fn service_url(host: Seq<char>, port: u16) -> Seq<char> {
    "http://"@ + host + ":"@ + decimal(port as nat)
}

/// The entry stored under `key`: the last one with that key.
pub open spec fn config_lookup(entries: Seq<EntryView>, key: Seq<char>) -> Option<ServiceConfigView>
    decreases entries.len(),
{
    if entries.len() == 0 {
        None
    } else if entries.last().0 == key {
        Some(entries.last().1)
    } else {
        config_lookup(entries.drop_last(), key)
    }
}

/// The directory obtained by registering every entry, in order, at its
/// service URL.
pub open spec fn config_directory(entries: Seq<EntryView>) -> Map<Seq<char>, Record>
    decreases entries.len(),
{
    if entries.len() == 0 {
        Map::empty()
    } else {
        let e = entries.last();
        registered(config_directory(entries.drop_last()), e.0, service_url(e.1.host, e.1.port))
    }
}

/// The one-character string for the digit `d`.
fn digit_str(d: u16) -> (r: &'static str)
    requires
        d < 10,
    ensures
        r@ == seq![digit_char(d as nat)],
{
    proof {
        reveal_strlit("0");
        reveal_strlit("1");
        reveal_strlit("2");
        reveal_strlit("3");
        reveal_strlit("4");
        reveal_strlit("5");
        reveal_strlit("6");
        reveal_strlit("7");
        reveal_strlit("8");
        reveal_strlit("9");
    }
    let r = if d == 0 {
        "0"
    } else if d == 1 {
        "1"
    } else if d == 2 {
        "2"
    } else if d == 3 {
        "3"
    } else if d == 4 {
        "4"
    } else if d == 5 {
        "5"
    } else if d == 6 {
        "6"
    } else if d == 7 {
        "7"
    } else if d == 8 {
        "8"
    } else {
        "9"
    };
    assert(r@ =~= seq![digit_char(d as nat)]);
    r
}

/// Appends `n` in decimal to `s`.
fn append_decimal(s: &mut String, n: u16)
    ensures
        final(s)@ == old(s)@ + decimal(n as nat),
    decreases n,
{
    if n >= 10 {
        append_decimal(s, n / 10);
    }
    s.append(digit_str(n % 10));
    assert(final(s)@ =~= old(s)@ + decimal(n as nat));
}

/// `http://<host>:<port>`.
pub fn format_service_url(host: &String, port: u16) -> (r: String)
    ensures
        r@ == service_url(host@, port),
{
    let mut url = "http://".to_owned();
    url.append(host.as_str());
    url.append(":");
    append_decimal(&mut url, port);
    assert(url@ =~= service_url(host@, port));
    url
}

impl Config {
    /// The built-in configuration: the gateway on `0.0.0.0:3000`, the user
    /// service on `localhost:3001` and the order service on
    /// `localhost:3002`.
    pub fn from_env() -> (r: Result<Config, ConfigError>)
        ensures
            r matches Ok(c) && {
                &&& c.host@ == "0.0.0.0"@
                &&& c.port == 3000
                &&& entries_view(c.services) == seq![
                    ("user-service"@, ServiceConfigView { name: "user-service"@, host: "localhost"@, port: 3001 }),
                    ("order-service"@, ServiceConfigView { name: "order-service"@, host: "localhost"@, port: 3002 }),
                ]
            },
    {
        let mut services: Vec<(String, ServiceConfig)> = Vec::new();
        services.push(
            (
                "user-service".to_owned(),
                ServiceConfig {
                    name: "user-service".to_owned(),
                    host: "localhost".to_owned(),
                    port: 3001,
                },
            ),
        );
        services.push(
            (
                "order-service".to_owned(),
                ServiceConfig {
                    name: "order-service".to_owned(),
                    host: "localhost".to_owned(),
                    port: 3002,
                },
            ),
        );
        let c = Config { services, host: "0.0.0.0".to_owned(), port: 3000 };
        assert(entries_view(c.services) =~= seq![
            ("user-service"@, ServiceConfigView { name: "user-service"@, host: "localhost"@, port: 3001 }),
            ("order-service"@, ServiceConfigView { name: "order-service"@, host: "localhost"@, port: 3002 }),
        ]);
        Ok(c)
    }

    /// The base URL of the service stored under `service_name`, or `None`
    /// when there is no such entry.
    pub fn get_service_url(&self, service_name: &str) -> (r: Option<String>)
        ensures
            match config_lookup(entries_view(self.services), service_name@) {
                Some(sc) => r matches Some(url) && url@ == service_url(sc.host, sc.port),
                None => r is None,
            },
    {
        let ghost all = entries_view(self.services);
        let key = service_name.to_owned();
        let mut i: usize = self.services.len();
        assert(all.take(i as int) =~= all);
        while i > 0
            invariant
                i <= self.services.len(),
                all == entries_view(self.services),
                key@ == service_name@,
                config_lookup(all, key@) == config_lookup(all.take(i as int), key@),
            decreases i,
        {
            i = i - 1;
            assert(all.take(i + 1).drop_last() =~= all.take(i as int));
            let entry = &self.services[i];
            if entry.0 == key {
                return Some(format_service_url(&entry.1.host, entry.1.port));
            }
        }
        assert(all.take(0).len() == 0);
        None
    }
}

impl ServiceRegistry {
    /// A registry holding every configured service, each registered under
    /// its key at `http://<host>:<port>`, in the configuration's order.
    pub fn from_config(config: &Config) -> (r: ServiceRegistry)
        ensures
            r@ == config_directory(entries_view(config.services)),
    {
        let ghost all = entries_view(config.services);
        let mut registry = ServiceRegistry::new();
        let mut i: usize = 0;
        while i < config.services.len()
            invariant
                i <= config.services.len(),
                all == entries_view(config.services),
                registry@ == config_directory(all.take(i as int)),
            decreases config.services.len() - i,
        {
            let entry = &config.services[i];
            let url = format_service_url(&entry.1.host, entry.1.port);
            registry.register_service(entry.0.clone(), url);
            assert(all.take(i + 1).drop_last() =~= all.take(i as int));
            i = i + 1;
        }
        assert(all.take(config.services.len() as int) =~= all);
        registry
    }
}

/// Building the registry from a configuration and asking the configuration
/// for a URL agree: a key is registered exactly when the configuration has
/// an entry for it, at that entry's URL, and marked healthy.
pub proof fn lemma_config_directory_lookup(entries: Seq<EntryView>, key: Seq<char>)
    ensures
        keyed_by_name(config_directory(entries)),
        match config_lookup(entries, key) {
            Some(sc) => config_directory(entries).contains_key(key) && config_directory(entries)[key]
                == fresh_record(key, service_url(sc.host, sc.port)),
            None => !config_directory(entries).contains_key(key),
        },
    decreases entries.len(),
{
    if entries.len() > 0 {
        lemma_config_directory_lookup(entries.drop_last(), key);
    }
}

} // verus!
