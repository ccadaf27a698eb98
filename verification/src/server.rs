//! The server: what it shows of its configuration, and how it takes up a changed one.

use crate::adapters::common::{json2, object2};
use crate::config::{
    config_error_message, loaded, with_default, Config, ConfigError, ConfigErrorView, ConfigView,
    ProviderConfig, ProviderView, provider_text,
};
use crate::json::{jtext, Json, JsonMap, JsonView};
use crate::model::no_fields;
use crate::named::{lists_names, names_of, Named};
use crate::text::{opt_text, same};
use vstd::prelude::*;

verus! {

/// What is shown of a provider: that it has a key, but not which.
pub open spec fn shown_provider(p: ProviderView) -> JsonView {
    let v = no_fields().insert("type"@, jtext(provider_text(p.provider_type))).insert(
        "baseurl"@,
        jtext(p.base_url),
    );
    JsonView::Object(
        match p.api_key {
            Some(_) => v.insert("apikey"@, jtext("***"@)),
            None => v,
        },
    )
}

/// `shown_provider`.
pub open spec fn provider_shower() -> spec_fn(ProviderView) -> JsonView {
    |p: ProviderView| shown_provider(p)
}

/// What is shown of a configuration.
pub open spec fn shown_config(c: ConfigView) -> JsonView {
    object2(
        "default"@,
        jtext(c.default),
        "providers"@,
        JsonView::Object(c.providers.map_values(provider_shower())),
    )
}

fn show_provider(p: &ProviderConfig) -> (r: Json)
    ensures
        r@ == shown_provider(p@),
{
    let mut value = JsonMap::new();
    value.put_text("type", p.provider_type.as_str());
    value.put_text("baseurl", p.base_url.as_str());
    if p.api_key.is_some() {
        value.put_text("apikey", "***");
    }
    Json::object(value)
}

/// What is shown of the configuration: the default, and the providers without their keys.
pub fn providers(config: &Config) -> (r: Json)
    ensures
        r@ == shown_config(config@),
{
    let ghost all = config.providers@;
    let ghost names = names_of(all);
    let ghost wanted = all.map_values(provider_shower());
    let n = config.providers.len();
    let mut list = JsonMap::new();
    let mut i: usize = 0;
    assert(list@ =~= Map::new(
        |k: Seq<char>| names.take(0).contains(k),
        |k: Seq<char>| wanted[k],
    ));
    while i < n
        invariant
            all == config.providers@,
            names == names_of(all),
            lists_names(names, all),
            wanted == all.map_values(provider_shower()),
            n == names.len(),
            i <= n,
            list@ == Map::new(
                |k: Seq<char>| names.take(i as int).contains(k),
                |k: Seq<char>| wanted[k],
            ),
        decreases n - i,
    {
        let ghost before = list@;
        let name = config.providers.name_at(i);
        let value = show_provider(config.providers.value_at(i));
        list.put(name, value);
        proof {
            assert(names.contains(names[i as int]));
            assert(all.contains_key(names[i as int]));
            assert forall|k: Seq<char>| #[trigger] names.take(i + 1).contains(k) == (names.take(
                i as int,
            ).contains(k) || k == names[i as int]) by {
                let next = names.take(i + 1);
                if next.contains(k) {
                    let j = choose|j: int| 0 <= j < next.len() && next[j] == k;
                    if j < i {
                        assert(names.take(i as int)[j] == k);
                    }
                }
                if names.take(i as int).contains(k) {
                    let now = names.take(i as int);
                    let j = choose|j: int| 0 <= j < now.len() && now[j] == k;
                    assert(next[j] == k);
                }
                assert(next[i as int] == names[i as int]);
            }
            assert(list@ =~= Map::new(
                |k: Seq<char>| names.take(i + 1).contains(k),
                |k: Seq<char>| wanted[k],
            ));
        }
        i = i + 1;
    }
    assert(names.take(i as int) =~= names);
    assert(list@ =~= wanted) by {
        assert forall|k: Seq<char>| list@.contains_key(k) == wanted.contains_key(k) by {
            assert(all.contains_key(k) <==> names.contains(k));
        }
    }
    json2("default", Json::text(config.default.as_str()), "providers", Json::object(list))
}

/// Two configurations that differ in nothing but the keys of their providers, and have keys in the
/// same places, are shown alike.
pub proof fn listing_hides_keys(a: ConfigView, b: ConfigView)
    requires
        a.default == b.default,
        a.providers.dom() == b.providers.dom(),
        forall|k: Seq<char>| #[trigger]
            a.providers.contains_key(k) ==> a.providers[k].provider_type
                == b.providers[k].provider_type && a.providers[k].base_url
                == b.providers[k].base_url && (a.providers[k].api_key is Some
                <==> b.providers[k].api_key is Some),
    ensures
        shown_config(a) == shown_config(b),
{
    let x = a.providers.map_values(provider_shower());
    let y = b.providers.map_values(provider_shower());
    assert forall|k: Seq<char>| x.contains_key(k) == y.contains_key(k) by {
        assert(a.providers.dom().contains(k) == b.providers.dom().contains(k));
    }
    assert forall|k: Seq<char>| #[trigger] x.contains_key(k) implies x[k] == y[k] by {
        assert(a.providers.contains_key(k));
    }
    assert(x =~= y);
}

fn same_texts(a: &Option<String>, b: &Option<String>) -> (r: bool)
    ensures
        r == (opt_text(*a) == opt_text(*b)),
{
    match (a, b) {
        (Some(a), Some(b)) => same(a.as_str(), b.as_str()),
        (None, None) => true,
        _ => false,
    }
}

fn same_provider(a: &ProviderConfig, b: &ProviderConfig) -> (r: bool)
    ensures
        r == (a@ == b@),
{
    a.provider_type == b.provider_type && same(a.base_url.as_str(), b.base_url.as_str())
        && same_texts(&a.api_key, &b.api_key)
}

fn same_providers(a: &Named<ProviderConfig>, b: &Named<ProviderConfig>) -> (r: bool)
    ensures
        r == (a@ == b@),
{
    let n = a.len();
    let ghost names = names_of(a@);
    if b.len() != n {
        return false;
    }
    let ghost others = names_of(b@);
    let mut i: usize = 0;
    while i < n
        invariant
            names == names_of(a@),
            others == names_of(b@),
            lists_names(names, a@),
            lists_names(others, b@),
            n == names.len(),
            n == others.len(),
            i <= n,
            forall|j: int|
                0 <= j < i ==> #[trigger] names[j] == others[j] && a@[names[j]] == b@[others[j]],
        decreases n - i,
    {
        if !same(a.name_at(i), b.name_at(i)) {
            return false;
        }
        if !same_provider(a.value_at(i), b.value_at(i)) {
            return false;
        }
        i = i + 1;
    }
    assert(names =~= others);
    assert forall|k: Seq<char>| a@.contains_key(k) == b@.contains_key(k) by {
        assert(a@.contains_key(k) <==> names.contains(k));
        assert(b@.contains_key(k) <==> others.contains(k));
    }
    assert forall|k: Seq<char>| #[trigger] a@.contains_key(k) implies a@[k] == b@[k] by {
        assert(names.contains(k));
        let j = choose|j: int| 0 <= j < names.len() && names[j] == k;
        assert(names[j] == others[j]);
    }
    assert(a@ =~= b@);
    true
}

/// Whether two configurations say the same.
pub fn same_config(a: &Config, b: &Config) -> (r: bool)
    ensures
        r == (a@ == b@),
{
    same(a.server.as_str(), b.server.as_str()) && same_texts(&a.api_key, &b.api_key) && same(
        a.default.as_str(),
        b.default.as_str(),
    ) && same_providers(&a.providers, &b.providers)
}

/// What the server remembers of its configuration file.
#[derive(Debug)]
pub struct Reloader {
    /// The address that the server listens on.
    pub listening: String,
    /// The address that the command line asks for.
    pub server_override: Option<String>,
    /// The default that the command line asks for.
    pub default_override: Option<String>,
    /// The configuration that is in use, with the address that the server listens on.
    pub config: Config,
    /// The address that the server is to listen on.
    pub wanted: String,
    /// The text of the file when it was last read.
    pub last_body: Option<String>,
    /// The last error.
    pub last_error: Option<String>,
}

/// What the memory stands for.
#[verifier::ext_equal]
pub struct ReloaderView {
    pub listening: Seq<char>,
    pub server_override: Option<Seq<char>>,
    pub default_override: Option<Seq<char>>,
    pub config: ConfigView,
    pub wanted: Seq<char>,
    pub last_body: Option<Seq<char>>,
    pub last_error: Option<Seq<char>>,
}

impl View for Reloader {
    type V = ReloaderView;

    open spec fn view(&self) -> ReloaderView {
        ReloaderView {
            listening: self.listening@,
            server_override: opt_text(self.server_override),
            default_override: opt_text(self.default_override),
            config: self.config@,
            wanted: self.wanted@,
            last_body: opt_text(self.last_body),
            last_error: opt_text(self.last_error),
        }
    }
}

/// What came of a look at the file.
#[derive(Debug, Clone, Copy, PartialEq, Eq, Structural)]
pub enum Reload {
    /// The configuration stays as it is.
    Unchanged,
    /// There is another configuration.
    Changed,
    /// The file cannot be used; whether that is new.
    Failed { warn: bool },
}

/// The configuration of a file, with what the command line asks for.
pub open spec fn overridden(r: ReloaderView, read: Result<ConfigView, ConfigErrorView>) -> Result<
    ConfigView,
    ConfigErrorView,
> {
    match read {
        Err(e) => Err(e),
        Ok(c) => match match r.default_override {
            Some(default) => with_default(c, default),
            None => Ok(c),
        } {
            Err(e) => Err(e),
            Ok(c) => Ok(
                match r.server_override {
                    Some(server) => ConfigView { server, ..c },
                    None => c,
                },
            ),
        },
    }
}

/// What is remembered of an error, and whether it is a new one.
pub open spec fn failed(r: ReloaderView, message: Seq<char>) -> (ReloaderView, Reload) {
    (
        ReloaderView { last_error: Some(message), ..r },
        Reload::Failed { warn: r.last_error != Some(message) },
    )
}

/// What is remembered after the file could not be read.
pub open spec fn unread(r: ReloaderView, message: Seq<char>) -> (ReloaderView, Reload) {
    failed(ReloaderView { last_body: None, ..r }, message)
}

/// What is remembered after the file was read: a configuration that can be used is taken up, any
/// other leaves the one in use. Another address to listen on is wanted until it is bound.
pub open spec fn reread(
    r: ReloaderView,
    body: Seq<char>,
    read: Result<ConfigView, ConfigErrorView>,
) -> (ReloaderView, Reload) {
    let r = ReloaderView { last_body: Some(body), ..r };
    match overridden(r, read) {
        Err(e) => failed(r, config_error_message(e)),
        Ok(config) => {
            let next = ConfigView { server: r.listening, ..config };
            (
                ReloaderView { config: next, wanted: config.server, last_error: None, ..r },
                if next == r.config {
                    Reload::Unchanged
                } else {
                    Reload::Changed
                },
            )
        },
    }
}

impl Reloader {
    /// What the server remembers at its start.
    pub fn new(
        config: Config,
        server_override: Option<String>,
        default_override: Option<String>,
    ) -> (r: Reloader)
        ensures
            r@ == (ReloaderView {
                listening: config@.server,
                server_override: opt_text(server_override),
                default_override: opt_text(default_override),
                config: config@,
                wanted: config@.server,
                last_body: None,
                last_error: None,
            }),
    {
        Reloader {
            listening: config.server.clone(),
            server_override,
            default_override,
            wanted: config.server.clone(),
            config,
            last_body: None,
            last_error: None,
        }
    }

    /// Whether the text of the file is another than when it was last read.
    pub fn is_new(&self, body: &str) -> (r: bool)
        ensures
            r == (self@.last_body != Some(body@)),
    {
        match &self.last_body {
            Some(last) => !same(last.as_str(), body),
            None => true,
        }
    }

    fn remember(&mut self, message: String) -> (r: Reload)
        ensures
            (final(self)@, r) == failed(old(self)@, message@),
    {
        let warn = match &self.last_error {
            Some(last) => !same(last.as_str(), message.as_str()),
            None => true,
        };
        self.last_error = Some(message);
        Reload::Failed { warn }
    }

    /// Takes that the file could not be read.
    pub fn read_failed(&mut self, message: String) -> (r: Reload)
        ensures
            (final(self)@, r) == unread(old(self)@, message@),
    {
        self.last_body = None;
        self.remember(message)
    }

    /// Takes the text of the file and the configuration that it holds.
    pub fn read(&mut self, body: String, config: Result<Config, ConfigError>) -> (r: Reload)
        ensures
            (final(self)@, r) == reread(old(self)@, body@, loaded(config)),
    {
        self.last_body = Some(body);
        let mut config = match config {
            Ok(config) => config,
            Err(e) => {
                return self.remember(e.message());
            },
        };
        if let Some(default) = &self.default_override {
            if let Err(e) = config.set_default(default.as_str()) {
                return self.remember(e.message());
            }
        }
        if let Some(server) = &self.server_override {
            config.server = server.clone();
        }
        self.last_error = None;
        self.wanted = config.server.clone();
        config.server = self.listening.clone();
        let unchanged = same_config(&config, &self.config);
        self.config = config;
        if unchanged {
            Reload::Unchanged
        } else {
            Reload::Changed
        }
    }

    /// The address that the server is to listen on next, where it listens on another.
    pub fn wanted_address(&self) -> (r: Option<String>)
        ensures
            opt_text(r) == if self@.wanted == self@.listening {
                None
            } else {
                Some(self@.wanted)
            },
    {
        if same(self.wanted.as_str(), self.listening.as_str()) {
            None
        } else {
            Some(self.wanted.clone())
        }
    }

    /// Takes that the server now listens on an address. Where it could not, nothing is said, and
    /// the address is asked for again.
    pub fn bound(&mut self, address: String)
        ensures
            final(self)@ == now_listening(old(self)@, address@),
    {
        self.config.server = address.clone();
        self.listening = address;
    }
}

/// What is remembered once the server listens on an address.
pub open spec fn now_listening(r: ReloaderView, address: Seq<char>) -> ReloaderView {
    ReloaderView {
        listening: address,
        config: ConfigView { server: address, ..r.config },
        ..r
    }
}

/// A file that cannot be read or used leaves the configuration in use as it is.
pub proof fn invalid_file_keeps_config(
    r: ReloaderView,
    body: Seq<char>,
    message: Seq<char>,
    e: ConfigErrorView,
)
    ensures
        unread(r, message).0.config == r.config,
        reread(r, body, Err(e)).0.config == r.config,
        reread(r, body, Err(e)).1 is Failed,
{
}

/// A look at the file does not change where the server listens: another address is asked for until
/// it is bound, and until then the configuration in use has the one that the server listens on.
pub proof fn listener_stays(
    r: ReloaderView,
    body: Seq<char>,
    message: Seq<char>,
    read: Result<ConfigView, ConfigErrorView>,
    address: Seq<char>,
)
    requires
        r.config.server == r.listening,
    ensures
        unread(r, message).0.listening == r.listening,
        unread(r, message).0.config.server == r.listening,
        reread(r, body, read).0.listening == r.listening,
        reread(r, body, read).0.config.server == r.listening,
        now_listening(r, address).config.server == now_listening(r, address).listening,
{
}

/// What the command line asks for stays in effect, whatever the file says.
pub proof fn overrides_stay(
    r: ReloaderView,
    body: Seq<char>,
    read: Result<ConfigView, ConfigErrorView>,
)
    requires
        reread(r, body, read).1 !is Failed,
    ensures
        r.default_override matches Some(default) ==> reread(r, body, read).0.config.default
            == default,
        r.server_override matches Some(server) ==> reread(r, body, read).0.wanted == server,
{
}

/// A configuration that can be used is taken up as one that can be used.
pub proof fn reload_keeps_valid(r: ReloaderView, body: Seq<char>, c: ConfigView)
    requires
        crate::config::valid(r.config),
        crate::config::valid(c),
    ensures
        crate::config::valid(reread(r, body, Ok(c)).0.config),
{
    if let Some(default) = r.default_override {
        crate::config::setting_default_keeps_valid(c, default);
    }
}

} // verus!
