//! The configuration: the address, the keys and the providers.

use crate::named::{
    empty_listable, insert_listable, listable, names_of, no_names, remove_listable, Named,
};
use crate::text::{
    borrow, cat, chars, first_match_within, lower, lower_text, opt_str, opt_text, or_text, own,
    same, split_once, split_text, text_before, trim, trim_end, trimmed, without_end,
};
use vstd::prelude::*;

verus! {

/// The wire format that a provider speaks.
#[derive(Debug, Clone, Copy, PartialEq, Eq, Structural)]
pub enum Provider {
    OpenAiChat,
    OpenAiResponses,
    Anthropic,
}

/// A provider of models.
#[derive(Debug, PartialEq)]
pub struct ProviderConfig {
    pub provider_type: Provider,
    pub base_url: String,
    pub api_key: Option<String>,
}

/// The configuration of the server.
#[derive(Debug, PartialEq)]
pub struct Config {
    /// The address to listen on.
    pub server: String,
    /// The key that clients have to send, where there is one.
    pub api_key: Option<String>,
    /// The provider of a request that names none.
    pub default: String,
    pub providers: Named<ProviderConfig>,
}

/// What a provider stands for.
#[verifier::ext_equal]
pub struct ProviderView {
    pub provider_type: Provider,
    pub base_url: Seq<char>,
    pub api_key: Option<Seq<char>>,
}

/// What a configuration stands for.
#[verifier::ext_equal]
pub struct ConfigView {
    pub server: Seq<char>,
    pub api_key: Option<Seq<char>>,
    pub default: Seq<char>,
    pub providers: Map<Seq<char>, ProviderView>,
}

impl View for ProviderConfig {
    type V = ProviderView;

    open spec fn view(&self) -> ProviderView {
        ProviderView {
            provider_type: self.provider_type,
            base_url: self.base_url@,
            api_key: opt_text(self.api_key),
        }
    }
}

impl View for Config {
    type V = ConfigView;

    open spec fn view(&self) -> ConfigView {
        ConfigView {
            server: self.server@,
            api_key: opt_text(self.api_key),
            default: self.default@,
            providers: self.providers@,
        }
    }
}

/// Why an environment variable has no text.
#[derive(Debug, PartialEq)]
pub enum VarError {
    /// There is no such variable.
    NotPresent,
    /// The variable holds no Unicode; this is how it is shown.
    NotUnicode(String),
}

/// Why a configuration cannot be used or changed.
#[derive(Debug, PartialEq)]
pub enum ConfigError {
    /// The file cannot be read or written; whether there is none, and what the system says.
    Read { not_found: bool, message: String },
    Yaml(String),
    Toml(String),
    Json(String),
    TomlSerialize(String),
    UnsupportedExtension(String),
    UnknownProviderType(String),
    ProviderNotFound(String),
    ProviderAlreadyExists(String),
    DefaultProviderNotFound(String),
    InvalidProviderName(String),
    EmptyServerApiKey,
    EnvVar { name: String, source: VarError },
}

/// What a reason stands for.
#[verifier::ext_equal]
pub enum VarErrorView {
    NotPresent,
    NotUnicode(Seq<char>),
}

/// What an error stands for.
#[verifier::ext_equal]
pub enum ConfigErrorView {
    Read { not_found: bool, message: Seq<char> },
    Yaml(Seq<char>),
    Toml(Seq<char>),
    Json(Seq<char>),
    TomlSerialize(Seq<char>),
    UnsupportedExtension(Seq<char>),
    UnknownProviderType(Seq<char>),
    ProviderNotFound(Seq<char>),
    ProviderAlreadyExists(Seq<char>),
    DefaultProviderNotFound(Seq<char>),
    InvalidProviderName(Seq<char>),
    EmptyServerApiKey,
    EnvVar { name: Seq<char>, source: VarErrorView },
}

impl View for VarError {
    type V = VarErrorView;

    open spec fn view(&self) -> VarErrorView {
        match self {
            VarError::NotPresent => VarErrorView::NotPresent,
            VarError::NotUnicode(shown) => VarErrorView::NotUnicode(shown@),
        }
    }
}

impl View for ConfigError {
    type V = ConfigErrorView;

    open spec fn view(&self) -> ConfigErrorView {
        match self {
            ConfigError::Read { not_found, message } => ConfigErrorView::Read {
                not_found: *not_found,
                message: message@,
            },
            ConfigError::Yaml(m) => ConfigErrorView::Yaml(m@),
            ConfigError::Toml(m) => ConfigErrorView::Toml(m@),
            ConfigError::Json(m) => ConfigErrorView::Json(m@),
            ConfigError::TomlSerialize(m) => ConfigErrorView::TomlSerialize(m@),
            ConfigError::UnsupportedExtension(m) => ConfigErrorView::UnsupportedExtension(m@),
            ConfigError::UnknownProviderType(m) => ConfigErrorView::UnknownProviderType(m@),
            ConfigError::ProviderNotFound(m) => ConfigErrorView::ProviderNotFound(m@),
            ConfigError::ProviderAlreadyExists(m) => ConfigErrorView::ProviderAlreadyExists(m@),
            ConfigError::DefaultProviderNotFound(m) => ConfigErrorView::DefaultProviderNotFound(
                m@,
            ),
            ConfigError::InvalidProviderName(m) => ConfigErrorView::InvalidProviderName(m@),
            ConfigError::EmptyServerApiKey => ConfigErrorView::EmptyServerApiKey,
            ConfigError::EnvVar { name, source } => ConfigErrorView::EnvVar {
                name: name@,
                source: source@,
            },
        }
    }
}

/// The words for why a variable has no text.
pub open spec fn var_error_message(e: VarErrorView) -> Seq<char> {
    match e {
        VarErrorView::NotPresent => "environment variable not found"@,
        VarErrorView::NotUnicode(shown) => "environment variable was not valid unicode: "@ + shown,
    }
}

/// The words of an error.
pub open spec fn config_error_message(e: ConfigErrorView) -> Seq<char> {
    match e {
        ConfigErrorView::Read { message, .. } => "read config: "@ + message,
        ConfigErrorView::Yaml(m) => "parse yaml config: "@ + m,
        ConfigErrorView::Toml(m) => "parse toml config: "@ + m,
        ConfigErrorView::Json(m) => "json config: "@ + m,
        ConfigErrorView::TomlSerialize(m) => "serialize toml config: "@ + m,
        ConfigErrorView::UnsupportedExtension(m) => "unsupported config extension: "@ + m,
        ConfigErrorView::UnknownProviderType(m) => "unknown provider type: "@ + m,
        ConfigErrorView::ProviderNotFound(m) => "provider not found: "@ + m,
        ConfigErrorView::ProviderAlreadyExists(m) => "provider already exists: "@ + m,
        ConfigErrorView::DefaultProviderNotFound(m) => "default provider is not configured: "@ + m,
        ConfigErrorView::InvalidProviderName(m) => "invalid provider name: "@ + m,
        ConfigErrorView::EmptyServerApiKey => "server apikey cannot be empty"@,
        ConfigErrorView::EnvVar { name, source } => "expand environment variable "@ + name + ": "@
            + var_error_message(source),
    }
}

impl VarError {
    /// The words for why the variable has no text.
    pub fn message(&self) -> (r: String)
        ensures
            r@ == var_error_message(self@),
    {
        match self {
            VarError::NotPresent => "environment variable not found".to_owned(),
            VarError::NotUnicode(shown) => cat(
                "environment variable was not valid unicode: ",
                shown.as_str(),
            ),
        }
    }
}

impl ConfigError {
    /// The words of the error.
    pub fn message(&self) -> (r: String)
        ensures
            r@ == config_error_message(self@),
    {
        match self {
            ConfigError::Read { message, .. } => cat("read config: ", message.as_str()),
            ConfigError::Yaml(m) => cat("parse yaml config: ", m.as_str()),
            ConfigError::Toml(m) => cat("parse toml config: ", m.as_str()),
            ConfigError::Json(m) => cat("json config: ", m.as_str()),
            ConfigError::TomlSerialize(m) => cat("serialize toml config: ", m.as_str()),
            ConfigError::UnsupportedExtension(m) => cat(
                "unsupported config extension: ",
                m.as_str(),
            ),
            ConfigError::UnknownProviderType(m) => cat("unknown provider type: ", m.as_str()),
            ConfigError::ProviderNotFound(m) => cat("provider not found: ", m.as_str()),
            ConfigError::ProviderAlreadyExists(m) => cat(
                "provider already exists: ",
                m.as_str(),
            ),
            ConfigError::DefaultProviderNotFound(m) => cat(
                "default provider is not configured: ",
                m.as_str(),
            ),
            ConfigError::InvalidProviderName(m) => cat("invalid provider name: ", m.as_str()),
            ConfigError::EmptyServerApiKey => "server apikey cannot be empty".to_owned(),
            ConfigError::EnvVar { name, source } => {
                let mut message = cat("expand environment variable ", name.as_str());
                message.push_str(": ");
                message.push_str(source.message().as_str());
                message
            },
        }
    }
}

/// What an operation on a configuration gives, by what its result stands for.
pub open spec fn done(r: Result<(), ConfigError>) -> Result<(), ConfigErrorView> {
    match r {
        Ok(_) => Ok(()),
        Err(e) => Err(e@),
    }
}

/// What an environment variable holds.
#[derive(Debug, PartialEq)]
pub enum EnvValue {
    Text(String),
    /// No Unicode; this is how it is shown.
    NotUnicode(String),
}

/// What the value of a variable stands for.
#[verifier::ext_equal]
pub enum EnvValueView {
    Text(Seq<char>),
    NotUnicode(Seq<char>),
}

impl View for EnvValue {
    type V = EnvValueView;

    open spec fn view(&self) -> EnvValueView {
        match self {
            EnvValue::Text(text) => EnvValueView::Text(text@),
            EnvValue::NotUnicode(shown) => EnvValueView::NotUnicode(shown@),
        }
    }
}

/// The variables of an environment, by their names.
pub type Environment = Named<EnvValue>;

/// The variables of an environment, by their names.
pub type EnvView = Map<Seq<char>, EnvValueView>;

/// What a variable is expanded to.
pub open spec fn var_value(env: EnvView, name: Seq<char>) -> Result<Seq<char>, VarErrorView> {
    if env.contains_key(name) {
        match env[name] {
            EnvValueView::Text(text) => Ok(text),
            EnvValueView::NotUnicode(shown) => Err(VarErrorView::NotUnicode(shown)),
        }
    } else {
        Err(VarErrorView::NotPresent)
    }
}

/// A text with the value of the variable in place of each `${name}`. An opening without an end
/// stays as it is.
pub open spec fn expanded(s: Seq<char>, env: EnvView) -> Result<Seq<char>, ConfigErrorView>
    decreases s.len(),
    via expanded_decreases
{
    match split_once(s, "${"@) {
        None => Ok(s),
        Some((before, after)) => match split_once(after, "}"@) {
            None => Ok(s),
            Some((name, rest)) => match var_value(env, name) {
                Err(source) => Err(ConfigErrorView::EnvVar { name, source }),
                Ok(value) => match expanded(rest, env) {
                    Err(e) => Err(e),
                    Ok(rest) => Ok(before + value + rest),
                },
            },
        },
    }
}

#[via_fn]
proof fn expanded_decreases(s: Seq<char>, env: EnvView) {
    reveal_strlit("${");
    reveal_strlit("}");
    first_match_within(s, "${"@);
    match split_once(s, "${"@) {
        Some((before, after)) => {
            first_match_within(after, "}"@);
        },
        None => {},
    }
}

/// What an optional text is expanded to.
pub open spec fn opt_expanded(o: Option<Seq<char>>, env: EnvView) -> Result<
    Option<Seq<char>>,
    ConfigErrorView,
> {
    match o {
        None => Ok(None),
        Some(s) => match expanded(s, env) {
            Ok(t) => Ok(Some(t)),
            Err(e) => Err(e),
        },
    }
}

fn var_text(env: &Environment, name: &str) -> (r: Result<String, VarError>)
    ensures
        match r {
            Ok(text) => var_value(env@, name@) == Ok::<Seq<char>, VarErrorView>(text@),
            Err(e) => var_value(env@, name@) == Err::<Seq<char>, VarErrorView>(e@),
        },
{
    match env.get(name) {
        Some(EnvValue::Text(text)) => Ok(text.clone()),
        Some(EnvValue::NotUnicode(shown)) => Err(VarError::NotUnicode(shown.clone())),
        None => Err(VarError::NotPresent),
    }
}

/// The text with the value of the variable in place of each `${name}`.
pub fn expand_env(value: &str, env: &Environment) -> (r: Result<String, ConfigError>)
    ensures
        match r {
            Ok(text) => expanded(value@, env@) == Ok::<Seq<char>, ConfigErrorView>(text@),
            Err(e) => expanded(value@, env@) == Err::<Seq<char>, ConfigErrorView>(e@),
        },
{
    let mut output = String::new();
    let mut rest = value.to_owned();
    assert(output@ =~= Seq::empty());
    assert(forall|t: Seq<char>| #[trigger] (output@ + t) =~= t);
    loop
        invariant
            expanded(value@, env@) == (match expanded(rest@, env@) {
                Ok(t) => Ok::<Seq<char>, ConfigErrorView>(output@ + t),
                Err(e) => Err(e),
            }),
        decreases rest@.len(),
    {
        proof {
            reveal_strlit("${");
            reveal_strlit("}");
            first_match_within(rest@, "${"@);
        }
        let ghost whole = rest@;
        let (before, after) = match split_text(rest.as_str(), "${") {
            Some(parts) => parts,
            None => {
                output.push_str(rest.as_str());
                return Ok(output);
            },
        };
        proof {
            first_match_within(after@, "}"@);
        }
        let (name, tail) = match split_text(after.as_str(), "}") {
            Some(parts) => parts,
            None => {
                output.push_str(rest.as_str());
                return Ok(output);
            },
        };
        let replacement = match var_text(env, name.as_str()) {
            Ok(text) => text,
            Err(source) => {
                return Err(ConfigError::EnvVar { name, source });
            },
        };
        let ghost start = output@;
        output.push_str(before.as_str());
        output.push_str(replacement.as_str());
        rest = tail;
        proof {
            assert(forall|t: Seq<char>| #[trigger]
                (start + (before@ + replacement@ + t)) =~= output@ + t);
        }
    }
}

fn opt_expand(value: Option<&str>, env: &Environment) -> (r: Result<Option<String>, ConfigError>)
    ensures
        match r {
            Ok(text) => opt_expanded(opt_str(value), env@) == Ok::<
                Option<Seq<char>>,
                ConfigErrorView,
            >(opt_text(text)),
            Err(e) => opt_expanded(opt_str(value), env@) == Err::<
                Option<Seq<char>>,
                ConfigErrorView,
            >(e@),
        },
{
    match value {
        None => Ok(None),
        Some(value) => match expand_env(value, env) {
            Ok(text) => Ok(Some(text)),
            Err(e) => Err(e),
        },
    }
}

/// The name of a wire format.
pub open spec fn provider_text(p: Provider) -> Seq<char> {
    match p {
        Provider::OpenAiChat => "openai-chat"@,
        Provider::OpenAiResponses => "openai-responses"@,
        Provider::Anthropic => "anthropic"@,
    }
}

/// The wire format by its name or its short name.
pub open spec fn provider_of(s: Seq<char>) -> Option<Provider> {
    if s == "openai-chat"@ || s == "chat"@ {
        Some(Provider::OpenAiChat)
    } else if s == "openai-responses"@ || s == "responses"@ {
        Some(Provider::OpenAiResponses)
    } else if s == "anthropic"@ || s == "messages"@ {
        Some(Provider::Anthropic)
    } else {
        None
    }
}

impl Provider {
    /// The name of the wire format.
    pub fn as_str(self) -> (r: &'static str)
        ensures
            r@ == provider_text(self),
    {
        match self {
            Provider::OpenAiChat => "openai-chat",
            Provider::OpenAiResponses => "openai-responses",
            Provider::Anthropic => "anthropic",
        }
    }

    /// The wire format by its name or its short name.
    pub fn from_str(value: &str) -> (r: Result<Provider, ConfigError>)
        ensures
            match r {
                Ok(p) => provider_of(value@) == Some(p),
                Err(e) => provider_of(value@) is None && e@ == ConfigErrorView::UnknownProviderType(
                    value@,
                ),
            },
    {
        if same(value, "openai-chat") || same(value, "chat") {
            Ok(Provider::OpenAiChat)
        } else if same(value, "openai-responses") || same(value, "responses") {
            Ok(Provider::OpenAiResponses)
        } else if same(value, "anthropic") || same(value, "messages") {
            Ok(Provider::Anthropic)
        } else {
            Err(ConfigError::UnknownProviderType(value.to_owned()))
        }
    }
}

/// A wire format has the format of its name.
pub proof fn provider_name_round_trip(p: Provider)
    ensures
        provider_of(provider_text(p)) == Some(p),
{
    reveal_strlit("openai-chat");
    reveal_strlit("openai-responses");
    reveal_strlit("anthropic");
    reveal_strlit("chat");
    reveal_strlit("responses");
    reveal_strlit("messages");
    assert("openai-chat"@.len() == 11 && "openai-responses"@.len() == 16);
    assert("chat"@.len() == 4 && "responses"@.len() == 9 && "anthropic"@.len() == 9);
    assert("responses"@[0] != "anthropic"@[0]);
}

/// Whether a character may stand in the name of a provider.
pub open spec fn name_char(c: char) -> bool {
    ('a' <= c && c <= 'z') || ('A' <= c && c <= 'Z') || ('0' <= c && c <= '9') || c == '-' || c
        == '_'
}

/// Whether a text may be the name of a provider.
pub open spec fn valid_name(s: Seq<char>) -> bool {
    s.len() > 0 && forall|i: int| 0 <= i < s.len() ==> name_char(#[trigger] s[i])
}

fn is_valid_name(name: &str) -> (r: bool)
    ensures
        r == valid_name(name@),
{
    let list = chars(name);
    if list.len() == 0 {
        return false;
    }
    let mut i: usize = 0;
    while i < list.len()
        invariant
            list@ == name@,
            i <= list@.len(),
            forall|j: int| 0 <= j < i ==> name_char(#[trigger] name@[j]),
        decreases list@.len() - i,
    {
        let c = list[i];
        if !(('a' <= c && c <= 'z') || ('A' <= c && c <= 'Z') || ('0' <= c && c <= '9') || c == '-'
            || c == '_') {
            assert(!name_char(name@[i as int]));
            return false;
        }
        i = i + 1;
    }
    true
}

/// A provider whose address has no white space around it and no slash at its end.
pub open spec fn normalized_provider(p: ProviderView) -> ProviderView {
    ProviderView { base_url: without_end(trimmed(p.base_url), '/'), ..p }
}

/// `normalized_provider`.
pub open spec fn provider_normalizer() -> spec_fn(ProviderView) -> ProviderView {
    |p: ProviderView| normalized_provider(p)
}

/// A configuration without white space around its texts.
pub open spec fn normalized(c: ConfigView) -> ConfigView {
    ConfigView {
        server: trimmed(c.server),
        default: trimmed(c.default),
        providers: c.providers.map_values(provider_normalizer()),
        ..c
    }
}

/// The first of the names that is no name of a provider.
pub open spec fn first_invalid(names: Seq<Seq<char>>) -> Option<Seq<char>>
    decreases names.len(),
{
    if names.len() == 0 {
        None
    } else {
        match first_invalid(names.drop_last()) {
            Some(name) => Some(name),
            None => if valid_name(names.last()) {
                None
            } else {
                Some(names.last())
            },
        }
    }
}

/// Whether a configuration can be used, or why not: the key of the server is not empty, each name
/// is one, and there is a default unless there is nothing.
pub open spec fn validity(c: ConfigView) -> Result<(), ConfigErrorView> {
    if c.api_key == Some(""@) {
        Err(ConfigErrorView::EmptyServerApiKey)
    } else {
        match first_invalid(names_of(c.providers)) {
            Some(name) => Err(ConfigErrorView::InvalidProviderName(name)),
            None => if (c.providers == Map::<Seq<char>, ProviderView>::empty() && c.default.len()
                == 0) || c.providers.contains_key(c.default) {
                Ok(())
            } else {
                Err(ConfigErrorView::DefaultProviderNotFound(c.default))
            },
        }
    }
}

/// Whether a configuration can be used.
pub open spec fn valid(c: ConfigView) -> bool {
    validity(c) is Ok
}

/// The configuration before anything is set.
pub open spec fn first_config() -> ConfigView {
    ConfigView {
        server: "127.0.0.1:8080"@,
        api_key: None,
        default: Seq::empty(),
        providers: Map::empty(),
    }
}

impl Clone for ProviderConfig {
    fn clone(&self) -> (r: ProviderConfig)
        ensures
            r@ == self@,
    {
        ProviderConfig {
            provider_type: self.provider_type,
            base_url: self.base_url.clone(),
            api_key: own(borrow(&self.api_key)),
        }
    }
}

/// What stays as it is.
pub open spec fn same_provider() -> spec_fn(ProviderView) -> ProviderView {
    |p: ProviderView| p
}

impl Clone for Config {
    fn clone(&self) -> (r: Config)
        ensures
            r@ == self@,
    {
        let copy = |p: &ProviderConfig| -> (r: ProviderConfig)
            ensures
                r@ == p@,
        {
            p.clone()
        };
        let providers = self.providers.map_values(copy, Ghost(same_provider()));
        assert(providers@ =~= self.providers@);
        Config {
            server: self.server.clone(),
            api_key: own(borrow(&self.api_key)),
            default: self.default.clone(),
            providers,
        }
    }
}

impl Default for Config {
    fn default() -> (r: Config)
        ensures
            r@ == first_config(),
    {
        let default = String::new();
        assert(default@ =~= Seq::empty());
        Config {
            server: "127.0.0.1:8080".to_owned(),
            api_key: None,
            default,
            providers: Named::new(),
        }
    }
}

/// The provider under a name, or the default, and its name.
pub open spec fn provider_at(c: ConfigView, name: Option<Seq<char>>) -> Result<
    (Seq<char>, ProviderView),
    ConfigErrorView,
> {
    let name = or_text(name, c.default);
    if c.providers.contains_key(name) {
        Ok((name, c.providers[name]))
    } else {
        Err(ConfigErrorView::ProviderNotFound(name))
    }
}

/// The configuration with one more provider, which becomes the default where there is none.
pub open spec fn added(c: ConfigView, name: Seq<char>, p: ProviderView) -> Result<
    ConfigView,
    ConfigErrorView,
> {
    if !valid_name(name) {
        Err(ConfigErrorView::InvalidProviderName(name))
    } else if c.providers.contains_key(name) {
        Err(ConfigErrorView::ProviderAlreadyExists(name))
    } else {
        Ok(
            ConfigView {
                providers: c.providers.insert(name, normalized_provider(p)),
                default: if c.default.len() == 0 {
                    name
                } else {
                    c.default
                },
                ..c
            },
        )
    }
}

/// The configuration with another default.
pub open spec fn with_default(c: ConfigView, name: Seq<char>) -> Result<
    ConfigView,
    ConfigErrorView,
> {
    if c.providers.contains_key(name) {
        Ok(ConfigView { default: name, ..c })
    } else {
        Err(ConfigErrorView::ProviderNotFound(name))
    }
}

/// The configuration without a provider; where that is the default, the first of the remaining by
/// name becomes it.
pub open spec fn removed(c: ConfigView, name: Seq<char>) -> Result<ConfigView, ConfigErrorView> {
    if c.providers.contains_key(name) {
        let rest = c.providers.remove(name);
        Ok(
            ConfigView {
                providers: rest,
                default: if c.default != name {
                    c.default
                } else if names_of(rest).len() > 0 {
                    names_of(rest)[0]
                } else {
                    Seq::empty()
                },
                ..c
            },
        )
    } else {
        Err(ConfigErrorView::ProviderNotFound(name))
    }
}

/// What an operation gives and leaves: the changed configuration, or the error and the same one.
pub open spec fn changed(
    before: ConfigView,
    after: ConfigView,
    r: Result<(), ConfigError>,
    outcome: Result<ConfigView, ConfigErrorView>,
) -> bool {
    match outcome {
        Ok(c) => r is Ok && after == c,
        Err(e) => done(r) == Err::<(), ConfigErrorView>(e) && after == before,
    }
}

impl ProviderConfig {
    /// The key of the provider, with the variables in it expanded.
    pub fn api_key(&self, env: &Environment) -> (r: Result<Option<String>, ConfigError>)
        ensures
            match r {
                Ok(key) => opt_expanded(self@.api_key, env@) == Ok::<
                    Option<Seq<char>>,
                    ConfigErrorView,
                >(opt_text(key)),
                Err(e) => opt_expanded(self@.api_key, env@) == Err::<
                    Option<Seq<char>>,
                    ConfigErrorView,
                >(e@),
            },
    {
        opt_expand(borrow(&self.api_key), env)
    }

    fn normalize(&self) -> (r: ProviderConfig)
        ensures
            r@ == normalized_provider(self@),
    {
        ProviderConfig {
            provider_type: self.provider_type,
            base_url: trim_end(trim(self.base_url.as_str()).as_str(), '/'),
            api_key: own(borrow(&self.api_key)),
        }
    }
}

/// The key of the server, with the variables in it expanded, which is not empty.
pub open spec fn server_key(c: ConfigView, env: EnvView) -> Result<
    Option<Seq<char>>,
    ConfigErrorView,
> {
    match opt_expanded(c.api_key, env) {
        Ok(Some(key)) => if key.len() == 0 {
            Err(ConfigErrorView::EmptyServerApiKey)
        } else {
            Ok(Some(key))
        },
        Ok(None) => Ok(None),
        Err(e) => Err(e),
    }
}

/// What reading a file for a change gives: nothing set where there is no file.
pub open spec fn for_update(loaded: Result<ConfigView, ConfigErrorView>) -> Result<
    ConfigView,
    ConfigErrorView,
> {
    match loaded {
        Err(ConfigErrorView::Read { not_found: true, .. }) => Ok(first_config()),
        _ => loaded,
    }
}

/// A configuration or an error, by what it stands for.
pub open spec fn loaded(r: Result<Config, ConfigError>) -> Result<ConfigView, ConfigErrorView> {
    match r {
        Ok(c) => Ok(c@),
        Err(e) => Err(e@),
    }
}

impl Config {
    /// The key of the server, with the variables in it expanded.
    pub fn api_key(&self, env: &Environment) -> (r: Result<Option<String>, ConfigError>)
        ensures
            match r {
                Ok(key) => server_key(self@, env@) == Ok::<Option<Seq<char>>, ConfigErrorView>(
                    opt_text(key),
                ),
                Err(e) => server_key(self@, env@) == Err::<Option<Seq<char>>, ConfigErrorView>(e@),
            },
    {
        match opt_expand(borrow(&self.api_key), env) {
            Ok(Some(key)) => {
                proof {
                    reveal_strlit("");
                }
                if same(key.as_str(), "") {
                    return Err(ConfigError::EmptyServerApiKey);
                }
                assert(key@.len() > 0) by {
                    if key@.len() == 0 {
                        assert(key@ =~= ""@);
                    }
                }
                Ok(Some(key))
            },
            Ok(None) => Ok(None),
            Err(e) => Err(e),
        }
    }

    /// The configuration that was read from a file, or nothing set where there is no file.
    pub fn load_for_update(read: Result<Config, ConfigError>) -> (r: Result<Config, ConfigError>)
        ensures
            loaded(r) == for_update(loaded(read)),
    {
        match read {
            Err(ConfigError::Read { not_found, message }) => {
                if not_found {
                    Ok(Config::default())
                } else {
                    Err(ConfigError::Read { not_found, message })
                }
            },
            other => other,
        }
    }

    /// The configuration that was read from a file, cleaned of white space and checked.
    pub fn checked(self) -> (r: Result<Config, ConfigError>)
        ensures
            match validity(normalized(self@)) {
                Ok(_) => r matches Ok(c) && c@ == normalized(self@),
                Err(e) => r matches Err(f) && f@ == e,
            },
    {
        let config = self.normalize();
        match config.validate() {
            Ok(_) => Ok(config),
            Err(e) => Err(e),
        }
    }

    fn normalize(&self) -> (r: Config)
        ensures
            r@ == normalized(self@),
    {
        let clean = |p: &ProviderConfig| -> (r: ProviderConfig)
            ensures
                r@ == normalized_provider(p@),
        {
            p.normalize()
        };
        Config {
            server: trim(self.server.as_str()),
            api_key: own(borrow(&self.api_key)),
            default: trim(self.default.as_str()),
            providers: self.providers.map_values(clean, Ghost(provider_normalizer())),
        }
    }

    /// Whether the configuration can be used, or why not.
    pub fn validate(&self) -> (r: Result<(), ConfigError>)
        ensures
            done(r) == validity(self@),
    {
        if let Some(key) = &self.api_key {
            if same(key.as_str(), "") {
                return Err(ConfigError::EmptyServerApiKey);
            }
        }
        let ghost names = names_of(self.providers@);
        let mut i: usize = 0;
        let n = self.providers.len();
        assert(names.take(0) =~= Seq::empty());
        while i < n
            invariant
                names == names_of(self.providers@),
                n == names.len(),
                i <= n,
                self@.api_key != Some(""@),
                first_invalid(names.take(i as int)) is None,
            decreases n - i,
        {
            assert(names.take(i + 1).drop_last() =~= names.take(i as int));
            let name = self.providers.name_at(i);
            if !is_valid_name(name) {
                proof {
                    first_invalid_stays(names, i + 1);
                }
                return Err(ConfigError::InvalidProviderName(name.to_owned()));
            }
            i = i + 1;
        }
        assert(names.take(i as int) =~= names);
        proof {
            reveal_strlit("");
            if n == 0 {
                no_names(self.providers@);
            } else {
                assert(names.contains(names[0]));
                assert(self.providers@.contains_key(names[0]));
            }
        }
        assert((self.default@ == ""@) == (self.default@.len() == 0)) by {
            if self.default@.len() == 0 {
                assert(self.default@ =~= ""@);
            }
        }
        if (n == 0 && same(self.default.as_str(), "")) || self.providers.contains_key(
            self.default.as_str(),
        ) {
            Ok(())
        } else {
            Err(ConfigError::DefaultProviderNotFound(self.default.clone()))
        }
    }

    /// Adds a provider; it becomes the default where there is none.
    pub fn add_provider(&mut self, name: String, provider: ProviderConfig) -> (r: Result<
        (),
        ConfigError,
    >)
        ensures
            changed(old(self)@, final(self)@, r, added(old(self)@, name@, provider@)),
    {
        if !is_valid_name(name.as_str()) {
            return Err(ConfigError::InvalidProviderName(name));
        }
        if self.providers.contains_key(name.as_str()) {
            return Err(ConfigError::ProviderAlreadyExists(name));
        }
        let provider = provider.normalize();
        self.providers.insert(name.clone(), provider);
        proof {
            reveal_strlit("");
        }
        assert((self.default@ == ""@) == (self.default@.len() == 0)) by {
            if self.default@.len() == 0 {
                assert(self.default@ =~= ""@);
            }
        }
        if same(self.default.as_str(), "") {
            self.default = name;
        }
        Ok(())
    }

    /// Sets the default.
    pub fn set_default(&mut self, name: &str) -> (r: Result<(), ConfigError>)
        ensures
            changed(old(self)@, final(self)@, r, with_default(old(self)@, name@)),
    {
        if !self.providers.contains_key(name) {
            return Err(ConfigError::ProviderNotFound(name.to_owned()));
        }
        self.default = name.to_owned();
        Ok(())
    }

    /// Removes a provider; where it is the default, the first of the remaining by name becomes it.
    pub fn remove_provider(&mut self, name: &str) -> (r: Result<(), ConfigError>)
        ensures
            changed(old(self)@, final(self)@, r, removed(old(self)@, name@)),
    {
        let ghost before = self@;
        if !self.providers.remove(name) {
            assert(before.providers.remove(name@) =~= before.providers);
            return Err(ConfigError::ProviderNotFound(name.to_owned()));
        }
        if same(self.default.as_str(), name) {
            if self.providers.len() > 0 {
                self.default = self.providers.name_at(0).to_owned();
            } else {
                self.default = String::new();
                assert(self.default@ =~= Seq::empty());
            }
        }
        Ok(())
    }

    /// The provider under a name, or the default, and its name.
    pub fn provider<'a>(&'a self, name: Option<&'a str>) -> (r: Result<
        (&'a str, &'a ProviderConfig),
        ConfigError,
    >)
        ensures
            match r {
                Ok((n, p)) => provider_at(self@, opt_str(name)) == Ok::<
                    (Seq<char>, ProviderView),
                    ConfigErrorView,
                >((n@, p@)),
                Err(e) => provider_at(self@, opt_str(name)) == Err::<
                    (Seq<char>, ProviderView),
                    ConfigErrorView,
                >(e@),
            },
    {
        let name = match name {
            Some(name) => name,
            None => self.default.as_str(),
        };
        match self.providers.get(name) {
            Some(provider) => Ok((name, provider)),
            None => Err(ConfigError::ProviderNotFound(name.to_owned())),
        }
    }
}

proof fn first_invalid_stays(names: Seq<Seq<char>>, n: int)
    requires
        0 <= n <= names.len(),
        first_invalid(names.take(n)) is Some,
    ensures
        first_invalid(names) == first_invalid(names.take(n)),
    decreases names.len() - n,
{
    if n < names.len() {
        assert(names.take(n + 1).drop_last() =~= names.take(n));
        first_invalid_stays(names, n + 1);
    } else {
        assert(names.take(n) =~= names);
    }
}

/// The formats of a configuration file.
#[derive(Debug, Clone, Copy, PartialEq, Eq, Structural)]
pub enum FileFormat {
    Yaml,
    Toml,
    Json,
}

/// The format of a file by its extension, in any case of letters.
pub open spec fn format_of(extension: Option<Seq<char>>) -> Result<FileFormat, ConfigErrorView> {
    match extension {
        None => Err(ConfigErrorView::UnsupportedExtension(Seq::empty())),
        Some(extension) => {
            let e = lower_text(extension);
            if e == "yaml"@ || e == "yml"@ {
                Ok(FileFormat::Yaml)
            } else if e == "toml"@ {
                Ok(FileFormat::Toml)
            } else if e == "json"@ {
                Ok(FileFormat::Json)
            } else {
                Err(ConfigErrorView::UnsupportedExtension(e))
            }
        },
    }
}

/// The format of a file by its extension.
pub fn file_format(extension: Option<&str>) -> (r: Result<FileFormat, ConfigError>)
    ensures
        match r {
            Ok(f) => format_of(opt_str(extension)) == Ok::<FileFormat, ConfigErrorView>(f),
            Err(e) => format_of(opt_str(extension)) == Err::<FileFormat, ConfigErrorView>(e@),
        },
{
    match extension {
        None => {
            let none = String::new();
            assert(none@ =~= Seq::empty());
            Err(ConfigError::UnsupportedExtension(none))
        },
        Some(extension) => {
            let e = lower(extension);
            if same(e.as_str(), "yaml") || same(e.as_str(), "yml") {
                Ok(FileFormat::Yaml)
            } else if same(e.as_str(), "toml") {
                Ok(FileFormat::Toml)
            } else if same(e.as_str(), "json") {
                Ok(FileFormat::Json)
            } else {
                Err(ConfigError::UnsupportedExtension(e))
            }
        },
    }
}

proof fn first_invalid_none(names: Seq<Seq<char>>)
    ensures
        first_invalid(names) is None <==> forall|i: int|
            0 <= i < names.len() ==> valid_name(#[trigger] names[i]),
    decreases names.len(),
{
    if names.len() > 0 {
        let front = names.drop_last();
        first_invalid_none(front);
        if first_invalid(names) is None {
            assert forall|i: int| 0 <= i < names.len() implies valid_name(#[trigger] names[i]) by {
                if i < front.len() {
                    assert(valid_name(front[i]));
                }
            }
        }
        if forall|i: int| 0 <= i < names.len() ==> valid_name(#[trigger] names[i]) {
            assert forall|i: int| 0 <= i < front.len() implies valid_name(#[trigger] front[i]) by {
                assert(valid_name(names[i]));
            }
            assert(valid_name(names[names.len() - 1]));
        }
    }
}

/// The names of a configuration that can be used are names of providers, and the names of a
/// configuration are listed by `names_of`.
pub(crate) proof fn names_valid(c: ConfigView)
    requires
        valid(c),
        listable(c.providers),
    ensures
        forall|k: Seq<char>| #[trigger] c.providers.contains_key(k) ==> valid_name(k),
{
    let names = names_of(c.providers);
    first_invalid_none(names);
    assert forall|k: Seq<char>| #[trigger] c.providers.contains_key(k) implies valid_name(k) by {
        assert(names.contains(k));
        let i = choose|i: int| 0 <= i < names.len() && names[i] == k;
        assert(valid_name(names[i]));
    }
}

pub(crate) proof fn valid_when(c: ConfigView)
    requires
        listable(c.providers),
        c.api_key != Some(""@),
        forall|k: Seq<char>| #[trigger] c.providers.contains_key(k) ==> valid_name(k),
        (c.providers == Map::<Seq<char>, ProviderView>::empty() && c.default.len() == 0)
            || c.providers.contains_key(c.default),
    ensures
        valid(c),
{
    let names = names_of(c.providers);
    assert forall|i: int| 0 <= i < names.len() implies valid_name(#[trigger] names[i]) by {
        assert(names.contains(names[i]));
        assert(c.providers.contains_key(names[i]));
    }
    first_invalid_none(names);
}

/// A configuration in which nothing is set can be used.
pub proof fn first_config_valid()
    ensures
        valid(first_config()),
{
    empty_listable::<ProviderView>();
    assert(names_of(first_config().providers) =~= Seq::empty());
}

/// Adding a provider to a configuration that can be used gives one that can be used.
pub proof fn adding_keeps_valid(c: ConfigView, name: Seq<char>, p: ProviderView)
    requires
        valid(c),
        listable(c.providers),
    ensures
        added(c, name, p) matches Ok(d) ==> valid(d) && listable(d.providers),
{
    if let Ok(d) = added(c, name, p) {
        names_valid(c);
        insert_listable(c.providers, name, normalized_provider(p));
        if c.providers.contains_key(c.default) {
            assert(valid_name(c.default));
        }
        valid_when(d);
    }
}

/// Setting the default of a configuration that can be used gives one that can be used.
pub proof fn setting_default_keeps_valid(c: ConfigView, name: Seq<char>)
    requires
        valid(c),
    ensures
        with_default(c, name) matches Ok(d) ==> valid(d),
{
}

/// Removing a provider from a configuration that can be used gives one that can be used, though it
/// be the default or the last.
pub proof fn removing_keeps_valid(c: ConfigView, name: Seq<char>)
    requires
        valid(c),
        listable(c.providers),
    ensures
        removed(c, name) matches Ok(d) ==> valid(d) && listable(d.providers),
{
    if let Ok(d) = removed(c, name) {
        names_valid(c);
        remove_listable(c.providers, name);
        let rest = c.providers.remove(name);
        if names_of(rest).len() == 0 {
            no_names(rest);
        } else {
            assert(names_of(rest).contains(names_of(rest)[0]));
            assert(rest.contains_key(names_of(rest)[0]));
        }
        assert forall|k: Seq<char>| #[trigger] d.providers.contains_key(k) implies valid_name(k) by {
            assert(c.providers.contains_key(k));
        }
        valid_when(d);
    }
}

/// Removing what was just added to a configuration that can be used leaves it as it was, the
/// default included.
pub proof fn removing_undoes_adding(c: ConfigView, name: Seq<char>, p: ProviderView)
    requires
        valid(c),
        listable(c.providers),
    ensures
        added(c, name, p) matches Ok(d) ==> removed(d, name) == Ok::<ConfigView, ConfigErrorView>(
            c,
        ),
{
    if let Ok(d) = added(c, name, p) {
        assert(d.providers.remove(name) =~= c.providers);
        names_valid(c);
        if c.providers.contains_key(c.default) {
            assert(valid_name(c.default));
        } else {
            empty_listable::<ProviderView>();
            assert(c.default =~= Seq::empty());
        }
    }
}

/// Removing the default makes the first of the remaining providers the default: no other name
/// comes before it.
pub proof fn removing_default_picks_first(c: ConfigView, name: Seq<char>, other: Seq<char>)
    requires
        listable(c.providers),
        c.default == name,
        c.providers.contains_key(name),
        c.providers.contains_key(other),
        other != name,
    ensures
        removed(c, name) matches Ok(d) && d.providers.contains_key(d.default) && (other == d.default
            || text_before(d.default, other)),
{
    let rest = c.providers.remove(name);
    remove_listable(c.providers, name);
    let names = names_of(rest);
    assert(rest.contains_key(other));
    assert(names.contains(other));
    let i = choose|i: int| 0 <= i < names.len() && names[i] == other;
    assert(names.contains(names[0]));
    assert(rest.contains_key(names[0]));
    if i > 0 {
        assert(text_before(names[0], names[i]));
    }
}

/// A configuration that can be used has a default provider as soon as it has a provider.
pub proof fn default_is_found(c: ConfigView, name: Seq<char>)
    requires
        valid(c),
        c.providers.contains_key(name),
    ensures
        provider_at(c, None) is Ok,
{
}

} // verus!
