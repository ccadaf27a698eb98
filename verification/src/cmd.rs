//! The commands of the program.

use crate::config::{
    added, changed, provider_text, removed, with_default, Config, ConfigError, ConfigErrorView,
    ConfigView, Provider, ProviderConfig, ProviderView,
};
use crate::named::names_of;
use crate::text::{opt_str, opt_text, own, same, trim_end, without_end};
use vstd::prelude::*;

verus! {

/// A command, and the configuration file that it names.
#[derive(Debug, PartialEq)]
pub struct Cmd {
    pub config: Option<String>,
    pub command: Command,
}

/// A command.
#[derive(Debug, PartialEq)]
pub enum Command {
    /// Lists the providers.
    List,
    /// Adds a provider.
    Add(AddArgs),
    /// Removes a provider.
    Remove { name: String },
    /// Changes a setting.
    Settings(SetArgs),
    /// Starts the server.
    Server(ServerArgs),
}

/// A provider to add.
#[derive(Debug, PartialEq)]
pub struct AddArgs {
    /// The name of the provider in a path.
    pub name: String,
    pub provider_type: Provider,
    pub baseurl: String,
    /// Where the key of the provider comes from.
    pub key: KeySource,
}

/// Where the key of a provider comes from.
#[derive(Debug, Clone, Copy, PartialEq, Eq, Structural)]
pub enum KeySource {
    /// There is none.
    Unset,
    /// It is asked for.
    Prompt,
    /// It is read from the input.
    Stdin,
}

/// A setting to change.
#[derive(Debug, PartialEq)]
pub struct SetArgs {
    pub command: SetCommand,
}

/// A setting to change.
#[derive(Debug, PartialEq)]
pub enum SetCommand {
    /// The default provider.
    Default { provider: String },
}

/// What the server is to do otherwise than its configuration says.
#[derive(Debug, PartialEq)]
pub struct ServerArgs {
    /// The address to listen on.
    pub server: Option<String>,
    /// The default provider.
    pub default: Option<String>,
}

/// The configuration with what the command line asks for; the error where there is no such
/// provider.
pub open spec fn with_arguments(
    c: ConfigView,
    server: Option<Seq<char>>,
    default: Option<Seq<char>>,
) -> Result<ConfigView, ConfigErrorView> {
    match match default {
        Some(default) => with_default(c, default),
        None => Ok(c),
    } {
        Err(e) => Err(e),
        Ok(c) => Ok(
            match server {
                Some(server) => ConfigView { server, ..c },
                None => c,
            },
        ),
    }
}

impl ServerArgs {
    /// Changes the configuration to what the command line asks for. An unknown provider changes
    /// nothing.
    pub fn apply_to(&self, config: &mut Config) -> (r: Result<(), ConfigError>)
        ensures
            changed(
                old(config)@,
                final(config)@,
                r,
                with_arguments(old(config)@, opt_text(self.server), opt_text(self.default)),
            ),
    {
        if let Some(default) = &self.default {
            if let Err(e) = config.set_default(default.as_str()) {
                return Err(e);
            }
        }
        if let Some(server) = &self.server {
            config.server = server.clone();
        }
        Ok(())
    }
}

/// Why there is no key for a provider.
#[derive(Debug, Clone, Copy, PartialEq, Eq, Structural)]
pub enum KeyError {
    /// The key stands on the command line.
    Plaintext,
    /// The key has no character.
    Empty,
}

impl KeyError {
    /// The words of the error.
    pub fn message(&self) -> (r: &'static str)
        ensures
            r@ == key_error_message(*self),
    {
        match self {
            KeyError::Plaintext => "a key on the command line is not accepted",
            KeyError::Empty => "a key cannot be empty",
        }
    }
}

/// The words of an error.
pub open spec fn key_error_message(e: KeyError) -> Seq<char> {
    match e {
        KeyError::Plaintext => "a key on the command line is not accepted"@,
        KeyError::Empty => "a key cannot be empty"@,
    }
}

/// Where the key of a provider comes from: `--apikey` asks for it, and must have no value;
/// `--apikey-stdin` reads it.
pub fn key_source(apikey: bool, value: Option<&str>, stdin: bool) -> (r: Result<
    KeySource,
    KeyError,
>)
    ensures
        r == if value is Some {
            Err::<KeySource, KeyError>(KeyError::Plaintext)
        } else if stdin {
            Ok(KeySource::Stdin)
        } else if apikey {
            Ok(KeySource::Prompt)
        } else {
            Ok(KeySource::Unset)
        },
{
    if value.is_some() {
        Err(KeyError::Plaintext)
    } else if stdin {
        Ok(KeySource::Stdin)
    } else if apikey {
        Ok(KeySource::Prompt)
    } else {
        Ok(KeySource::Unset)
    }
}

/// A line without its end.
pub open spec fn line_text(line: Seq<char>) -> Seq<char> {
    without_end(without_end(line, '\n'), '\r')
}

/// The key that a line is; it has a character.
pub fn entered_key(line: &str) -> (r: Result<String, KeyError>)
    ensures
        match r {
            Ok(key) => key@ == line_text(line@) && key@.len() > 0,
            Err(e) => e == KeyError::Empty && line_text(line@).len() == 0,
        },
{
    let key = trim_end(trim_end(line, '\n').as_str(), '\r');
    proof {
        reveal_strlit("");
        if key@.len() == 0 {
            assert(key@ =~= ""@);
        }
    }
    if same(key.as_str(), "") {
        return Err(KeyError::Empty);
    }
    Ok(key)
}

/// What a command changes of a configuration, with the key that was entered for a provider.
pub open spec fn command_change(c: ConfigView, command: Command, key: Option<Seq<char>>) -> Result<
    ConfigView,
    ConfigErrorView,
> {
    match command {
        Command::Add(args) => added(
            c,
            args.name@,
            ProviderView {
                provider_type: args.provider_type,
                base_url: args.baseurl@,
                api_key: key,
            },
        ),
        Command::Remove { name } => removed(c, name@),
        Command::Settings(args) => match args.command {
            SetCommand::Default { provider } => with_default(c, provider@),
        },
        _ => Ok(c),
    }
}

impl Cmd {
    /// Changes a configuration as the command says, with the key that was entered for a provider.
    /// A command that fails changes nothing.
    pub fn change(&self, config: &mut Config, key: Option<&str>) -> (r: Result<(), ConfigError>)
        ensures
            changed(
                old(config)@,
                final(config)@,
                r,
                command_change(old(config)@, self.command, opt_str(key)),
            ),
    {
        match &self.command {
            Command::Add(args) => config.add_provider(
                args.name.clone(),
                ProviderConfig {
                    provider_type: args.provider_type,
                    base_url: args.baseurl.clone(),
                    api_key: own(key),
                },
            ),
            Command::Remove { name } => config.remove_provider(name.as_str()),
            Command::Settings(args) => match &args.command {
                SetCommand::Default { provider } => config.set_default(provider.as_str()),
            },
            _ => Ok(()),
        }
    }

    /// Where the configuration file is: the one that the command names, or else the first that is
    /// there, of those in the working directory before those in the home directory.
    pub fn config_path(&self, local: &[bool; 4], home: &[bool; 4]) -> (r: ConfigPath)
        ensures
            r@ == path_chosen(opt_text(self.config), local@, home@),
    {
        if let Some(path) = &self.config {
            return ConfigPath::Explicit(path.clone());
        }
        proof {
            reveal_with_fuel(first_there, 5);
        }
        if local[0] {
            ConfigPath::Local("config.toml")
        } else if local[1] {
            ConfigPath::Local("config.yaml")
        } else if local[2] {
            ConfigPath::Local("config.yml")
        } else if local[3] {
            ConfigPath::Local("config.json")
        } else if home[0] {
            ConfigPath::Home("llmapi.yaml")
        } else if home[1] {
            ConfigPath::Home("llmapi.toml")
        } else if home[2] {
            ConfigPath::Home("llmapi.yml")
        } else if home[3] {
            ConfigPath::Home("llmapi.json")
        } else {
            ConfigPath::Home("llmapi.yaml")
        }
    }
}

/// A configuration file.
#[derive(Debug, PartialEq)]
pub enum ConfigPath {
    /// The one that is named.
    Explicit(String),
    /// One in the working directory.
    Local(&'static str),
    /// One in the home directory.
    Home(&'static str),
}

/// What a file stands for.
#[verifier::ext_equal]
pub enum ConfigPathView {
    Explicit(Seq<char>),
    Local(Seq<char>),
    Home(Seq<char>),
}

impl View for ConfigPath {
    type V = ConfigPathView;

    open spec fn view(&self) -> ConfigPathView {
        match self {
            ConfigPath::Explicit(path) => ConfigPathView::Explicit(path@),
            ConfigPath::Local(name) => ConfigPathView::Local(name@),
            ConfigPath::Home(name) => ConfigPathView::Home(name@),
        }
    }
}

/// The names of the files in the working directory, the first to look for first.
pub open spec fn local_names() -> Seq<Seq<char>> {
    seq!["config.toml"@, "config.yaml"@, "config.yml"@, "config.json"@]
}

/// The names of the files in the home directory, the first to look for first.
pub open spec fn home_names() -> Seq<Seq<char>> {
    seq!["llmapi.yaml"@, "llmapi.toml"@, "llmapi.yml"@, "llmapi.json"@]
}

/// The names of the files in the working directory.
pub fn local_files() -> (r: [&'static str; 4])
    ensures
        crate::text::texts(r@) == local_names(),
{
    let r = ["config.toml", "config.yaml", "config.yml", "config.json"];
    assert(crate::text::texts(r@) =~= local_names());
    r
}

/// The names of the files in the home directory.
pub fn home_files() -> (r: [&'static str; 4])
    ensures
        crate::text::texts(r@) == home_names(),
{
    let r = ["llmapi.yaml", "llmapi.toml", "llmapi.yml", "llmapi.json"];
    assert(crate::text::texts(r@) =~= home_names());
    r
}

/// The first of the names whose file is there.
pub open spec fn first_there(names: Seq<Seq<char>>, there: Seq<bool>, i: int) -> Option<Seq<char>>
    decreases names.len() - i,
{
    if i < 0 || i >= names.len() {
        None
    } else if there[i] {
        Some(names[i])
    } else {
        first_there(names, there, i + 1)
    }
}

/// Where the configuration file is.
pub open spec fn path_chosen(explicit: Option<Seq<char>>, local: Seq<bool>, home: Seq<bool>)
    -> ConfigPathView {
    match explicit {
        Some(path) => ConfigPathView::Explicit(path),
        None => match first_there(local_names(), local, 0) {
            Some(name) => ConfigPathView::Local(name),
            None => match first_there(home_names(), home, 0) {
                Some(name) => ConfigPathView::Home(name),
                None => ConfigPathView::Home("llmapi.yaml"@),
            },
        },
    }
}

/// A line of the list of providers.
pub open spec fn provider_line(c: ConfigView, name: Seq<char>) -> Seq<char> {
    name + "\t"@ + provider_text(c.providers[name].provider_type) + "\t"@
        + c.providers[name].base_url + "\t"@ + (if name == c.default {
        "*"@
    } else {
        ""@
    }) + "\n"@
}

/// The lines of the list of providers.
pub open spec fn provider_lines(c: ConfigView, names: Seq<Seq<char>>) -> Seq<char>
    decreases names.len(),
{
    if names.len() == 0 {
        Seq::empty()
    } else {
        provider_lines(c, names.drop_last()) + provider_line(c, names.last())
    }
}

/// The list of providers, by name.
pub open spec fn provider_list(c: ConfigView) -> Seq<char> {
    "NAME\tTYPE\tBASEURL\tDEFAULT\n"@ + provider_lines(c, names_of(c.providers))
}

/// The list of providers, by name, without their keys.
pub fn format_provider_list(config: &Config) -> (r: String)
    ensures
        r@ == provider_list(config@),
{
    let ghost c = config@;
    let ghost names = names_of(c.providers);
    let mut out = "NAME\tTYPE\tBASEURL\tDEFAULT\n".to_owned();
    let ghost head = out@;
    let n = config.providers.len();
    let mut i: usize = 0;
    assert(names.take(0) =~= Seq::empty());
    assert(out@ =~= head + provider_lines(c, names.take(0)));
    while i < n
        invariant
            c == config@,
            names == names_of(c.providers),
            n == names.len(),
            i <= n,
            out@ == head + provider_lines(c, names.take(i as int)),
        decreases n - i,
    {
        let ghost before = out@;
        let name = config.providers.name_at(i);
        let provider = config.providers.value_at(i);
        out.push_str(name);
        out.push_str("\t");
        out.push_str(provider.provider_type.as_str());
        out.push_str("\t");
        out.push_str(provider.base_url.as_str());
        out.push_str("\t");
        if same(name, config.default.as_str()) {
            out.push_str("*");
        } else {
            out.push_str("");
        }
        out.push_str("\n");
        assert(out@ =~= before + provider_line(c, names[i as int]));
        assert(names.take(i + 1).drop_last() =~= names.take(i as int));
        assert(out@ =~= head + provider_lines(c, names.take(i + 1)));
        i = i + 1;
    }
    assert(names.take(i as int) =~= names);
    out
}

/// Two configurations that differ in nothing but keys have the same list.
pub proof fn list_hides_keys(a: ConfigView, b: ConfigView, names: Seq<Seq<char>>)
    requires
        a.default == b.default,
        forall|i: int|
            0 <= i < names.len() ==> a.providers[#[trigger] names[i]].provider_type
                == b.providers[names[i]].provider_type && a.providers[names[i]].base_url
                == b.providers[names[i]].base_url,
    ensures
        provider_lines(a, names) == provider_lines(b, names),
    decreases names.len(),
{
    if names.len() > 0 {
        let front = names.drop_last();
        assert forall|i: int| 0 <= i < front.len() implies a.providers[#[trigger] front[i]].provider_type
            == b.providers[front[i]].provider_type && a.providers[front[i]].base_url
            == b.providers[front[i]].base_url by {
            assert(front[i] == names[i]);
        }
        list_hides_keys(a, b, front);
        assert(names[names.len() - 1] == names.last());
    }
}

} // verus!
