use llmapi::cmd::{
    entered_key, format_provider_list, home_files, key_source, local_files, AddArgs, Cmd, Command,
    ConfigPath, KeyError, KeySource, ServerArgs, SetArgs, SetCommand,
};
use llmapi::config::{
    expand_env, file_format, Config, ConfigError, EnvValue, Environment, FileFormat, Provider,
    ProviderConfig, VarError,
};
use llmapi::named::Named;

fn provider(provider_type: Provider, base_url: &str, api_key: Option<&str>) -> ProviderConfig {
    ProviderConfig {
        provider_type,
        base_url: base_url.into(),
        api_key: api_key.map(Into::into),
    }
}

fn three_providers() -> Config {
    let mut providers = Named::new();
    providers.insert(
        "deepseek".into(),
        provider(Provider::OpenAiChat, "https://xxxxxxx", Some("sk-xxxxxxx")),
    );
    providers.insert(
        "openai".into(),
        provider(Provider::OpenAiResponses, "https://yyyyyyy", Some("sk-yyyyyyy")),
    );
    providers.insert(
        "anthropic".into(),
        provider(Provider::Anthropic, "https://zzzzzzz", Some("sk-zzzzzzz")),
    );
    Config {
        server: "127.0.0.1:8080".into(),
        api_key: None,
        default: "deepseek".into(),
        providers,
    }
}

fn environment(list: &[(&str, &str)]) -> Environment {
    let mut env = Named::new();
    for (name, value) in list {
        env.insert((*name).to_string(), EnvValue::Text((*value).to_string()));
    }
    env
}

#[test]
fn add_and_set_default_round_trip() {
    let missing = ConfigError::Read {
        not_found: true,
        message: "No such file or directory".into(),
    };
    let mut config = Config::load_for_update(Err(missing)).unwrap();
    config.api_key = Some("${LLMAPI_API_KEY}".into());
    config
        .add_provider(
            "deepseek".into(),
            provider(
                Provider::OpenAiChat,
                "https://api.deepseek.test/",
                Some("sk-test"),
            ),
        )
        .unwrap();
    config
        .add_provider(
            "openai".into(),
            provider(Provider::OpenAiResponses, "https://api.openai.test", None),
        )
        .unwrap();
    config.set_default("openai").unwrap();

    let loaded = config.checked().unwrap();
    assert_eq!(loaded.api_key.as_deref(), Some("${LLMAPI_API_KEY}"));
    assert_eq!(loaded.default, "openai");
    assert_eq!(
        loaded.providers.get("deepseek").unwrap().base_url,
        "https://api.deepseek.test"
    );
}

#[test]
fn rejects_missing_default_provider() {
    let mut config = three_providers();
    config.default = "missing".into();
    let error = config.validate().unwrap_err();
    assert!(matches!(error, ConfigError::DefaultProviderNotFound(_)));
}

#[test]
fn rejects_empty_server_api_key() {
    let mut config = three_providers();
    config.api_key = Some("".into());
    let error = config.checked().unwrap_err();
    assert!(matches!(error, ConfigError::EmptyServerApiKey));
}

#[test]
fn removing_last_provider_keeps_config_loadable() {
    let mut config = three_providers();
    assert!(matches!(
        config.remove_provider("missing"),
        Err(ConfigError::ProviderNotFound(_))
    ));
    config.remove_provider("deepseek").unwrap();
    assert_eq!(config.default, "anthropic");
    config.remove_provider("anthropic").unwrap();
    config.remove_provider("openai").unwrap();
    assert!(config.default.is_empty());
    assert_eq!(config.clone().checked().unwrap(), config);
}

#[test]
fn provider_type_accepts_canonical_and_short_names() {
    assert_eq!(Provider::from_str("chat").unwrap(), Provider::OpenAiChat);
    assert_eq!(
        Provider::from_str("openai-responses").unwrap(),
        Provider::OpenAiResponses
    );
    assert_eq!(Provider::from_str("messages").unwrap(), Provider::Anthropic);
}

#[test]
fn provider_names_round_trip_and_others_are_refused() {
    for kind in [
        Provider::OpenAiChat,
        Provider::OpenAiResponses,
        Provider::Anthropic,
    ] {
        assert_eq!(Provider::from_str(kind.as_str()).unwrap(), kind);
    }
    assert!(matches!(
        Provider::from_str("gemini"),
        Err(ConfigError::UnknownProviderType(name)) if name == "gemini"
    ));
}

#[test]
fn names_that_would_break_a_path_are_refused() {
    let mut config = Config::default();
    for name in ["", "a/b"] {
        let refused = config.add_provider(name.into(), provider(Provider::Anthropic, "u", None));
        assert!(matches!(refused, Err(ConfigError::InvalidProviderName(_))));
    }
}

#[test]
fn adding_a_provider_twice_is_refused_and_changes_nothing() {
    let mut config = three_providers();
    let before = config.clone();
    assert!(matches!(
        config.add_provider("openai".into(), provider(Provider::Anthropic, "u", None)),
        Err(ConfigError::ProviderAlreadyExists(_))
    ));
    assert_eq!(config, before);
}

#[test]
fn removing_what_was_added_gives_the_config_back() {
    let mut config = three_providers();
    let before = config.clone();
    config
        .add_provider("extra".into(), provider(Provider::Anthropic, "https://e", None))
        .unwrap();
    assert_eq!(config.providers.len(), 4);
    config.remove_provider("extra").unwrap();
    assert_eq!(config, before);
}

#[test]
fn variables_are_expanded_in_place() {
    let env = environment(&[("KEY", "sk-1"), ("EMPTY", "")]);
    assert_eq!(expand_env("plain", &env).unwrap(), "plain");
    assert_eq!(expand_env("${KEY}", &env).unwrap(), "sk-1");
    assert_eq!(expand_env("a-${KEY}-b-${KEY}", &env).unwrap(), "a-sk-1-b-sk-1");
    assert_eq!(expand_env("${EMPTY}", &env).unwrap(), "");
    assert_eq!(expand_env("${KEY", &env).unwrap(), "${KEY");
    match expand_env("${NONE}", &env) {
        Err(ConfigError::EnvVar { name, source }) => {
            assert_eq!(name, "NONE");
            assert_eq!(source, VarError::NotPresent);
            assert_eq!(
                ConfigError::EnvVar { name, source }.message(),
                "expand environment variable NONE: environment variable not found"
            );
        }
        other => panic!("{other:?}"),
    }
}

#[test]
fn an_empty_expanded_server_key_is_refused() {
    let env = environment(&[("EMPTY", ""), ("KEY", "sk-1")]);
    let mut config = three_providers();
    assert_eq!(config.api_key(&env), Ok(None));
    config.api_key = Some("${KEY}".into());
    assert_eq!(config.api_key(&env), Ok(Some("sk-1".into())));
    config.api_key = Some("${EMPTY}".into());
    assert_eq!(config.api_key(&env), Err(ConfigError::EmptyServerApiKey));
}

#[test]
fn formats_by_extension() {
    assert_eq!(file_format(Some("yaml")), Ok(FileFormat::Yaml));
    assert_eq!(file_format(Some("YML")), Ok(FileFormat::Yaml));
    assert_eq!(file_format(Some("toml")), Ok(FileFormat::Toml));
    assert_eq!(file_format(Some("json")), Ok(FileFormat::Json));
    assert_eq!(
        file_format(Some("INI")),
        Err(ConfigError::UnsupportedExtension("ini".into()))
    );
    assert_eq!(
        file_format(None),
        Err(ConfigError::UnsupportedExtension("".into()))
    );
}

#[test]
fn an_unreadable_file_is_no_missing_file() {
    let denied = ConfigError::Read {
        not_found: false,
        message: "permission denied".into(),
    };
    assert_eq!(
        Config::load_for_update(Err(denied)).unwrap_err().message(),
        "read config: permission denied"
    );
}

#[test]
fn provider_list_marks_default_without_api_keys() {
    let mut providers = Named::new();
    providers.insert(
        "deepseek".into(),
        provider(
            Provider::OpenAiChat,
            "https://api.deepseek.test",
            Some("sk-secret"),
        ),
    );
    let config = Config {
        server: "127.0.0.1:8080".into(),
        api_key: None,
        default: "deepseek".into(),
        providers,
    };

    let output = format_provider_list(&config);

    assert!(output.contains("deepseek\topenai-chat\thttps://api.deepseek.test\t*"));
    assert!(!output.contains("sk-secret"));
}

#[test]
fn server_overrides_parse() {
    let args = ServerArgs {
        server: Some("127.0.0.1:9090".into()),
        default: Some("openai".into()),
    };
    assert_eq!(args.server.as_deref(), Some("127.0.0.1:9090"));
    assert_eq!(args.default.as_deref(), Some("openai"));

    let mut providers = Named::new();
    providers.insert(
        "deepseek".into(),
        provider(Provider::OpenAiChat, "https://deepseek.test", None),
    );
    providers.insert(
        "openai".into(),
        provider(Provider::OpenAiResponses, "https://openai.test", None),
    );
    let mut config = Config {
        server: "127.0.0.1:8080".into(),
        api_key: None,
        default: "deepseek".into(),
        providers,
    };
    args.apply_to(&mut config).unwrap();
    assert_eq!(config.server, "127.0.0.1:9090");
    assert_eq!(config.default, "openai");

    let args = ServerArgs {
        server: None,
        default: Some("missing".into()),
    };
    assert!(args.apply_to(&mut config).is_err());
    assert_eq!(config.default, "openai");
}

#[test]
fn default_config_path_supports_all_formats() {
    let cmd = Cmd {
        config: None,
        command: Command::List,
    };
    let none = [false; 4];
    assert_eq!(
        cmd.config_path(&none, &none),
        ConfigPath::Home("llmapi.yaml")
    );
    let files = home_files();
    let mut there = [false; 4];
    for name in ["llmapi.json", "llmapi.yml", "llmapi.toml", "llmapi.yaml"] {
        let at = files.iter().position(|file| *file == name).unwrap();
        there[at] = true;
        assert_eq!(cmd.config_path(&none, &there), ConfigPath::Home(name));
    }
}

#[test]
fn config_path_prefers_explicit_then_local_formats_then_home() {
    let cmd = Cmd {
        config: None,
        command: Command::List,
    };
    let none = [false; 4];
    let files = local_files();
    let mut there = [false; 4];
    for name in ["config.json", "config.yml", "config.yaml", "config.toml"] {
        let at = files.iter().position(|file| *file == name).unwrap();
        there[at] = true;
        assert_eq!(
            cmd.config_path(&there, &[true; 4]),
            ConfigPath::Local(name)
        );
    }
    let cmd = Cmd {
        config: Some("missing.yaml".into()),
        command: Command::List,
    };
    assert_eq!(
        cmd.config_path(&there, &none),
        ConfigPath::Explicit("missing.yaml".into())
    );
}

#[test]
fn add_and_set_commands_persist_config() {
    let mut config = Config::default();
    for (name, kind, url) in [
        ("deepseek", Provider::OpenAiChat, "https://api.deepseek.test/"),
        ("openai", Provider::OpenAiResponses, "https://api.openai.test/v1"),
    ] {
        let add = Cmd {
            config: None,
            command: Command::Add(AddArgs {
                name: name.into(),
                provider_type: kind,
                baseurl: url.into(),
                key: KeySource::Unset,
            }),
        };
        add.change(&mut config, None).unwrap();
    }
    let set = Cmd {
        config: None,
        command: Command::Settings(SetArgs {
            command: SetCommand::Default {
                provider: "openai".into(),
            },
        }),
    };
    set.change(&mut config, None).unwrap();

    assert_eq!(config.default, "openai");
    assert_eq!(config.providers.len(), 2);
}

#[test]
fn set_rejects_unknown_provider_without_rewriting_file() {
    let mut config = three_providers();
    let before = config.clone();
    let set = Cmd {
        config: None,
        command: Command::Settings(SetArgs {
            command: SetCommand::Default {
                provider: "missing".into(),
            },
        }),
    };
    assert!(set.change(&mut config, None).is_err());
    assert_eq!(config, before);
}

#[test]
fn remove_command_picks_the_first_remaining_default() {
    let mut config = three_providers();
    let remove = Cmd {
        config: None,
        command: Command::Remove {
            name: "deepseek".into(),
        },
    };
    remove.change(&mut config, None).unwrap();
    assert_eq!(config.default, "anthropic");
}

#[test]
fn keys_are_entered_and_never_given_as_arguments() {
    assert_eq!(key_source(false, None, false), Ok(KeySource::Unset));
    assert_eq!(key_source(true, None, false), Ok(KeySource::Prompt));
    assert_eq!(key_source(false, None, true), Ok(KeySource::Stdin));
    assert_eq!(
        key_source(true, Some("sk-test"), false),
        Err(KeyError::Plaintext)
    );
    assert_eq!(entered_key("sk-1\n"), Ok("sk-1".into()));
    assert_eq!(entered_key("sk-1\r\n"), Ok("sk-1".into()));
    assert_eq!(entered_key("\n"), Err(KeyError::Empty));
    assert_eq!(
        KeyError::Plaintext.message(),
        "a key on the command line is not accepted"
    );
}
