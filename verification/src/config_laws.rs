//! What holds of the operations on configurations.

use crate::cmd::{first_there, home_names, local_names, path_chosen, with_arguments, ConfigPathView};
use crate::config::{
    added, expanded, first_config, for_update, format_of, names_valid, normalized,
    normalized_provider, opt_expanded, provider_at, removed, server_key, valid, valid_name,
    valid_when, validity, var_value, with_default, ConfigErrorView, ConfigView, EnvValueView,
    EnvView, FileFormat, ProviderView, VarErrorView,
};
use crate::named::listable;
use crate::text::{contains_text, lower_text, split_once, trimmed, without_end};
use crate::text_laws::{all_are, all_space, ends_are_cut, splits_at_the_first, trimming_cuts_space};
use vstd::prelude::*;

verus! {

/// Whether an address is what is left of a text without the white space around it and the slashes
/// at its end.
pub open spec fn cleaned(given: Seq<char>, kept: Seq<char>) -> bool {
    &&& exists|before: Seq<char>, slashes: Seq<char>, after: Seq<char>|
        given == #[trigger] (before + kept + slashes + after) && all_space(before) && all_are(
            slashes,
            '/',
        ) && all_space(after)
    &&& kept.len() > 0 ==> kept.last() != '/'
}

/// Whether a provider is the given one, with its address cleaned.
pub open spec fn same_provider(given: ProviderView, kept: ProviderView) -> bool {
    kept.provider_type == given.provider_type && kept.api_key == given.api_key && cleaned(
        given.base_url,
        kept.base_url,
    )
}

/// Whether two configurations have the same provider of a name, or neither has one.
pub open spec fn agree_on(a: ConfigView, b: ConfigView, name: Seq<char>) -> bool {
    a.providers.contains_key(name) == b.providers.contains_key(name) && (a.providers.contains_key(
        name,
    ) ==> a.providers[name] == b.providers[name])
}

proof fn addresses_are_cleaned(given: Seq<char>)
    ensures
        cleaned(given, without_end(trimmed(given), '/')),
{
    trimming_cuts_space(given);
    let t = trimmed(given);
    ends_are_cut(t, '/');
    let kept = without_end(t, '/');
    let (before, after) = choose|before: Seq<char>, after: Seq<char>|
        given == #[trigger] (before + t + after) && all_space(before) && all_space(after);
    let slashes = t.skip(kept.len() as int);
    assert(t =~= kept + slashes);
    assert(given =~= before + kept + slashes + after);
}

/// A provider that is added has the type and the key that were given, and the address without
/// white space around it and slashes at its end. Nothing else changes, but for the default where
/// there was none. A name that is none or is taken is refused.
pub proof fn added_as_given(c: ConfigView, name: Seq<char>, p: ProviderView, other: Seq<char>)
    ensures
        added(c, name, p) is Ok <==> valid_name(name) && !c.providers.contains_key(name),
        added(c, name, p) matches Ok(d) ==> {
            &&& d.providers.contains_key(name)
            &&& same_provider(p, d.providers[name])
            &&& other != name ==> agree_on(c, d, other)
            &&& d.server == c.server
            &&& d.api_key == c.api_key
            &&& c.default.len() > 0 ==> d.default == c.default
            &&& c.default.len() == 0 ==> d.default == name
        },
        !valid_name(name) ==> added(c, name, p) == Err::<ConfigView, ConfigErrorView>(
            ConfigErrorView::InvalidProviderName(name),
        ),
        valid_name(name) && c.providers.contains_key(name) ==> added(c, name, p) == Err::<
            ConfigView,
            ConfigErrorView,
        >(ConfigErrorView::ProviderAlreadyExists(name)),
{
    addresses_are_cleaned(p.base_url);
}

/// A configuration that was read keeps its providers with their types and keys, and its own key;
/// only white space, and slashes at the ends of addresses, go.
pub proof fn read_as_written(c: ConfigView, name: Seq<char>)
    ensures
        normalized(c).providers.contains_key(name) == c.providers.contains_key(name),
        c.providers.contains_key(name) ==> same_provider(
            c.providers[name],
            normalized(c).providers[name],
        ),
        normalized(c).api_key == c.api_key,
        normalized(c).server == trimmed(c.server),
        normalized(c).default == trimmed(c.default),
{
    if c.providers.contains_key(name) {
        addresses_are_cleaned(c.providers[name].base_url);
        assert(normalized(c).providers[name] == normalized_provider(c.providers[name]));
    }
}

/// Setting the default changes the default alone, and is refused where there is no such provider.
pub proof fn only_the_default_is_set(c: ConfigView, name: Seq<char>)
    ensures
        with_default(c, name) is Ok <==> c.providers.contains_key(name),
        with_default(c, name) matches Ok(d) ==> d.default == name && d.providers == c.providers
            && d.server == c.server && d.api_key == c.api_key,
        !c.providers.contains_key(name) ==> with_default(c, name) == Err::<
            ConfigView,
            ConfigErrorView,
        >(ConfigErrorView::ProviderNotFound(name)),
{
}

/// Removing a provider removes it alone, and is refused where there is no such provider. Another
/// default stays.
pub proof fn only_one_is_removed(c: ConfigView, name: Seq<char>, other: Seq<char>)
    ensures
        removed(c, name) is Ok <==> c.providers.contains_key(name),
        removed(c, name) matches Ok(d) ==> {
            &&& !d.providers.contains_key(name)
            &&& other != name ==> agree_on(c, d, other)
            &&& d.server == c.server
            &&& d.api_key == c.api_key
            &&& c.default != name ==> d.default == c.default
        },
        !c.providers.contains_key(name) ==> removed(c, name) == Err::<ConfigView, ConfigErrorView>(
            ConfigErrorView::ProviderNotFound(name),
        ),
{
}

/// A provider is found by its name, or as the default where no name is given.
pub proof fn providers_are_found_by_name(c: ConfigView, name: Seq<char>)
    ensures
        c.providers.contains_key(name) ==> provider_at(c, Some(name)) == Ok::<
            (Seq<char>, ProviderView),
            ConfigErrorView,
        >((name, c.providers[name])),
        !c.providers.contains_key(name) ==> provider_at(c, Some(name)) == Err::<
            (Seq<char>, ProviderView),
            ConfigErrorView,
        >(ConfigErrorView::ProviderNotFound(name)),
        provider_at(c, None) == provider_at(c, Some(c.default)),
{
}

/// A name is made of letters, digits, hyphens and underscores, at least one of them: no path can
/// be cut at another place for it.
pub proof fn names_fit_into_paths(name: Seq<char>, i: int)
    requires
        valid_name(name),
    ensures
        name.len() > 0,
        0 <= i < name.len() ==> name[i] != '/' && name[i] != '?' && name[i] != '#' && name[i] != '%'
            && name[i] != ' ' && name[i] != '.',
{
}

/// What a configuration is refused for.
pub proof fn refused_configurations(c: ConfigView, name: Seq<char>)
    requires
        listable(c.providers),
    ensures
        valid(c) ==> c.api_key != Some(Seq::<char>::empty()),
        valid(c) && c.providers.contains_key(name) ==> valid_name(name)
            && c.providers.contains_key(c.default),
        c.api_key == Some(Seq::<char>::empty()) ==> validity(c) == Err::<(), ConfigErrorView>(
            ConfigErrorView::EmptyServerApiKey,
        ),
{
    reveal_strlit("");
    assert(""@ =~= Seq::<char>::empty());
    if valid(c) && c.providers.contains_key(name) {
        names_valid(c);
        assert(c.providers != Map::<Seq<char>, ProviderView>::empty());
    }
}

/// Letters, digits, hyphens and underscores make a name.
pub proof fn names_are_accepted(name: Seq<char>)
    requires
        name.len() > 0,
        forall|i: int|
            0 <= i < name.len() ==> ('a' <= #[trigger] name[i] && name[i] <= 'z') || ('A' <= name[i]
                && name[i] <= 'Z') || ('0' <= name[i] && name[i] <= '9') || name[i] == '-' || name[i]
                == '_',
    ensures
        valid_name(name),
{
}

/// Before anything is set the server listens at this machine alone, and nothing is asked for.
pub proof fn nothing_is_set_at_first()
    ensures
        first_config().server == "127.0.0.1:8080"@,
        first_config().api_key is None,
        first_config().default.len() == 0,
        first_config().providers == Map::<Seq<char>, ProviderView>::empty(),
{
}

/// The value of a variable is its text, where it has one.
pub proof fn values_of_variables(env: EnvView, name: Seq<char>, text: Seq<char>)
    ensures
        env.contains_key(name) && env[name] == EnvValueView::Text(text) ==> var_value(env, name)
            == Ok::<Seq<char>, VarErrorView>(text),
        env.contains_key(name) && env[name] == EnvValueView::NotUnicode(text) ==> var_value(env, name)
            == Err::<Seq<char>, VarErrorView>(VarErrorView::NotUnicode(text)),
{
}

/// An opening without an end is left as it is.
pub proof fn open_marks_are_not_expanded(before: Seq<char>, rest: Seq<char>, env: EnvView)
    requires
        free_of(before, '$'),
        free_of(rest, '}'),
    ensures
        expanded(before + "${"@ + rest, env) == Ok::<Seq<char>, ConfigErrorView>(
            before + "${"@ + rest,
        ),
{
    reveal_strlit("${");
    reveal_strlit("}");
    let mark = "${"@;
    let end = "}"@;
    let s = before + mark + rest;
    assert forall|i: int| 0 <= i < before.len() implies !mark.is_prefix_of(#[trigger] s.skip(i)) by {
        assert(s.skip(i).subrange(0, 2)[0] == before[i]);
        assert(mark[0] == '$');
    }
    first_mark(before, mark, rest);
    splits_at_the_first(rest, end);
    if let Some((name, after)) = split_once(rest, end) {
        assert(rest[name.len() as int] == end[0]);
    }
    reveal_with_fuel(expanded, 1);
}

/// A text without a variable is left as it is.
pub proof fn plain_texts_are_not_expanded(s: Seq<char>, env: EnvView)
    requires
        !contains_text(s, "${"@),
    ensures
        expanded(s, env) == Ok::<Seq<char>, ConfigErrorView>(s),
{
    reveal_with_fuel(expanded, 1);
}

/// The first mark in a text that is followed by more is where it was.
proof fn first_mark(before: Seq<char>, mark: Seq<char>, rest: Seq<char>)
    requires
        mark.len() > 0,
        forall|i: int| 0 <= i < before.len() ==> !mark.is_prefix_of(
            #[trigger] (before + mark + rest).skip(i),
        ),
    ensures
        split_once(before + mark + rest, mark) == Some((before, rest)),
    decreases before.len(),
{
    let s = before + mark + rest;
    splits_at_the_first(s, mark);
    assert(s.skip(before.len() as int) =~= mark + rest);
    assert(mark.is_prefix_of(s.skip(before.len() as int)));
    if let Some((a, b)) = split_once(s, mark) {
        if a.len() < before.len() {
            assert(s.skip(a.len() as int) =~= mark + b);
            assert(mark.is_prefix_of(s.skip(a.len() as int)));
        } else if a.len() > before.len() {
            assert(!mark.is_prefix_of(s.skip(before.len() as int)));
        } else {
            assert(a =~= before) by {
                assert forall|i: int| 0 <= i < a.len() implies a[i] == before[i] by {
                    assert(s[i] == a[i]);
                    assert(s[i] == before[i]);
                }
            }
            assert(b =~= rest) by {
                assert(b.len() == rest.len());
                assert forall|i: int| 0 <= i < b.len() implies b[i] == rest[i] by {
                    assert(s[a.len() + mark.len() + i] == b[i]);
                    assert(s[before.len() + mark.len() + i] == rest[i]);
                }
            }
        }
    }
}

/// Whether a text has no character of another.
pub open spec fn free_of(s: Seq<char>, c: char) -> bool {
    forall|i: int| 0 <= i < s.len() ==> #[trigger] s[i] != c
}

/// A variable in a text is replaced by its value, and what stands around it stays; where it is not
/// set, that is the error.
pub proof fn variables_are_replaced(
    before: Seq<char>,
    name: Seq<char>,
    rest: Seq<char>,
    env: EnvView,
)
    requires
        free_of(before, '$'),
        free_of(name, '}'),
    ensures
        ({
            let s = before + "${"@ + (name + "}"@ + rest);
            match var_value(env, name) {
                Ok(value) => match expanded(rest, env) {
                    Ok(more) => expanded(s, env) == Ok::<Seq<char>, ConfigErrorView>(
                        before + value + more,
                    ),
                    Err(e) => expanded(s, env) == Err::<Seq<char>, ConfigErrorView>(e),
                },
                Err(source) => expanded(s, env) == Err::<Seq<char>, ConfigErrorView>(
                    ConfigErrorView::EnvVar { name, source },
                ),
            }
        }),
        !env.contains_key(name) ==> var_value(env, name) == Err::<Seq<char>, VarErrorView>(
            VarErrorView::NotPresent,
        ),
{
    reveal_strlit("${");
    reveal_strlit("}");
    let mark = "${"@;
    let end = "}"@;
    let after = name + end + rest;
    let s = before + mark + after;
    assert forall|i: int| 0 <= i < before.len() implies !mark.is_prefix_of(#[trigger] s.skip(i)) by {
        assert(s.skip(i).subrange(0, 2)[0] == before[i]);
        assert(mark[0] == '$');
    }
    first_mark(before, mark, after);
    assert forall|i: int| 0 <= i < name.len() implies !end.is_prefix_of(
        #[trigger] after.skip(i),
    ) by {
        assert(after.skip(i).subrange(0, 1)[0] == name[i]);
        assert(end[0] == '}');
    }
    first_mark(name, end, rest);
    reveal_with_fuel(expanded, 1);
}

/// A key is what is written, expanded; no key is none.
pub proof fn keys_are_expanded(key: Option<Seq<char>>, env: EnvView, c: ConfigView)
    ensures
        key is None ==> opt_expanded(key, env) == Ok::<Option<Seq<char>>, ConfigErrorView>(None),
        key matches Some(s) ==> match expanded(s, env) {
            Ok(t) => opt_expanded(key, env) == Ok::<Option<Seq<char>>, ConfigErrorView>(Some(t)),
            Err(e) => opt_expanded(key, env) == Err::<Option<Seq<char>>, ConfigErrorView>(e),
        },
        server_key(c, env) matches Ok(Some(k)) ==> k.len() > 0 && opt_expanded(c.api_key, env)
            == Ok::<Option<Seq<char>>, ConfigErrorView>(Some(k)),
        server_key(c, env) == Ok::<Option<Seq<char>>, ConfigErrorView>(None) <==> c.api_key is None,
{
}

/// A file that is not there is a configuration in which nothing is set; any other outcome of
/// reading stays.
pub proof fn missing_files_are_empty(loaded: Result<ConfigView, ConfigErrorView>)
    ensures
        loaded is Ok ==> for_update(loaded) == loaded,
        loaded matches Err(ConfigErrorView::Read { not_found, .. }) && not_found ==> (for_update(
            loaded,
        ) matches Ok(c) && c.providers == Map::<Seq<char>, ProviderView>::empty() && c.api_key
            is None && c.default.len() == 0),
        loaded is Err && !(loaded matches Err(ConfigErrorView::Read { not_found: true, .. }))
            ==> for_update(loaded) == loaded,
{
}

/// The format of a file goes by its extension, in any case of letters.
pub proof fn formats_go_by_extension(extension: Seq<char>)
    ensures
        format_of(Some(extension)) == format_of(Some(lower_text(extension))),
        format_of(Some("yaml"@)) == Ok::<FileFormat, ConfigErrorView>(FileFormat::Yaml),
        format_of(Some("yml"@)) == Ok::<FileFormat, ConfigErrorView>(FileFormat::Yaml),
        format_of(Some("toml"@)) == Ok::<FileFormat, ConfigErrorView>(FileFormat::Toml),
        format_of(Some("json"@)) == Ok::<FileFormat, ConfigErrorView>(FileFormat::Json),
        format_of(Some(extension)) is Ok ==> lower_text(extension) == "yaml"@ || lower_text(
            extension,
        ) == "yml"@ || lower_text(extension) == "toml"@ || lower_text(extension) == "json"@,
        format_of(None) is Err,
{
    reveal_strlit("yaml");
    reveal_strlit("yml");
    reveal_strlit("toml");
    reveal_strlit("json");
    assert(lower_text(lower_text(extension)) =~= lower_text(extension));
    assert(lower_text("yaml"@) =~= "yaml"@);
    assert(lower_text("yml"@) =~= "yml"@);
    assert(lower_text("toml"@) =~= "toml"@);
    assert(lower_text("json"@) =~= "json"@);
    assert("yaml"@[0] != "toml"@[0] && "yaml"@[0] != "json"@[0] && "toml"@[0] != "json"@[0]);
    assert("yml"@.len() == 3 && "yaml"@.len() == 4 && "toml"@.len() == 4 && "json"@.len() == 4);
}

/// Arguments set what they name and nothing else.
pub proof fn arguments_set_what_they_name(
    c: ConfigView,
    server: Option<Seq<char>>,
    default: Option<Seq<char>>,
)
    ensures
        with_arguments(c, server, default) is Ok <==> (default matches Some(name)
            ==> c.providers.contains_key(name)),
        with_arguments(c, server, default) matches Ok(d) ==> {
            &&& d.providers == c.providers
            &&& d.api_key == c.api_key
            &&& d.server == match server {
                Some(address) => address,
                None => c.server,
            }
            &&& d.default == match default {
                Some(name) => name,
                None => c.default,
            }
        },
{
}

/// A file that is named is taken; else the first that is there, the local ones before those at
/// home; else the first name at home.
pub proof fn files_are_looked_for_in_order(
    explicit: Seq<char>,
    local: Seq<bool>,
    home: Seq<bool>,
    n: int,
)
    requires
        local.len() == 4,
        home.len() == 4,
        0 <= n < 4,
    ensures
        path_chosen(Some(explicit), local, home) == ConfigPathView::Explicit(explicit),
        local[n] && (forall|i: int| 0 <= i < n ==> !#[trigger] local[i]) ==> path_chosen(
            None,
            local,
            home,
        ) == ConfigPathView::Local(seq!["config.toml"@, "config.yaml"@, "config.yml"@, "config.json"@][n]),
        (forall|i: int| 0 <= i < 4 ==> !#[trigger] local[i]) && home[n] && (forall|i: int|
            0 <= i < n ==> !#[trigger] home[i]) ==> path_chosen(None, local, home)
            == ConfigPathView::Home(seq!["llmapi.yaml"@, "llmapi.toml"@, "llmapi.yml"@, "llmapi.json"@][n]),
        (forall|i: int| 0 <= i < 4 ==> !#[trigger] local[i]) && (forall|i: int|
            0 <= i < 4 ==> !#[trigger] home[i]) ==> path_chosen(None, local, home)
            == ConfigPathView::Home("llmapi.yaml"@),
{
    reveal_with_fuel(first_there, 5);
    assert(local_names().len() == 4 && home_names().len() == 4);
    assert(n == 0 || n == 1 || n == 2 || n == 3);
    let _ = (local[0], local[1], local[2], local[3], home[0], home[1], home[2], home[3]);
}

/// A key of the server that is empty is none that can be used.
pub proof fn empty_keys_are_refused(c: ConfigView, env: EnvView)
    ensures
        opt_expanded(c.api_key, env) == Ok::<Option<Seq<char>>, ConfigErrorView>(
            Some(Seq::<char>::empty()),
        ) ==> server_key(c, env) == Err::<Option<Seq<char>>, ConfigErrorView>(
            ConfigErrorView::EmptyServerApiKey,
        ),
        opt_expanded(c.api_key, env) matches Err(e) ==> server_key(c, env) == Err::<
            Option<Seq<char>>,
            ConfigErrorView,
        >(e),
{
}

/// A configuration can be used where its key is not empty, its providers have names, and its
/// default is one of them; without providers there need be no default.
pub proof fn what_can_be_used(c: ConfigView)
    requires
        listable(c.providers),
    ensures
        valid(c) <==> c.api_key != Some(Seq::<char>::empty()) && (forall|k: Seq<char>| #[trigger]
            c.providers.contains_key(k) ==> valid_name(k)) && (c.providers.contains_key(c.default)
            || c.providers == Map::<Seq<char>, ProviderView>::empty() && c.default.len() == 0),
{
    reveal_strlit("");
    assert(""@ =~= Seq::<char>::empty());
    if valid(c) {
        names_valid(c);
    }
    if c.api_key != Some(Seq::<char>::empty()) && (forall|k: Seq<char>| #[trigger]
        c.providers.contains_key(k) ==> valid_name(k)) && (c.providers.contains_key(c.default)
        || c.providers == Map::<Seq<char>, ProviderView>::empty() && c.default.len() == 0) {
        valid_when(c);
    }
}

} // verus!
