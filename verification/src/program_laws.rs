//! What holds of the commands, of a running server and of the service.

use crate::adapters::part_laws::says;
use crate::cmd::{
    command_change, line_text, provider_line, provider_lines, provider_list, Command, SetCommand,
};
use crate::config::{provider_text, ConfigView, Provider, ProviderView};
use crate::config_laws::{added_as_given, same_provider};
use crate::daemon::{
    argument_line, argument_lines, call_failed, domain_of, escaped, escaped_char, label_text, plist,
    plist_text, restart_plan, service_arguments, service_of, service_state, start_plan,
    status_shown, xml_text, PlanView, ServiceView,
};
use crate::named::names_of;
use crate::server::{now_listening, reread, shown_config, unread, Reload, ReloaderView};
use crate::text::{contains_text, joined, trimmed, without_end};
use vstd::prelude::*;

verus! {

/// The names of the types of providers.
pub proof fn names_of_types(name: Seq<char>)
    ensures
        provider_text(Provider::OpenAiChat) == "openai-chat"@,
        provider_text(Provider::OpenAiResponses) == "openai-responses"@,
        provider_text(Provider::Anthropic) == "anthropic"@,
{
}

/// A command changes what it is for: it adds the provider that it describes with the key that was
/// read, removes the one that it names, or makes it the default.
pub proof fn commands_change_what_they_name(c: ConfigView, command: Command, key: Option<Seq<char>>)
    ensures
        command_change(c, command, key) matches Ok(d) ==> match command {
            Command::Add(args) => d.providers.contains_key(args.name@) && same_provider(
                ProviderView {
                    provider_type: args.provider_type,
                    base_url: args.baseurl@,
                    api_key: key,
                },
                d.providers[args.name@],
            ),
            Command::Remove { name } => !d.providers.contains_key(name@) && d.providers
                == c.providers.remove(name@),
            Command::Settings(args) => match args.command {
                SetCommand::Default { provider } => d.default == provider@ && d.providers
                    == c.providers,
            },
            _ => d == c,
        },
{
    if let Command::Add(args) = command {
        added_as_given(
            c,
            args.name@,
            ProviderView {
                provider_type: args.provider_type,
                base_url: args.baseurl@,
                api_key: key,
            },
            args.name@,
        );
    }
}

/// A line that was typed is taken without the end of the line.
pub proof fn lines_are_taken_whole(line: Seq<char>)
    requires
        line.len() > 0 ==> line.last() != '\n' && line.last() != '\r',
    ensures
        line_text(line) == line,
        line_text(line.push('\n')) == line,
        line_text(line.push('\r').push('\n')) == line,
{
    let a = line.push('\n');
    let b = line.push('\r');
    let c = b.push('\n');
    reveal_with_fuel(without_end, 3);
    assert(a.drop_last() =~= line);
    assert(b.drop_last() =~= line);
    assert(c.drop_last() =~= b);
}

/// The list of the providers has a line for each, in order, with its name, type and address and
/// the mark of the default.
pub proof fn every_provider_is_listed(c: ConfigView, names: Seq<Seq<char>>, name: Seq<char>)
    ensures
        provider_lines(c, Seq::empty()) == Seq::<char>::empty(),
        provider_lines(c, names.push(name)) == provider_lines(c, names) + provider_line(c, name),
        provider_line(c, name) == name + "\t"@ + provider_text(c.providers[name].provider_type)
            + "\t"@ + c.providers[name].base_url + "\t"@ + (if name == c.default {
            "*"@
        } else {
            ""@
        }) + "\n"@,
        provider_list(c) == "NAME\tTYPE\tBASEURL\tDEFAULT\n"@ + provider_lines(
            c,
            names_of(c.providers),
        ),
{
    assert(names.push(name).drop_last() =~= names);
}

/// What a server shows of its configuration: the default, and every provider with its type and
/// address; of a key only that there is one.
pub proof fn configurations_are_shown(c: ConfigView, name: Seq<char>)
    ensures
        says(shown_config(c), "default"@, c.default),
        shown_config(c).at("providers"@).field(name) is Some <==> c.providers.contains_key(name),
        c.providers.contains_key(name) ==> {
            let shown = shown_config(c).at("providers"@).at(name);
            let p = c.providers[name];
            &&& says(shown, "type"@, provider_text(p.provider_type))
            &&& says(shown, "baseurl"@, p.base_url)
            &&& p.api_key is Some ==> says(shown, "apikey"@, "***"@)
            &&& p.api_key is None ==> shown.field("apikey"@) is None
        },
{
    reveal_strlit("default");
    reveal_strlit("providers");
    reveal_strlit("type");
    reveal_strlit("baseurl");
    reveal_strlit("apikey");
    assert("default"@.len() == 7 && "providers"@.len() == 9);
    assert("type"@.len() == 4 && "baseurl"@.len() == 7 && "apikey"@.len() == 6);
}

/// A file that was read again is the configuration from now on, with what was set on the command
/// line, at the address where the server listens.
pub proof fn files_are_reread(r: ReloaderView, body: Seq<char>, c: ConfigView)
    ensures
        r.default_override is None && r.server_override is None ==> {
            let (after, told) = reread(r, body, Ok(c));
            &&& after.config.providers == c.providers
            &&& after.config.api_key == c.api_key
            &&& after.config.default == c.default
            &&& after.config.server == r.listening
            &&& after.wanted == c.server
            &&& after.last_error is None
            &&& after.last_body == Some(body)
            &&& told is Changed <==> after.config != r.config
            &&& told is Changed || told is Unchanged
        },
        r.default_override matches Some(name) ==> (!c.providers.contains_key(name) ==> reread(
            r,
            body,
            Ok(c),
        ).1 is Failed),
        r.default_override matches Some(name) ==> (c.providers.contains_key(name) ==> reread(
            r,
            body,
            Ok(c),
        ).0.config.default == name && reread(r, body, Ok(c)).0.config.providers == c.providers
            && reread(r, body, Ok(c)).0.config.api_key == c.api_key),
{
}

/// A failure is told once, until another one comes or a file is read.
pub proof fn failures_are_told_once(
    r: ReloaderView,
    message: Seq<char>,
    other: Seq<char>,
    body: Seq<char>,
    c: ConfigView,
)
    requires
        r.default_override is None,
    ensures
        r.last_error is None ==> unread(r, message).1 == (Reload::Failed { warn: true }),
        unread(unread(r, message).0, message).1 == (Reload::Failed { warn: false }),
        other != message ==> unread(unread(r, message).0, other).1 == (Reload::Failed { warn: true }),
        unread(reread(unread(r, message).0, body, Ok(c)).0, message).1 == (Reload::Failed {
            warn: true,
        }),
{
}

/// A server that listens elsewhere keeps its providers and its key.
pub proof fn listening_changes_the_address_alone(r: ReloaderView, address: Seq<char>)
    ensures
        ({
            let after = now_listening(r, address);
            &&& after.listening == address
            &&& after.config.server == address
            &&& after.config.providers == r.config.providers
            &&& after.config.api_key == r.config.api_key
            &&& after.config.default == r.config.default
        }),
{
}

/// A text is escaped character by character.
pub proof fn escaped_in_order(s: Seq<char>, c: char)
    ensures
        escaped(Seq::empty()) == Seq::<char>::empty(),
        escaped(s.push(c)) == escaped(s) + escaped_char(c),
        c != '&' && c != '<' && c != '>' && c != '"' && c != '\'' ==> escaped_char(c) == seq![c],
        escaped_char('&') == "&amp;"@,
        escaped_char('<') == "&lt;"@,
        escaped_char('>') == "&gt;"@,
        escaped_char('"') == "&quot;"@,
        escaped_char('\'') == "&apos;"@,
{
    assert(s.push(c).drop_last() =~= s);
}

/// A service is started with its program and all its arguments, in order.
pub proof fn every_argument_is_written(args: Seq<Seq<char>>, arg: Seq<char>)
    ensures
        argument_lines(Seq::empty()) == Some(Seq::<char>::empty()),
        argument_lines(args.push(arg)) matches Some(all) ==> (argument_lines(args) matches Some(
            before,
        ) && (xml_text(arg) matches Some(text) && all == before + "        <string>"@ + text
            + "</string>\n"@)),
        service_arguments(Seq::empty()) == seq!["server"@],
        args.len() > 0 ==> service_arguments(args) == args,
{
    assert(args.push(arg).drop_last() =~= args);
    if let (Some(before), Some(text)) = (argument_lines(args), xml_text(arg)) {
        assert(before + argument_line(text) =~= before + "        <string>"@ + text
            + "</string>\n"@);
    }
}

/// Whether a text contains another.
pub open spec fn holds(s: Seq<char>, part: Seq<char>) -> bool {
    exists|before: Seq<char>, after: Seq<char>| s == #[trigger] (before + part + after)
}

/// The description of a service holds what it is to run, in which directory, and where its output
/// goes.
pub proof fn services_are_described(
    executable: Seq<char>,
    workdir: Seq<char>,
    args: Seq<Seq<char>>,
    out_log: Seq<char>,
    err_log: Seq<char>,
)
    ensures
        plist(executable, workdir, args, out_log, err_log) matches Some(text) ==> {
            &&& argument_lines(seq![executable] + args) matches Some(lines) && holds(
                text,
                "<key>ProgramArguments</key>\n    <array>\n"@ + lines + "    </array>\n"@,
            )
            &&& xml_text(workdir) matches Some(workdir) && holds(
                text,
                "<key>WorkingDirectory</key>\n    <string>"@ + workdir + "</string>\n"@,
            )
            &&& xml_text(out_log) matches Some(out_log) && holds(
                text,
                "<key>StandardOutPath</key>\n    <string>"@ + out_log + "</string>\n"@,
            )
            &&& xml_text(err_log) matches Some(err_log) && holds(
                text,
                "<key>StandardErrorPath</key>\n    <string>"@ + err_log + "</string>\n"@,
            )
            &&& holds(text, "<key>Label</key>\n    <string>"@ + label_text() + "</string>\n"@)
        },
{
    if let Some(text) = plist(executable, workdir, args, out_log, err_log) {
        let lines = argument_lines(seq![executable] + args)->0;
        description_holds(lines, xml_text(workdir)->0, xml_text(out_log)->0, xml_text(err_log)->0);
    }
}

proof fn description_holds(
    lines: Seq<char>,
    workdir: Seq<char>,
    out_log: Seq<char>,
    err_log: Seq<char>,
)
    ensures
        ({
            let text = plist_text(lines, workdir, out_log, err_log);
            &&& holds(
                text,
                "<key>ProgramArguments</key>\n    <array>\n"@ + lines + "    </array>\n"@,
            )
            &&& holds(
                text,
                "<key>WorkingDirectory</key>\n    <string>"@ + workdir + "</string>\n"@,
            )
            &&& holds(
                text,
                "<key>StandardOutPath</key>\n    <string>"@ + out_log + "</string>\n"@,
            )
            &&& holds(
                text,
                "<key>StandardErrorPath</key>\n    <string>"@ + err_log + "</string>\n"@,
            )
            &&& holds(text, "<key>Label</key>\n    <string>"@ + label_text() + "</string>\n"@)
        }),
{
    let head = "<?xml version=\"1.0\" encoding=\"UTF-8\"?>\n"@
        + "<!DOCTYPE plist PUBLIC \"-//Apple//DTD PLIST 1.0//EN\" \"http://www.apple.com/DTDs/PropertyList-1.0.dtd\">\n"@
        + "<plist version=\"1.0\">\n<dict>\n"@;
    let close = "</string>\n"@;
    let label = "<key>Label</key>\n    <string>"@ + label_text() + close;
    let program = "<key>ProgramArguments</key>\n    <array>\n"@ + lines + "    </array>\n"@;
    let place = "<key>WorkingDirectory</key>\n    <string>"@ + workdir + close;
    let path = "<key>EnvironmentVariables</key>\n    <dict>\n        <key>PATH</key>\n        <string>/opt/homebrew/bin:/usr/local/bin:/usr/bin:/bin:/usr/sbin:/sbin</string>\n    </dict>\n"@;
    let load = "<key>RunAtLoad</key>\n    <true/>\n"@;
    let alive = "<key>KeepAlive</key>\n    <true/>\n"@;
    let out = "<key>StandardOutPath</key>\n    <string>"@ + out_log + close;
    let err = "<key>StandardErrorPath</key>\n    <string>"@ + err_log + close;
    let tail = "</dict>\n</plist>\n"@;
    let parts = seq![label, program, place, out, err];
    let t = appended(head, "<key>Label</key>\n    <string>"@, label_text(), close, parts, 0);
    let t = appended(
        t,
        "<key>ProgramArguments</key>\n    <array>\n"@,
        lines,
        "    </array>\n"@,
        parts,
        1,
    );
    let t = appended(
        t,
        "<key>WorkingDirectory</key>\n    <string>"@,
        workdir,
        close,
        parts,
        2,
    );
    held(t, path, parts, 3);
    held(t + path, load, parts, 3);
    held(t + path + load, alive, parts, 3);
    let t = t + path + load + alive;
    let t = appended(t, "<key>StandardOutPath</key>\n    <string>"@, out_log, close, parts, 3);
    let t = appended(t, "<key>StandardErrorPath</key>\n    <string>"@, err_log, close, parts, 4);
    held(t, tail, parts, 5);
    assert(plist_text(lines, workdir, out_log, err_log) == t + tail);
    assert(holds(t + tail, parts[0]) && holds(t + tail, parts[1]) && holds(t + tail, parts[2])
        && holds(t + tail, parts[3]) && holds(t + tail, parts[4]));
}

spec fn first_hold(t: Seq<char>, parts: Seq<Seq<char>>, n: int) -> bool {
    forall|i: int| 0 <= i < n ==> holds(t, #[trigger] parts[i])
}

proof fn held(t: Seq<char>, more: Seq<char>, parts: Seq<Seq<char>>, n: int)
    requires
        first_hold(t, parts, n),
        n <= parts.len(),
    ensures
        first_hold(t + more, parts, n),
{
    assert forall|i: int| 0 <= i < n implies holds(t + more, #[trigger] parts[i]) by {
        assert(holds(t, parts[i]));
        let (before, after) = choose|before: Seq<char>, after: Seq<char>|
            t == #[trigger] (before + parts[i] + after);
        assert(t + more =~= before + parts[i] + (after + more));
    }
}

proof fn appended(
    t: Seq<char>,
    key: Seq<char>,
    text: Seq<char>,
    close: Seq<char>,
    parts: Seq<Seq<char>>,
    n: int,
) -> (after: Seq<char>)
    requires
        first_hold(t, parts, n),
        0 <= n < parts.len(),
        parts[n] == key + text + close,
    ensures
        after == t + key + text + close,
        first_hold(after, parts, n + 1),
{
    held(t, key, parts, n);
    held(t + key, text, parts, n);
    held(t + key + text, close, parts, n);
    let after = t + key + text + close;
    assert(after =~= t + parts[n] + Seq::<char>::empty());
    assert(holds(after, parts[n]));
    after
}

/// What the manager of services is called with: a service that it has is started again, one that
/// it does not have is handed to it; to restart one that it has, it is taken from it first.
pub proof fn services_are_managed(
    text: Seq<char>,
    message: Seq<char>,
    target: Seq<char>,
    domain: Seq<char>,
    file: Seq<char>,
)
    ensures
        start_plan(ServiceView::Loaded(text), target, domain, file) == PlanView::Ok(
            seq![seq!["kickstart"@, "-k"@, target]],
        ),
        start_plan(ServiceView::Missing, target, domain, file) == PlanView::Ok(
            seq![seq!["bootstrap"@, domain, file]],
        ),
        start_plan(ServiceView::Failed(message), target, domain, file) == PlanView::Err(message),
        restart_plan(ServiceView::Loaded(text), target, domain, file) == PlanView::Ok(
            seq![seq!["bootout"@, target], seq!["bootstrap"@, domain, file]],
        ),
        restart_plan(ServiceView::Missing, target, domain, file) == start_plan(
            ServiceView::Missing,
            target,
            domain,
            file,
        ),
        restart_plan(ServiceView::Failed(message), target, domain, file) == PlanView::Err(message),
        status_shown(ServiceView::Loaded(text), true) == Ok::<Seq<char>, Seq<char>>(text),
        status_shown(ServiceView::Failed(message), true) == Err::<Seq<char>, Seq<char>>(message),
        status_shown(ServiceView::Missing, true) == Ok::<Seq<char>, Seq<char>>("not loaded\n"@),
        status_shown(ServiceView::Missing, false) == Ok::<Seq<char>, Seq<char>>("not installed\n"@),
        service_state(true, text, message) == ServiceView::Loaded(text),
        !contains_text(message, "Could not find service \""@ + label_text() + "\" in domain"@)
            ==> service_state(false, text, message) == ServiceView::Failed(
            "launchctl print failed: "@ + trimmed(message),
        ),
        contains_text(message, "Could not find service \""@ + label_text() + "\" in domain"@)
            ==> service_state(false, text, message) is Missing,
        service_of(domain) == domain + "/"@ + label_text(),
        domain_of(text) == "gui/"@ + trimmed(text),
{
}

/// What a call that failed is told as: the call, and what was said.
pub proof fn failed_calls_are_told(args: Seq<Seq<char>>, stderr: Seq<char>)
    ensures
        call_failed(args, stderr) == "launchctl "@ + joined(args, " "@) + " failed: "@ + trimmed(
            stderr,
        ),
{
}

} // verus!
