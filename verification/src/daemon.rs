//! The service of macOS: its description, and what is asked of `launchctl`.

use crate::text::{cat, cat3, chars, contains, contains_text, join, joined, strings, trim, trimmed};
use vstd::prelude::*;
use vstd::utf8::{decode_utf8, valid_utf8};

verus! {

/// What `String::from_utf8_lossy` reads from bytes.
pub uninterp spec fn lossy_text(bytes: Seq<u8>) -> Seq<char>;

/// `String::from_utf8_lossy` of std: the text of bytes that are UTF-8; of others, with replacement
/// characters for what is none.
#[verifier::external_body]
fn lossy(bytes: &[u8]) -> (r: String)
    ensures
        r@ == lossy_text(bytes@),
        valid_utf8(bytes@) ==> r@ == decode_utf8(bytes@),
{
    String::from_utf8_lossy(bytes).into_owned()
}

/// The name of the service.
pub open spec fn label_text() -> Seq<char> {
    "com.virzz.enyo.llmapi"@
}

/// The name of the service.
pub fn label() -> (r: &'static str)
    ensures
        r@ == label_text(),
{
    "com.virzz.enyo.llmapi"
}

/// Whether a character may stand in the text of an XML document.
pub open spec fn xml_char(c: char) -> bool {
    c >= ' ' || c == '\t' || c == '\n' || c == '\r'
}

/// What stands for a character in the text of an XML document.
pub open spec fn escaped_char(c: char) -> Seq<char> {
    if c == '&' {
        "&amp;"@
    } else if c == '<' {
        "&lt;"@
    } else if c == '>' {
        "&gt;"@
    } else if c == '"' {
        "&quot;"@
    } else if c == '\'' {
        "&apos;"@
    } else {
        seq![c]
    }
}

/// What stands for a text in an XML document.
pub open spec fn escaped(s: Seq<char>) -> Seq<char>
    decreases s.len(),
{
    if s.len() == 0 {
        Seq::empty()
    } else {
        escaped(s.drop_last()) + escaped_char(s.last())
    }
}

/// What stands for a text in an XML document, where it may stand there.
pub open spec fn xml_text(s: Seq<char>) -> Option<Seq<char>> {
    if forall|i: int| 0 <= i < s.len() ==> xml_char(#[trigger] s[i]) {
        Some(escaped(s))
    } else {
        None
    }
}

/// What stands for a text in an XML document, where it may stand there.
pub fn xml(value: &str) -> (r: Option<String>)
    ensures
        crate::text::opt_text(r) == xml_text(value@),
{
    let list = chars(value);
    let ghost s = value@;
    let mut out = String::new();
    let mut i: usize = 0;
    assert(out@ =~= escaped(s.take(0)));
    while i < list.len()
        invariant
            list@ == s,
            s == value@,
            i <= s.len(),
            forall|j: int| 0 <= j < i ==> xml_char(#[trigger] s[j]),
            out@ == escaped(s.take(i as int)),
        decreases s.len() - i,
    {
        let c = list[i];
        assert(s.take(i + 1).drop_last() =~= s.take(i as int));
        if c < ' ' && c != '\t' && c != '\n' && c != '\r' {
            assert(!xml_char(s[i as int]));
            return None;
        }
        let ghost before = out@;
        if c == '&' {
            out.push_str("&amp;");
        } else if c == '<' {
            out.push_str("&lt;");
        } else if c == '>' {
            out.push_str("&gt;");
        } else if c == '"' {
            out.push_str("&quot;");
        } else if c == '\'' {
            out.push_str("&apos;");
        } else {
            out.push(c);
        }
        assert(out@ =~= before + escaped_char(c));
        i = i + 1;
    }
    assert(s.take(i as int) =~= s);
    Some(out)
}

/// A line with a text of the description.
pub open spec fn argument_line(text: Seq<char>) -> Seq<char> {
    "        <string>"@ + text + "</string>\n"@
}

/// The lines with the arguments of the service.
pub open spec fn argument_lines(args: Seq<Seq<char>>) -> Option<Seq<char>>
    decreases args.len(),
{
    if args.len() == 0 {
        Some(Seq::empty())
    } else {
        match (argument_lines(args.drop_last()), xml_text(args.last())) {
            (Some(lines), Some(text)) => Some(lines + argument_line(text)),
            _ => None,
        }
    }
}

/// The description of the service, once each text stands in it.
pub open spec fn plist_text(
    arguments: Seq<char>,
    workdir: Seq<char>,
    out_log: Seq<char>,
    err_log: Seq<char>,
) -> Seq<char> {
    "<?xml version=\"1.0\" encoding=\"UTF-8\"?>\n"@
        + "<!DOCTYPE plist PUBLIC \"-//Apple//DTD PLIST 1.0//EN\" \"http://www.apple.com/DTDs/PropertyList-1.0.dtd\">\n"@
        + "<plist version=\"1.0\">\n<dict>\n"@ + "<key>Label</key>\n    <string>"@ + label_text()
        + "</string>\n"@ + "<key>ProgramArguments</key>\n    <array>\n"@ + arguments
        + "    </array>\n"@ + "<key>WorkingDirectory</key>\n    <string>"@ + workdir
        + "</string>\n"@
        + "<key>EnvironmentVariables</key>\n    <dict>\n        <key>PATH</key>\n        <string>/opt/homebrew/bin:/usr/local/bin:/usr/bin:/bin:/usr/sbin:/sbin</string>\n    </dict>\n"@
        + "<key>RunAtLoad</key>\n    <true/>\n"@ + "<key>KeepAlive</key>\n    <true/>\n"@
        + "<key>StandardOutPath</key>\n    <string>"@ + out_log + "</string>\n"@
        + "<key>StandardErrorPath</key>\n    <string>"@ + err_log + "</string>\n"@
        + "</dict>\n</plist>\n"@
}

/// The description of the service, where each text may stand in it.
pub open spec fn plist(
    executable: Seq<char>,
    workdir: Seq<char>,
    args: Seq<Seq<char>>,
    out_log: Seq<char>,
    err_log: Seq<char>,
) -> Option<Seq<char>> {
    match (
        argument_lines(seq![executable] + args),
        xml_text(workdir),
        xml_text(out_log),
        xml_text(err_log),
    ) {
        (Some(arguments), Some(workdir), Some(out_log), Some(err_log)) => Some(
            plist_text(arguments, workdir, out_log, err_log),
        ),
        _ => None,
    }
}

proof fn argument_lines_none(args: Seq<Seq<char>>, n: int)
    requires
        0 <= n <= args.len(),
        argument_lines(args.take(n)) is None,
    ensures
        argument_lines(args) is None,
    decreases args.len() - n,
{
    if n < args.len() {
        assert(args.take(n + 1).drop_last() =~= args.take(n));
        argument_lines_none(args, n + 1);
    } else {
        assert(args.take(n) =~= args);
    }
}

fn render_arguments(executable: &str, args: &Vec<String>) -> (r: Option<String>)
    ensures
        crate::text::opt_text(r) == argument_lines(seq![executable@] + strings(args@)),
{
    let ghost all = seq![executable@] + strings(args@);
    let mut lines = match xml(executable) {
        Some(text) => {
            let line = cat3("        <string>", text.as_str(), "</string>\n");
            proof {
                assert(all.take(1).drop_last() =~= Seq::empty());
                assert(all.take(1).last() == executable@);
                assert(argument_lines(Seq::empty()) == Some(Seq::<char>::empty()));
                assert(line@ =~= Seq::<char>::empty() + argument_line(text@));
                assert(argument_lines(all.take(1)) == Some(line@));
            }
            line
        },
        None => {
            proof {
                assert(all.take(1).last() == executable@);
                argument_lines_none(all, 1);
            }
            return None;
        },
    };
    let mut i: usize = 0;
    while i < args.len()
        invariant
            all == seq![executable@] + strings(args@),
            i <= args@.len(),
            argument_lines(all.take(i + 1)) == Some(lines@),
        decreases args@.len() - i,
    {
        proof {
            assert(all.take(i + 2).drop_last() =~= all.take(i + 1));
            assert(all.take(i + 2).last() == args@[i as int]@);
        }
        match xml(args[i].as_str()) {
            Some(text) => {
                let ghost before = lines@;
                lines.push_str("        <string>");
                lines.push_str(text.as_str());
                lines.push_str("</string>\n");
                assert(lines@ =~= before + argument_line(text@));
            },
            None => {
                proof {
                    argument_lines_none(all, i + 2);
                }
                return None;
            },
        }
        i = i + 1;
    }
    assert(all.take(i + 1) =~= all);
    Some(lines)
}

/// The description of the service; nothing where a text may not stand in it.
pub fn render_plist(
    executable: &str,
    workdir: &str,
    args: &Vec<String>,
    out_log: &str,
    err_log: &str,
) -> (r: Option<String>)
    ensures
        crate::text::opt_text(r) == plist(
            executable@,
            workdir@,
            strings(args@),
            out_log@,
            err_log@,
        ),
{
    let arguments = match render_arguments(executable, args) {
        Some(arguments) => arguments,
        None => {
            return None;
        },
    };
    let workdir = match xml(workdir) {
        Some(text) => text,
        None => {
            return None;
        },
    };
    let out_log = match xml(out_log) {
        Some(text) => text,
        None => {
            return None;
        },
    };
    let err_log = match xml(err_log) {
        Some(text) => text,
        None => {
            return None;
        },
    };
    let mut out = "<?xml version=\"1.0\" encoding=\"UTF-8\"?>\n".to_owned();
    out.push_str(
        "<!DOCTYPE plist PUBLIC \"-//Apple//DTD PLIST 1.0//EN\" \"http://www.apple.com/DTDs/PropertyList-1.0.dtd\">\n",
    );
    out.push_str("<plist version=\"1.0\">\n<dict>\n");
    out.push_str("<key>Label</key>\n    <string>");
    out.push_str(label());
    out.push_str("</string>\n");
    out.push_str("<key>ProgramArguments</key>\n    <array>\n");
    out.push_str(arguments.as_str());
    out.push_str("    </array>\n");
    out.push_str("<key>WorkingDirectory</key>\n    <string>");
    out.push_str(workdir.as_str());
    out.push_str("</string>\n");
    out.push_str(
        "<key>EnvironmentVariables</key>\n    <dict>\n        <key>PATH</key>\n        <string>/opt/homebrew/bin:/usr/local/bin:/usr/bin:/bin:/usr/sbin:/sbin</string>\n    </dict>\n",
    );
    out.push_str("<key>RunAtLoad</key>\n    <true/>\n");
    out.push_str("<key>KeepAlive</key>\n    <true/>\n");
    out.push_str("<key>StandardOutPath</key>\n    <string>");
    out.push_str(out_log.as_str());
    out.push_str("</string>\n");
    out.push_str("<key>StandardErrorPath</key>\n    <string>");
    out.push_str(err_log.as_str());
    out.push_str("</string>\n");
    out.push_str("</dict>\n</plist>\n");
    Some(out)
}

/// The words for a text that may not stand in the description.
pub fn invalid_text() -> (r: &'static str)
    ensures
        r@ == "LaunchAgent value contains an invalid XML character"@,
{
    "LaunchAgent value contains an invalid XML character"
}

/// The arguments of the service: `server`, where none are given.
pub open spec fn service_arguments(args: Seq<Seq<char>>) -> Seq<Seq<char>> {
    if args.len() == 0 {
        seq!["server"@]
    } else {
        args
    }
}

/// The arguments of the service.
pub fn arguments_or_default(args: Vec<String>) -> (r: Vec<String>)
    ensures
        strings(r@) == service_arguments(strings(args@)),
{
    if args.len() > 0 {
        return args;
    }
    let mut out: Vec<String> = Vec::new();
    out.push("server".to_owned());
    assert(strings(out@) =~= seq!["server"@]);
    out
}

/// Whether what `launchctl` says of an error is that there is no such service.
pub open spec fn says_not_found(stderr: Seq<char>) -> bool {
    contains_text(stderr, "Could not find service \""@ + label_text() + "\" in domain"@)
}

/// Whether the text of an error is that there is no such service.
pub fn tells_not_found(stderr: &str) -> (r: bool)
    ensures
        r == says_not_found(stderr@),
{
    let words = cat3("Could not find service \"", label(), "\" in domain");
    contains(stderr, words.as_str())
}

/// Whether what `launchctl` says of an error is that there is no such service.
pub fn service_not_found(stderr: &[u8]) -> (r: bool)
    ensures
        r == says_not_found(lossy_text(stderr@)),
        valid_utf8(stderr@) ==> r == says_not_found(decode_utf8(stderr@)),
{
    tells_not_found(lossy(stderr).as_str())
}

/// What `launchctl print` says of the service.
#[derive(Debug, PartialEq)]
pub enum Service {
    /// It is loaded; this is what is said of it.
    Loaded(String),
    /// There is none.
    Missing,
    /// `launchctl` failed.
    Failed(String),
}

/// What a service stands for.
#[verifier::ext_equal]
pub enum ServiceView {
    Loaded(Seq<char>),
    Missing,
    Failed(Seq<char>),
}

impl View for Service {
    type V = ServiceView;

    open spec fn view(&self) -> ServiceView {
        match self {
            Service::Loaded(text) => ServiceView::Loaded(text@),
            Service::Missing => ServiceView::Missing,
            Service::Failed(message) => ServiceView::Failed(message@),
        }
    }
}

/// What `launchctl print` says of the service.
pub open spec fn service_state(success: bool, stdout: Seq<char>, stderr: Seq<char>) -> ServiceView {
    if success {
        ServiceView::Loaded(stdout)
    } else if says_not_found(stderr) {
        ServiceView::Missing
    } else {
        ServiceView::Failed("launchctl print failed: "@ + trimmed(stderr))
    }
}

/// What the texts of `launchctl print` say of the service.
pub fn service_told(success: bool, stdout: String, stderr: &str) -> (r: Service)
    ensures
        r@ == service_state(success, stdout@, stderr@),
{
    if success {
        Service::Loaded(stdout)
    } else if tells_not_found(stderr) {
        Service::Missing
    } else {
        Service::Failed(cat("launchctl print failed: ", trim(stderr).as_str()))
    }
}

/// What `launchctl print` says of the service.
pub fn read_service(success: bool, stdout: &[u8], stderr: &[u8]) -> (r: Service)
    ensures
        r@ == service_state(success, lossy_text(stdout@), lossy_text(stderr@)),
        success && valid_utf8(stdout@) ==> r@ == ServiceView::Loaded(decode_utf8(stdout@)),
        !success && valid_utf8(stderr@) ==> r@ == service_state(
            false,
            Seq::empty(),
            decode_utf8(stderr@),
        ),
{
    service_told(success, lossy(stdout), lossy(stderr).as_str())
}

/// What is asked of `launchctl`, one after the other, or why nothing is.
pub type PlanView = Result<Seq<Seq<Seq<char>>>, Seq<char>>;

/// The arguments of each call.
pub open spec fn calls(s: Seq<Vec<String>>) -> Seq<Seq<Seq<char>>> {
    Seq::new(s.len(), |i: int| strings(s[i]@))
}

/// What a plan stands for.
pub open spec fn plan_view(r: Result<Vec<Vec<String>>, String>) -> PlanView {
    match r {
        Ok(list) => Ok(calls(list@)),
        Err(message) => Err(message@),
    }
}

/// A call that loads the service.
pub open spec fn bootstrap(domain: Seq<char>, plist: Seq<char>) -> Seq<Seq<char>> {
    seq!["bootstrap"@, domain, plist]
}

/// What is asked to start the service: to start it again, where it is loaded, or else to load it.
pub open spec fn start_plan(
    service: ServiceView,
    target: Seq<char>,
    domain: Seq<char>,
    plist: Seq<char>,
) -> PlanView {
    match service {
        ServiceView::Loaded(_) => Ok(seq![seq!["kickstart"@, "-k"@, target]]),
        ServiceView::Missing => Ok(seq![bootstrap(domain, plist)]),
        ServiceView::Failed(message) => Err(message),
    }
}

/// What is asked to restart the service: to unload it, where it is loaded, and to load it.
pub open spec fn restart_plan(
    service: ServiceView,
    target: Seq<char>,
    domain: Seq<char>,
    plist: Seq<char>,
) -> PlanView {
    match service {
        ServiceView::Loaded(_) => Ok(seq![seq!["bootout"@, target], bootstrap(domain, plist)]),
        ServiceView::Missing => Ok(seq![bootstrap(domain, plist)]),
        ServiceView::Failed(message) => Err(message),
    }
}

fn two(a: &str, b: &str) -> (r: Vec<String>)
    ensures
        strings(r@) == seq![a@, b@],
{
    let mut out: Vec<String> = Vec::new();
    out.push(a.to_owned());
    out.push(b.to_owned());
    assert(strings(out@) =~= seq![a@, b@]);
    out
}

fn three(a: &str, b: &str, c: &str) -> (r: Vec<String>)
    ensures
        strings(r@) == seq![a@, b@, c@],
{
    let mut out: Vec<String> = Vec::new();
    out.push(a.to_owned());
    out.push(b.to_owned());
    out.push(c.to_owned());
    assert(strings(out@) =~= seq![a@, b@, c@]);
    out
}

/// What is asked to start the service.
pub fn plan_start(service: Service, target: &str, domain: &str, plist: &str) -> (r: Result<
    Vec<Vec<String>>,
    String,
>)
    ensures
        plan_view(r) == start_plan(service@, target@, domain@, plist@),
{
    let mut out: Vec<Vec<String>> = Vec::new();
    match service {
        Service::Loaded(_) => {
            out.push(three("kickstart", "-k", target));
            assert(calls(out@) =~= seq![seq!["kickstart"@, "-k"@, target@]]);
            Ok(out)
        },
        Service::Missing => {
            out.push(three("bootstrap", domain, plist));
            assert(calls(out@) =~= seq![bootstrap(domain@, plist@)]);
            Ok(out)
        },
        Service::Failed(message) => Err(message),
    }
}

/// What is asked to restart the service.
pub fn plan_restart(service: Service, target: &str, domain: &str, plist: &str) -> (r: Result<
    Vec<Vec<String>>,
    String,
>)
    ensures
        plan_view(r) == restart_plan(service@, target@, domain@, plist@),
{
    let mut out: Vec<Vec<String>> = Vec::new();
    match service {
        Service::Loaded(_) => {
            out.push(two("bootout", target));
            out.push(three("bootstrap", domain, plist));
            assert(calls(out@) =~= seq![
                seq!["bootout"@, target@],
                bootstrap(domain@, plist@),
            ]);
            Ok(out)
        },
        Service::Missing => {
            out.push(three("bootstrap", domain, plist));
            assert(calls(out@) =~= seq![bootstrap(domain@, plist@)]);
            Ok(out)
        },
        Service::Failed(message) => Err(message),
    }
}

/// What is shown of the service, or why nothing is.
pub open spec fn status_shown(service: ServiceView, installed: bool) -> Result<
    Seq<char>,
    Seq<char>,
> {
    match service {
        ServiceView::Loaded(text) => Ok(text),
        ServiceView::Missing => Ok(
            if installed {
                "not loaded\n"@
            } else {
                "not installed\n"@
            },
        ),
        ServiceView::Failed(message) => Err(message),
    }
}

/// What is shown of the service, or why nothing is.
pub fn status_text(service: Service, installed: bool) -> (r: Result<String, String>)
    ensures
        match r {
            Ok(text) => status_shown(service@, installed) == Ok::<Seq<char>, Seq<char>>(text@),
            Err(message) => status_shown(service@, installed) == Err::<Seq<char>, Seq<char>>(
                message@,
            ),
        },
{
    match service {
        Service::Loaded(text) => Ok(text),
        Service::Missing => {
            if installed {
                Ok("not loaded\n".to_owned())
            } else {
                Ok("not installed\n".to_owned())
            }
        },
        Service::Failed(message) => Err(message),
    }
}

/// The domain of a user, by what `id -u` says.
pub open spec fn domain_of(uid: Seq<char>) -> Seq<char> {
    "gui/"@ + trimmed(uid)
}

/// The domain of a user, by what `id -u` says.
pub fn domain_target(uid: &str) -> (r: String)
    ensures
        r@ == domain_of(uid@),
{
    cat("gui/", trim(uid).as_str())
}

/// The service of a domain.
pub open spec fn service_of(domain: Seq<char>) -> Seq<char> {
    domain + "/"@ + label_text()
}

/// The service of a domain.
pub fn service_target(domain: &str) -> (r: String)
    ensures
        r@ == service_of(domain@),
{
    cat3(domain, "/", label())
}

/// The words for a call of `launchctl` that failed.
pub open spec fn call_failed(args: Seq<Seq<char>>, stderr: Seq<char>) -> Seq<char> {
    "launchctl "@ + joined(args, " "@) + " failed: "@ + trimmed(stderr)
}

/// The words for a call of `launchctl` that failed with a text.
pub fn failure_told(args: &Vec<String>, stderr: &str) -> (r: String)
    ensures
        r@ == call_failed(strings(args@), stderr@),
{
    let mut out = cat("launchctl ", join(args, " ").as_str());
    out.push_str(" failed: ");
    out.push_str(trim(stderr).as_str());
    out
}

/// The words for a call of `launchctl` that failed.
pub fn call_failure(args: &Vec<String>, stderr: &[u8]) -> (r: String)
    ensures
        r@ == call_failed(strings(args@), lossy_text(stderr@)),
        valid_utf8(stderr@) ==> r@ == call_failed(strings(args@), decode_utf8(stderr@)),
{
    failure_told(args, lossy(stderr).as_str())
}

/// The words for a service that is not installed.
pub fn not_installed(plist: &str) -> (r: String)
    ensures
        r@ == "LaunchAgent is not installed: "@ + plist@,
{
    cat("LaunchAgent is not installed: ", plist)
}

/// A text of which each character is allowed stands in the description without a character that
/// would end it.
pub proof fn escaped_is_safe(s: Seq<char>, i: int)
    requires
        0 <= i < escaped(s).len(),
    ensures
        escaped(s)[i] != '<',
        escaped(s)[i] != '>',
        escaped(s)[i] != '"',
        escaped(s)[i] != '\'',
    decreases s.len(),
{
    if s.len() > 0 {
        reveal_strlit("&amp;");
        reveal_strlit("&lt;");
        reveal_strlit("&gt;");
        reveal_strlit("&quot;");
        reveal_strlit("&apos;");
        let front = escaped(s.drop_last());
        if i < front.len() {
            escaped_is_safe(s.drop_last(), i);
        } else {
            let e = escaped_char(s.last());
            let j = i - front.len();
            assert(escaped(s)[i] == e[j]);
            if e.len() > 1 {
                assert(j == 0 || j == 1 || j == 2 || j == 3 || j == 4 || j == 5);
            }
        }
    }
}

} // verus!
