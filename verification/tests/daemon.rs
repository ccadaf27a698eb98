use llmapi::daemon::{
    arguments_or_default, call_failure, domain_target, label, plan_restart, plan_start,
    read_service, render_plist, service_not_found, service_target, status_text, xml, Service,
};

#[test]
fn recognizes_only_missing_service_errors() {
    assert!(service_not_found(b"Bad request.\nCould not find service \"com.virzz.enyo.llmapi\" in domain for user gui: 501"));
    assert!(!service_not_found(b"Permission denied"));
    assert!(!service_not_found(
        b"Could not find service \"other\" in domain"
    ));
}

#[test]
fn description_escapes_its_texts() {
    let body = render_plist(
        "/tmp/llmapi",
        "/tmp/work & <test>",
        &vec!["server".into(), "--default".into(), "one&two".into()],
        &format!("/tmp/Logs/{}/out.log", label()),
        &format!("/tmp/Logs/{}/err.log", label()),
    )
    .unwrap();
    assert!(body.contains("/tmp/work &amp; &lt;test&gt;"));
    assert!(body.contains("<string>one&amp;two</string>"));
    assert!(body.contains(&format!("{}/out.log", label())));
    assert!(body.contains("<string>/tmp/llmapi</string>"));
    assert!(body.ends_with("</dict>\n</plist>\n"));
}

#[test]
fn control_characters_have_no_place_in_a_description() {
    assert_eq!(xml("a\tb").as_deref(), Some("a\tb"));
    assert_eq!(xml("a\"b'").as_deref(), Some("a&quot;b&apos;"));
    assert_eq!(xml("a\u{1}b"), None);
    assert_eq!(
        render_plist("/bin/x", "\u{0}", &Vec::new(), "o", "e"),
        None
    );
}

#[test]
fn arguments_replace_the_default() {
    assert_eq!(arguments_or_default(Vec::new()), ["server"]);
    assert_eq!(
        arguments_or_default(vec!["server".into(), "--config".into()]),
        ["server", "--config"]
    );
}

#[test]
fn service_state_and_its_plans() {
    let domain = domain_target("501\n");
    assert_eq!(domain, "gui/501");
    let target = service_target(&domain);
    assert_eq!(target, "gui/501/com.virzz.enyo.llmapi");

    let loaded = || read_service(true, b"state = running\n", b"");
    let missing = || {
        read_service(
            false,
            b"",
            b"Could not find service \"com.virzz.enyo.llmapi\" in domain",
        )
    };
    let failed = || read_service(false, b"", b"  denied \n");
    assert_eq!(loaded(), Service::Loaded("state = running\n".into()));
    assert_eq!(missing(), Service::Missing);
    assert_eq!(
        failed(),
        Service::Failed("launchctl print failed: denied".into())
    );

    assert_eq!(
        plan_start(loaded(), &target, &domain, "p.plist").unwrap(),
        [["kickstart", "-k", "gui/501/com.virzz.enyo.llmapi"]]
    );
    assert_eq!(
        plan_start(missing(), &target, &domain, "p.plist").unwrap(),
        [["bootstrap", "gui/501", "p.plist"]]
    );
    let restart = plan_restart(loaded(), &target, &domain, "p.plist").unwrap();
    assert_eq!(restart.len(), 2);
    assert_eq!(restart[0], ["bootout", "gui/501/com.virzz.enyo.llmapi"]);
    assert_eq!(restart[1], ["bootstrap", "gui/501", "p.plist"]);
    assert!(plan_restart(failed(), &target, &domain, "p.plist").is_err());

    assert_eq!(status_text(loaded(), true), Ok("state = running\n".into()));
    assert_eq!(status_text(missing(), true), Ok("not loaded\n".into()));
    assert_eq!(status_text(missing(), false), Ok("not installed\n".into()));
    assert!(status_text(failed(), true).is_err());
    assert_eq!(
        call_failure(&vec!["bootout".into(), "x".into()], b" no \xff\n"),
        "launchctl bootout x failed: no \u{fffd}"
    );
}
