//! The control socket's lines.

use wlr_capture::chooser::{self, Handed};
use wlr_capture::daemon::{
    can_encode, reply_from, request_line, serve, socket_path, Reply, Request, Served, Tool, SEP,
};

#[test]
fn a_show_line_survives_whatever_a_filter_holds() {
    // `--title` takes what the application wrote in its title bar: spaces, quotes, anything a
    // shell would have to quote. Splitting on whitespace would tear it in two, so the wire
    // holds one field per argument.
    let args = vec![
        "--layout".to_string(),
        "grid".to_string(),
        "--title".to_string(),
        r#"a b "c" \d"#.to_string(),
    ];
    let line = format!("show{SEP}{}", args.join(&SEP.to_string()));
    match Request::parse(&line).unwrap() {
        Request::Show(got) => assert_eq!(got, args),
        _ => panic!("not a show"),
    }
    assert_eq!(request_line(Tool::Switch, &args), line + "\n");
}

#[test]
fn a_bare_show_is_a_run_with_no_arguments() {
    // The common case, and the one a hand-typed `printf 'show\n' | socat …` sends.
    match Request::parse("show\n").unwrap() {
        Request::Show(args) => assert!(args.is_empty()),
        _ => panic!("not a show"),
    }
    assert!(matches!(Request::parse("ping").unwrap(), Request::Ping));
    assert!(matches!(Request::parse("quit").unwrap(), Request::Quit));
    assert!(Request::parse("").is_err());
    assert!(Request::parse("frobnicate").is_err());
}

#[test]
fn replies_round_trip_and_name_an_exit_status() {
    for reply in [
        Reply::Done,
        Reply::Cancelled,
        Reply::Busy,
        Reply::Failed("no such layout".into()),
    ] {
        assert_eq!(Reply::parse(&reply.to_line()), reply);
    }
    // A press that lands on an overlay already up did nothing, and did nothing wrong: the
    // keybinding must not report a failure.
    assert_eq!(Reply::Busy.exit_code(), 0);
    assert_eq!(Reply::Done.exit_code(), 0);
    assert_eq!(Reply::Cancelled.exit_code(), 1);
    assert_eq!(Reply::Failed(String::new()).exit_code(), 2);
}

#[test]
fn a_multi_line_reason_stays_one_reply() {
    // Reasons are read back a line at a time; a wrapped one would leave the rest in the socket
    // for whoever reads next.
    let reply = Reply::Failed("first line\nsecond line".into());
    assert_eq!(reply.to_line().lines().count(), 1);
    assert_eq!(
        Reply::parse(&reply.to_line()),
        Reply::Failed("first line second line".into())
    );
}

#[test]
fn a_request_that_cannot_be_read_says_so() {
    assert_eq!(Request::parse("\r\n").unwrap_err(), "empty command");
    assert_eq!(Request::parse(" jump ").unwrap_err(), "unknown command: jump");
    assert!(matches!(Request::parse(" exit \n").unwrap(), Request::Quit));
}

#[test]
fn arguments_that_would_come_out_as_two_are_not_sent() {
    assert!(can_encode(&["a b".to_string(), String::new()]));
    assert!(!can_encode(&[format!("a{SEP}b")]));
    assert!(!can_encode(&["a\nb".to_string()]));
    assert!(!can_encode(&["a\rb".to_string()]));
}

#[test]
fn the_daemon_answers_or_shows() {
    assert!(matches!(serve(Ok(Request::Ping)), Served::Answer(Reply::Done)));
    assert!(matches!(serve(Ok(Request::Quit)), Served::Stop(Reply::Done)));
    assert!(matches!(serve(Ok(Request::Show(vec![]))), Served::Show(Tool::Switch, _)));
    assert!(matches!(serve(Err("x".into())), Served::Answer(Reply::Failed(_))));
    assert_eq!(reply_from(Some("ok\n")), Some(Reply::Done));
    assert_eq!(reply_from(Some("  \n")), None);
    assert_eq!(reply_from(None), None);
    assert_eq!(socket_path("/run/user/1000"), "/run/user/1000/wlr-switcher.sock");
}

#[test]
fn a_chosen_line_travels_back_as_it_is() {
    let args = vec!["--format".to_string(), "json".to_string()];
    match Request::parse(&request_line(Tool::Choose, &args)).unwrap() {
        Request::Choose(got) => assert_eq!(got, args),
        _ => panic!("not a choose"),
    }
    assert!(matches!(serve(Ok(Request::Choose(vec![]))), Served::Show(Tool::Choose, _)));
    let line = r#"{"title":"a b ","type":"window"} "#;
    let sent = chooser::serve(Ok(Some(line.into()))).to_line();
    assert_eq!(sent, format!("ok {line}"));
    let reply = reply_from(Some(&format!("{sent}\n"))).unwrap();
    assert_eq!(reply, Reply::Chosen(line.into()));
    assert_eq!(reply.exit_code(), 0);
    assert_eq!(Reply::parse("ok  \n"), Reply::Done);
    assert_eq!(Reply::parse("okay"), Reply::Failed("okay".into()));
    match chooser::after_daemon(Some(reply)) {
        Handed::Print(l) => assert_eq!(l, line),
        _ => panic!("not printed"),
    }
    assert!(matches!(chooser::after_daemon(None), Handed::Here { busy: false }));
    assert!(matches!(chooser::after_daemon(Some(Reply::Busy)), Handed::Here { busy: true }));
    let cancelled = chooser::after_daemon(Some(chooser::serve(Ok(None))));
    assert!(matches!(cancelled, Handed::Exit { reason: None, code: 1 }));
    match chooser::after_daemon(Some(chooser::serve(Err("no".into())))) {
        Handed::Exit { reason: Some(why), code: 2 } => assert_eq!(why, "no"),
        _ => panic!("not told"),
    }
    assert!(chooser::daemon_may_run(false, false, false, false));
    assert!(!chooser::daemon_may_run(false, false, false, true));
}
