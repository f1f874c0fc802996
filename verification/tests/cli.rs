use ctxmux::cli::{
    parse_arguments, parse_fd, parse_forward, resolve_inherited_descriptors, usage, Invocation,
    ServeOptions,
};
use ctxmux::identity::{DaemonInstanceId, RunId};
use ctxmux::order::{not_after, sort_texts};
use ctxmux::text::decimal_text;

fn arguments(words: &[&str]) -> Vec<String> {
    words.iter().map(|word| (*word).to_owned()).collect()
}

#[test]
fn descriptors_are_signed_decimal_numbers() {
    for (text, expected) in [
        ("7", Some(7)),
        ("+7", Some(7)),
        ("-1", Some(-1)),
        ("007", Some(7)),
        ("2147483647", Some(i32::MAX)),
        ("-2147483648", Some(i32::MIN)),
        ("2147483648", None),
        ("-2147483649", None),
        ("99999999999999999999999999", None),
        ("", None),
        ("-", None),
        ("+", None),
        (" 7", None),
        ("7x", None),
        ("1_0", None),
        ("\u{0663}", None),
    ] {
        assert_eq!(parse_fd(text), expected, "{text:?}");
        assert_eq!(parse_fd(text), text.parse::<i32>().ok(), "{text:?}");
    }
}

#[test]
fn the_daemon_is_called_with_a_socket() {
    assert_eq!(
        parse_arguments(&arguments(&["--socket", "/s"])),
        Invocation::Serve(ServeOptions {
            socket: Some(1),
            state_dir: None,
            qualification_stats_fd: None,
            readiness_fd: None,
            handoff_fd: None,
        })
    );
    assert_eq!(
        parse_arguments(&arguments(&[
            "--state-dir",
            "/d",
            "--handoff-fd",
            "9",
            "--socket",
            "--state-dir",
            "--readiness-fd",
            "4",
            "--qualification-stats-fd",
            "5",
        ])),
        Invocation::Serve(ServeOptions {
            socket: Some(5),
            state_dir: Some(1),
            qualification_stats_fd: Some(5),
            readiness_fd: Some(4),
            handoff_fd: Some(9),
        })
    );
    assert_eq!(parse_arguments(&arguments(&["--version"])), Invocation::Version);
    for wrong in [
        &[][..],
        &["--version", "x"][..],
        &["--socket"][..],
        &["--socket", "/a", "--socket", "/b"][..],
        &["--socket", "/a", "--readiness-fd", "x"][..],
        &["--socket", "/a", "--readiness-fd", "3", "--readiness-fd", "4"][..],
        &["--socket", "/a", "--other", "/b"][..],
        &["--state-dir", "/d"][..],
        &["--socket", "/a", "--version"][..],
    ] {
        assert_eq!(parse_arguments(&arguments(wrong)), Invocation::Usage, "{wrong:?}");
    }
    assert!(usage().starts_with("usage: ctxmuxd --socket <path>"));
}

#[test]
fn inherited_descriptors_are_distinct_and_a_handoff_needs_its_state() {
    let options = |stats: Option<i32>, ready: Option<i32>, handoff: Option<i32>, dir: bool| {
        ServeOptions {
            socket: Some(1),
            state_dir: if dir { Some(3) } else { None },
            qualification_stats_fd: stats,
            readiness_fd: ready,
            handoff_fd: handoff,
        }
    };
    let distinct = Err("ctxmuxd: inherited descriptors must be distinct");
    assert_eq!(resolve_inherited_descriptors(&options(None, None, None, false)), Ok(()));
    assert_eq!(
        resolve_inherited_descriptors(&options(Some(4), Some(5), Some(6), true)),
        Ok(())
    );
    assert_eq!(
        resolve_inherited_descriptors(&options(Some(4), Some(4), None, true)),
        distinct
    );
    assert_eq!(
        resolve_inherited_descriptors(&options(Some(4), None, Some(4), true)),
        distinct
    );
    assert_eq!(
        resolve_inherited_descriptors(&options(None, Some(4), Some(4), false)),
        distinct
    );
    assert_eq!(
        resolve_inherited_descriptors(&options(None, None, Some(4), false)),
        Err("ctxmuxd: --handoff-fd requires --state-dir")
    );
}

#[test]
fn a_forward_is_the_pair_behind_the_first_flag() {
    let forward = |words: &[&str]| {
        parse_forward(&arguments(words)).map(|forward| (forward.local, forward.remote))
    };
    assert_eq!(
        forward(&["-o", "ControlMaster=no", "-L", "/a:b/local:/remote", "-N", "host"]),
        Some(("/a:b/local".to_owned(), "/remote".to_owned()))
    );
    assert_eq!(forward(&["-N", "host"]), None);
    assert_eq!(forward(&["-L"]), None);
    assert_eq!(forward(&["-L", "nocolon", "-L", "a:b"]), None);
    assert_eq!(forward(&["-L", ":remote"]), None);
    assert_eq!(forward(&["-L", "local:"]), None);
}

#[test]
fn identities_are_hyphenated_lower_case_texts() {
    let value: u128 = 0x0123_4567_89ab_cdef_fedc_ba98_7654_3210;
    assert_eq!(RunId { value }.to_text(), "01234567-89ab-cdef-fedc-ba9876543210");
    assert_eq!(
        RunId { value }.to_text(),
        uuid::Uuid::from_u128(value).to_string()
    );
    let instance = DaemonInstanceId { value };
    assert_eq!(DaemonInstanceId::parse(&instance.to_text()), Ok(instance));
    assert!(DaemonInstanceId::parse("epoch-1").is_err());
    assert_eq!(
        DaemonInstanceId::parse("01234567-89AB-CDEF-FEDC-BA9876543210"),
        Ok(instance)
    );
}

#[test]
fn texts_are_ordered_by_their_characters() {
    assert!(not_after("", "a"));
    assert!(not_after("ab", "ab"));
    assert!(!not_after("b", "ab"));
    assert!(not_after("Run 1", "unpublished"));
    let sorted = sort_texts(arguments(&["b", "", "ab", "b", "\u{e9}"]));
    assert_eq!(sorted, arguments(&["", "ab", "b", "b", "\u{e9}"]));
    assert_eq!(decimal_text(0), "0");
    assert_eq!(decimal_text(u64::MAX), "18446744073709551615");
    assert_eq!(decimal_text(12104), "12104");
}
