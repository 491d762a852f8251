//! Sanitizing untrusted text.

use diagnostic_triage::sanitize::bounded::SanitizeError;
use diagnostic_triage::sanitize::marks::{GeneratedMarker, MarkerKind};
use diagnostic_triage::sanitize::tokens::provider_token_prefixes;
use diagnostic_triage::sanitize::{
    neutralize_external_text, quoted_secret_at, recognize_secret_key, sanitize_external_text,
    sanitize_external_text_counted, sanitize_identifier_text, sanitize_repository_path_text,
    secret_key_scan_steps, unquoted_secret_at,
};

#[test]
fn records_only_generated_marker_provenance_in_output_order() {
    let control = "[CONTROL-U+0009]";
    let bidi = "[BIDI-U+202E]";
    let format = "[FORMAT-U+180E]";
    let expected = format!("{control}{bidi}{format}[CONTROL-U+0009]");
    let actual =
        neutralize_external_text("\t\u{202e}\u{180e}[CONTROL-U+0009]", expected.len()).unwrap();

    assert_eq!(actual.as_str(), expected);
    assert_eq!(
        actual.markers,
        [
            GeneratedMarker::new(0, control.len(), MarkerKind::Control, 0x0009),
            GeneratedMarker::new(
                control.len(),
                control.len() + bidi.len(),
                MarkerKind::Bidi,
                0x202e,
            ),
            GeneratedMarker::new(
                control.len() + bidi.len(),
                control.len() + bidi.len() + format.len(),
                MarkerKind::Format,
                0x180e,
            ),
        ]
    );
    assert_eq!(
        neutralize_external_text("\0", control.len() - 1),
        Err(SanitizeError::OutputLimitExceeded {
            max_bytes: control.len() - 1,
        })
    );
}

#[test]
fn neutralizes_pinned_unsafe_characters_without_changing_safe_unicode() {
    let cases = [
        ("plain 日本語", "plain 日本語"),
        ("line\nnext", "line[CONTROL-U+000A]next"),
        ("delete\u{7f}", "delete[CONTROL-U+007F]"),
        ("non-ASCII control\u{85}", "non-ASCII control\u{85}"),
        ("rtl\u{202e}", "rtl[BIDI-U+202E]"),
        ("isolate\u{2066}", "isolate[BIDI-U+2066]"),
        ("join\u{180e}", "join[FORMAT-U+180E]"),
        ("tag\u{e0001}", "tag[FORMAT-U+E0001]"),
    ];

    for (input, expected) in cases {
        let actual = sanitize_external_text(input, 256).unwrap();
        assert_eq!(actual.as_str(), expected, "input {input:?}");
    }
}

#[test]
fn redacts_absolute_paths_without_consuming_safe_context() {
    let redacted = "[REDACTED_PATH]";
    let cases = [
        (r"C:\", redacted),
        (r"\\server\share", redacted),
        (r"\Users\alice+dev=qa@host#1$^(!%done\repo", redacted),
        ("prefix \\Users\\a safe", "prefix [REDACTED_PATH] safe"),
        ("prefix %5CUsers%5CA safe", "prefix [REDACTED_PATH] safe"),
        (r"\Windows\System32", redacted),
        (r"\Windows\n", redacted),
        (r"\A\Data", redacted),
        (r"\x64data\secret.txt", redacted),
        (r"\x64data\n\secret.txt", redacted),
        (r"\101foo\102bar\secret", redacted),
        ("\\Cafe\u{301}\\Docs", redacted),
        (r#""\O'Brien Program\secret.txt""#, r#""[REDACTED_PATH]""#),
        (
            r#""%5CO'Brien Program%5Csecret.txt""#,
            r#""[REDACTED_PATH]""#,
        ),
        ("%5C%5cserver%2Fshare", redacted),
        ("file:///etc/passwd", redacted),
        ("FILE:%2fUsers%2FA", redacted),
        ("C:%5CUsers%2FA", redacted),
        (r#""C:\Program Files\a""#, r#""[REDACTED_PATH]""#),
        (r#"\"/a b\" tail"#, r#"\"[REDACTED_PATH]\" tail"#),
        (r#""/a/with\"q/x" tail"#, r#""[REDACTED_PATH]" tail"#),
        ("see /Users/A/My Project, then", "see [REDACTED_PATH], then"),
        ("https:/Users/a", "https:[REDACTED_PATH]"),
        ("https://[x]/a", "https:[REDACTED_PATH]][REDACTED_PATH]"),
        ("https://%ZZ/Users/a", "https:[REDACTED_PATH]"),
        ("https://%25/Users/a", "https:[REDACTED_PATH]"),
        ("https://a:b:443/Users/a", "https:[REDACTED_PATH]"),
        (r"https://example.test\Users\a", "https:[REDACTED_PATH]"),
        (r"https:\Users\a", "https:[REDACTED_PATH]"),
        ("https://x\n/a", "https://x[CONTROL-U+000A][REDACTED_PATH]"),
        ("http://x?token=secret", "http://x?token=[REDACTED_SECRET]"),
    ];
    for (input, expected) in cases {
        let actual = sanitize_external_text(input, 8_192).unwrap();
        assert_eq!(actual.as_str(), expected, "input {input:?}");
    }
    let preserved = "https://例え.テスト:443/Users/a?next=/etc\nhttps://https://Users/a\nhttps://%E4%BE%8B%E3%81%88.test/Users/a\nhttps://[::1]/Users/a\nurl=https://example.test/a?next=/Users/a\n<https://example.test/a>\n日本語/src.rs\nfile:src/lib.rs\nC:relative\\file.rs\npattern \\d+\\w+\nliteral \\n\\t and regex \\p{Letter}+\\s*\nanchors \\bword\\b and \\Afoo\\z\nescapes \\x20\\u00A0, \\x41\\x42, \\u0041\\u0042, \\pL\\pN, \\cA\\cB, \\123\\234, and \\101foo\\102bar\nquoted \\Qfoo\\Ebar and suffixed \\nfoo\\t\ncompound suffixes \\u0041foo\\n, \\x41foo\\n, \\pLfoo\\n, and reversed \\n\\u0041foo";
    for input in preserved.lines() {
        let actual = sanitize_external_text(input, 8_192).unwrap();
        assert_eq!(actual.as_str(), input);
    }
    let mixed = r#"path="\Users\alice\repo"; regex=\d+\w+"#;
    assert_eq!(
        sanitize_external_text(mixed, 8_192).unwrap().as_str(),
        r#"path="[REDACTED_PATH]"; regex=\d+\w+"#
    );
    let rooted = r"\Windows\n";
    assert_eq!(
        sanitize_external_text(rooted, redacted.len())
            .unwrap()
            .as_str(),
        redacted
    );
    assert_eq!(
        sanitize_external_text(rooted, redacted.len() - 1),
        Err(SanitizeError::OutputLimitExceeded {
            max_bytes: redacted.len() - 1,
        })
    );
    let input = format!("/{}, safe /etc", "a".repeat(4_096));
    let actual = sanitize_external_text(&input, input.len()).unwrap();
    assert_eq!(actual.as_str(), "[REDACTED_PATH], safe [REDACTED_PATH]");
    assert!(sanitize_external_text("/", redacted.len()).is_ok());
    assert!(sanitize_external_text("/", redacted.len() - 1).is_err());
    let repeated = "<https://%25/a>".repeat(128);
    let (text, attempts) =
        sanitize_external_text_counted(&repeated, repeated.len() * 2).unwrap();
    assert_eq!(sanitize_external_text(&repeated, repeated.len() * 2).unwrap(), text);
    assert_eq!(attempts, 128);
}

#[test]
fn redacts_spaced_single_backslash_paths_without_consuming_prose() {
    let cases = [
        (r"https:\Users\Alice Smith\repo", "https:[REDACTED_PATH]"),
        (r"https:\Users\O'Brien Smith\repo", "https:[REDACTED_PATH]"),
        (r"https:\Users\R&D\repo", "https:[REDACTED_PATH]"),
        (
            r#"\"x https:\Users\O'Brien Smith\repo\""#,
            r#"\"x https:[REDACTED_PATH]\""#,
        ),
        (
            r"https:\Users\Alice Smith\repo safe",
            "https:[REDACTED_PATH] safe",
        ),
        (
            r"https:\Users\Alice Mary Smith\repo safe",
            "https:[REDACTED_PATH] safe",
        ),
        (
            "https:%5CUsers%5CAlice Smith%5Crepo",
            "https:[REDACTED_PATH]",
        ),
        (
            r"prefix \Users\Alice Smith\repo safe",
            "prefix [REDACTED_PATH] safe",
        ),
        (
            r"https:\Users\Alice note?\repo safe",
            r"https:[REDACTED_PATH] note?\repo safe",
        ),
        (
            r#"{"path":"https:\\Users\\Alice Smith\\repo"}"#,
            r#"{"path":"https:[REDACTED_PATH]"}"#,
        ),
        (
            r#"{"path":"https:\\Users\\O'Brien Smith\\repo"}"#,
            r#"{"path":"https:[REDACTED_PATH]"}"#,
        ),
        (
            r#"{"path":"prefix https:\\Users\\O'Brien Smith\\repo"}"#,
            r#"{"path":"prefix https:[REDACTED_PATH]"}"#,
        ),
        (
            r#"{"message":"https:\\Users\\Alice Smith\\repo* safe"}"#,
            r#"{"message":"https:[REDACTED_PATH]* safe"}"#,
        ),
    ];
    for (input, expected) in cases {
        let actual = sanitize_external_text(input, 8_192).unwrap();
        assert_eq!(actual.as_str(), expected, "input {input:?}");
    }
}

#[test]
fn exact_output_bound_succeeds_and_one_byte_over_fails_closed() {
    let expected = "[CONTROL-U+0000]";
    assert_eq!(
        sanitize_external_text("\0", expected.len())
            .unwrap()
            .as_str(),
        expected
    );
    assert_eq!(
        sanitize_external_text("\0", expected.len() - 1),
        Err(SanitizeError::OutputLimitExceeded {
            max_bytes: expected.len() - 1,
        })
    );
    assert_eq!(
        sanitize_external_text("ab", 1),
        Err(SanitizeError::OutputLimitExceeded { max_bytes: 1 })
    );
}

#[test]
fn identical_input_has_identical_output() {
    let input = "日本語\u{202e}\n";
    assert_eq!(
        sanitize_external_text(input, 256),
        sanitize_external_text(input, 256)
    );
}

#[test]
fn recognizes_only_bounded_secret_keys() {
    for key in [
        "token",
        "api_key",
        "password",
        "passwd",
        "secret",
        "client_secret",
        "access_token",
        "refresh_token",
        "private_key",
    ] {
        let input = format!("{key}=");
        assert_eq!(recognize_secret_key(&input, 0).unwrap().end, key.len());
    }

    let cases = [
        ("API-KEY:", 0, ":", 0),
        ("--client-secret value", 0, " value", 2),
        ("日本 token=", "日本 ".len(), "=", 0),
        ("tok[FORMAT-U+200B]en=", 0, "=", 0),
        ("to[BIDI-U+202E][FORMAT-U+200B]ken=", 0, "=", 0),
    ];
    for (input, index, suffix, cli_dashes) in cases {
        let matched = recognize_secret_key(input, index).unwrap();
        assert_eq!(&input[matched.end..], suffix, "input {input:?}");
        assert_eq!(matched.cli_dashes, cli_dashes, "input {input:?}");
    }
}

#[test]
fn impossible_key_starts_do_not_scan_suffix_whitespace() {
    assert!(recognize_secret_key("token \t=value", 0).is_some());
    assert!(secret_key_scan_steps("token \t=value", 0) > 0);

    let whitespace = " \t\n\u{2003}".repeat(64);
    let mut steps = 0;
    for (index, _) in whitespace.char_indices() {
        assert_eq!(recognize_secret_key(&whitespace, index), None);
        steps += secret_key_scan_steps(&whitespace, index);
    }
    assert_eq!(steps, 0);
}

#[test]
fn secret_key_aliases_preserve_separator_positions() {
    let accepted = [
        "token",
        "api_key",
        "api-key",
        "password",
        "passwd",
        "secret",
        "client_secret",
        "client-secret",
        "access_token",
        "access-token",
        "refresh_token",
        "refresh-token",
        "private_key",
        "private-key",
    ];
    for key in accepted {
        let input = format!("{key}=");
        assert_eq!(recognize_secret_key(&input, 0).unwrap().end, key.len());
    }

    for key in [
        "apikey",
        "clientsecret",
        "s-e-c-r-e-t",
        "pa-ssword",
        "api__key",
        "api--key",
        "--_token",
        "token_",
        "api-key-",
    ] {
        let input = format!("{key}=");
        assert_eq!(recognize_secret_key(&input, 0), None, "key {key:?}");
    }
}

#[test]
fn redacts_only_declared_secret_key_aliases() {
    let input = "api-key=one client_secret=two";
    assert_eq!(
        sanitize_external_text(input, 4096).unwrap().as_str(),
        "api-key=[REDACTED_SECRET] client_secret=[REDACTED_SECRET]"
    );

    for (input, expected) in [
        ("s-e-c-r-e-t=public", "s-e-c-r-e-t=public"),
        ("pa-ssword:public", "pa-ssword:public"),
        ("apikey=public", "apikey=public"),
        (
            r#"{"clientsecret":"public","client-secret":"private"}"#,
            r#"{"clientsecret":"public","client-secret":"[REDACTED_SECRET]"}"#,
        ),
    ] {
        assert_eq!(
            sanitize_external_text(input, 4096).unwrap().as_str(),
            expected,
            "input {input:?}"
        );
    }
}

#[test]
fn rejects_ambiguous_boundaries_and_malformed_markers() {
    let cases = [
        ("tokenize=", 0),
        ("api-key_extra=", 0),
        ("日本token=", "日本".len()),
        ("token\u{301}=", 0),
        ("---token=", 0),
        ("[FORMAT-U+200B]token=", 0),
        ("token[FORMAT-U+200B]=", 0),
        ("tok[FORMAT-U+200b]en=", 0),
        ("tok[FORMAT-U+1234567]en=", 0),
        ("tok[FORMAT-U+200Ben=", 0),
    ];
    for (input, index) in cases {
        assert_eq!(recognize_secret_key(input, index), None, "input {input:?}");
    }

    let too_many = format!("t{}oken=", "[FORMAT-U+200B]".repeat(9));
    assert_eq!(recognize_secret_key(&too_many, 0), None);
}

#[test]
fn malformed_marker_prefix_scanning_is_bounded() {
    let prefix = "[FORMAT-U+";
    let input = prefix.repeat(10_000);
    for index in (0..input.len()).step_by(prefix.len()) {
        assert_eq!(recognize_secret_key(&input, index), None);
    }
}

#[test]
fn redacts_documented_gitlab_session_cookie_at_exact_boundaries() {
    // Sources: docs.gitlab.com/security/tokens/#token-prefixes and
    // docs.gitlab.com/api/rest/authentication/#session-cookie.
    let cases = [
        (
            "_gitlab_session=opaquevalue",
            "_gitlab_session=[REDACTED_SECRET]",
        ),
        (
            "_gitlab_session=\"opaquevalue\"",
            "_gitlab_session=\"[REDACTED_SECRET]\"",
        ),
        (
            "_gitlab_session='opaquevalue'",
            "_gitlab_session='[REDACTED_SECRET]'",
        ),
        (
            "Cookie: a=1;_gitlab_session=opaquevalue; theme=dark",
            "Cookie: a=1;_gitlab_session=[REDACTED_SECRET]; theme=dark",
        ),
        (
            "Set-Cookie: _gitlab_session=opaquevalue; Path=/; HttpOnly",
            "Set-Cookie: _gitlab_session=[REDACTED_SECRET]; Path=/; HttpOnly",
        ),
    ];
    for (input, expected) in cases {
        assert_eq!(
            sanitize_external_text(input, 4096).unwrap().as_str(),
            expected,
            "input {input:?}"
        );
    }

    for input in [
        "x_gitlab_session=opaquevalue",
        "-_gitlab_session=opaquevalue",
        "_gitlab_sessions=opaquevalue",
        "_gitlab_session_id=opaquevalue",
        "_gitlab-session=opaquevalue",
        "_GITLAB_SESSION=opaquevalue",
        "_gitlab_session: opaquevalue",
        "_gitlab_session =opaquevalue",
        "_gitlab_session=",
    ] {
        assert_eq!(sanitize_external_text(input, 4096).unwrap().as_str(), input);
    }

    let expected = "_gitlab_session=[REDACTED_SECRET]";
    assert_eq!(
        sanitize_external_text("_gitlab_session=x", expected.len())
            .unwrap()
            .as_str(),
        expected
    );
    assert_eq!(
        sanitize_external_text("_gitlab_session=x", expected.len() - 1),
        Err(SanitizeError::OutputLimitExceeded {
            max_bytes: expected.len() - 1,
        })
    );

    let repeated = "_gitlab_sessionx=public;".repeat(10_000);
    assert_eq!(
        sanitize_external_text(&repeated, repeated.len())
            .unwrap()
            .as_str(),
        repeated
    );
}

#[test]
fn parses_only_present_unquoted_secret_value_spans() {
    let cases = [
        ("token=secret next=ok", "secret"),
        ("--client-secret tiny rest", "tiny"),
        ("-API_KEY=value;next", "value"),
        ("token=foo\\ bar tail", "foo\\ bar"),
        ("token=trailing\\", "trailing\\"),
        ("token[CONTROL-U+0009]=secret", "secret"),
        ("token\u{2003}=secret", "secret"),
        ("--token[CONTROL-U+0009]secret", "secret"),
        ("token=secret\u{2003}next", "secret"),
        (
            "token=secret[CONTROL-U+000A]next=ok",
            "secret[CONTROL-U+000A]next=ok",
        ),
    ];
    for (input, expected_value) in cases {
        let (start, end) = unquoted_secret_at(input, 0).unwrap();
        assert_eq!(&input[start..end], expected_value, "input {input:?}");
    }

    for input in [
        "token",
        "token=",
        "token=;",
        "token=,next",
        "token= next=ok",
        "token=: next=ok",
        "--token",
        "--token=",
        "--token= next=ok",
        "--token:value",
        "--token =value",
        "token='secret'",
        "token=\"secret\"",
        r#"token=\"secret\""#,
        "token secret",
    ] {
        assert_eq!(unquoted_secret_at(input, 0), None, "input {input:?}");
    }
}

#[test]
fn parses_raw_and_escaped_quoted_secret_value_spans() {
    let cases = [
        (r#"token="secret" next"#, "secret"),
        ("token='秘密' tail", "秘密"),
        (r#"--client-secret "tiny" rest"#, "tiny"),
        (r#"token="a\"b" tail"#, r#"a\"b"#),
        (r#"token=\"secret\" tail"#, "secret"),
        (r"token=\'secret\' tail", "secret"),
        (r#"token="missing"#, "missing"),
        (r#"token=\"missing"#, "missing"),
    ];
    for (input, expected_value) in cases {
        let (start, end) = quoted_secret_at(input, 0).unwrap();
        assert_eq!(&input[start..end], expected_value, "input {input:?}");
    }

    for input in [
        "token=\"\"",
        "token=''",
        r#"token=\"\""#,
        "token=\"",
        r#"token=\""#,
        r#""token":"secret""#,
    ] {
        assert_eq!(quoted_secret_at(input, 0), None, "input {input:?}");
    }
}

#[test]
fn quoted_delimiters_use_fixed_backslash_parity() {
    for slash_count in 0..=4 {
        let slashes = "\\".repeat(slash_count);
        let input = format!("token=\"value{slashes}\"tail");
        let expected = if slash_count % 2 == 0 {
            format!("value{slashes}")
        } else {
            format!("value{slashes}\"tail")
        };
        let (start, end) = quoted_secret_at(&input, 0).unwrap();
        assert_eq!(&input[start..end], expected, "raw input {input:?}");

        let input = format!("token=\\\"value{slashes}\\\"tail");
        let expected = if slash_count % 2 == 0 {
            format!("value{slashes}")
        } else {
            format!("value{slashes}\\\"tail")
        };
        let (start, end) = quoted_secret_at(&input, 0).unwrap();
        assert_eq!(&input[start..end], expected, "escaped input {input:?}");
    }
}

#[test]
fn redacts_quoted_spans_and_preserves_outer_delimiters() {
    let cases = [
        ("token=\"secret\" next", "token=\"[REDACTED_SECRET]\" next"),
        ("token='秘密' tail", "token='[REDACTED_SECRET]' tail"),
        (
            "token=\\\"secret\\\" next",
            "token=\\\"[REDACTED_SECRET]\\\" next",
        ),
        ("token=\"missing", "token=\"[REDACTED_SECRET]"),
        ("token=\\\"missing", "token=\\\"[REDACTED_SECRET]"),
        (
            "token=one password='two' client_secret=\\\"three\\\" end",
            "token=[REDACTED_SECRET] password='[REDACTED_SECRET]' client_secret=\\\"[REDACTED_SECRET]\\\" end",
        ),
    ];
    for (input, expected) in cases {
        assert_eq!(
            sanitize_external_text(input, 4096).unwrap().as_str(),
            expected,
            "input {input:?}"
        );
    }

    for input in ["token=\"\"", "token=''", "token=\\\"\\\""] {
        assert_eq!(sanitize_external_text(input, 4096).unwrap().as_str(), input);
    }
}

#[test]
fn quoted_redaction_obeys_the_exact_output_bound() {
    let expected = "token=\"[REDACTED_SECRET]\"";
    assert_eq!(
        sanitize_external_text("token=\"x\"", expected.len())
            .unwrap()
            .as_str(),
        expected
    );
    assert_eq!(
        sanitize_external_text("token=\"x\"", expected.len() - 1),
        Err(SanitizeError::OutputLimitExceeded {
            max_bytes: expected.len() - 1,
        })
    );
}

#[test]
fn redacts_compact_and_provenance_aware_json_secrets() {
    let cases = [
        (
            r#"{"token":"secret","name":"ok"}"#,
            r#"{"token":"[REDACTED_SECRET]","name":"ok"}"#,
        ),
        (
            r#"{"API_KEY":"秘密"}"#,
            r#"{"API_KEY":"[REDACTED_SECRET]"}"#,
        ),
        (
            "{\n  \"token\"\t:\r \"secret\"\n}",
            "{[CONTROL-U+000A]  \"token\"[CONTROL-U+0009]:[CONTROL-U+000D] \"[REDACTED_SECRET]\"[CONTROL-U+000A]}",
        ),
        (
            "{\"token\"\u{000b}:\"PUBLIC\"}",
            "{\"token\"[CONTROL-U+000B]:\"PUBLIC\"}",
        ),
        (
            "{\"token\"\u{000c}:\"PUBLIC\"}",
            "{\"token\"[CONTROL-U+000C]:\"PUBLIC\"}",
        ),
        (
            r#"{"token":"a\"b","password":"two"}"#,
            r#"{"token":"[REDACTED_SECRET]","password":"[REDACTED_SECRET]"}"#,
        ),
        ("{\"token\":\"missing", "{\"token\":\"[REDACTED_SECRET]"),
    ];
    for (input, expected) in cases {
        assert_eq!(
            sanitize_external_text(input, 4096).unwrap().as_str(),
            expected,
            "input {input:?}"
        );
    }
}

#[test]
fn rejects_non_json_or_unprovenanced_key_separators() {
    for input in [
        r#"{"name":"PUBLIC"}"#,
        r#"{"token":""}"#,
        r#"{"token":'PUBLIC'}"#,
        r#"{"tok\u0065n":"PUBLIC"}"#,
        r#"{"token-":"PUBLIC"}"#,
        r#"{"to--ken":"PUBLIC"}"#,
        r#"{"note":"embedded \"token\":\"PUBLIC\" text"}"#,
        r#"prefix "token":"PUBLIC""#,
        r#"{"token"[CONTROL-U+0009]:"PUBLIC"}"#,
        "{\"token\"\u{2003}:\"PUBLIC\"}",
    ] {
        assert_eq!(
            sanitize_external_text(input, 4096).unwrap().as_str(),
            input,
            "input {input:?}"
        );
    }
}

#[test]
fn json_redaction_obeys_the_exact_output_bound() {
    let expected = r#"{"token":"[REDACTED_SECRET]"}"#;
    assert_eq!(
        sanitize_external_text(r#"{"token":"x"}"#, expected.len())
            .unwrap()
            .as_str(),
        expected
    );
    assert_eq!(
        sanitize_external_text(r#"{"token":"x"}"#, expected.len() - 1),
        Err(SanitizeError::OutputLimitExceeded {
            max_bytes: expected.len() - 1,
        })
    );
}

#[test]
fn redacts_authorization_and_bare_scheme_credentials() {
    let cases = [
        (
            "Authorization: Basic credential, next=ok",
            "Authorization: Basic [REDACTED_SECRET], next=ok",
        ),
        (
            "authorization = bearer TOKEN; next=ok",
            "authorization = bearer [REDACTED_SECRET]; next=ok",
        ),
        (
            "AUTHORIZATION: opaque&next=ok",
            "AUTHORIZATION: [REDACTED_SECRET]&next=ok",
        ),
        ("Basic abc123 tail", "Basic [REDACTED_SECRET] tail"),
        (
            "Bearer \"secret\" tail",
            "Bearer \"[REDACTED_SECRET]\" tail",
        ),
        ("Bearer abc'def tail", "Bearer [REDACTED_SECRET] tail"),
        (
            "Bea\u{200b}rer value tail",
            "Bea[FORMAT-U+200B]rer [REDACTED_SECRET] tail",
        ),
        (
            "Bearer value\nnext=ok",
            "Bearer [REDACTED_SECRET][CONTROL-U+000A]next=ok",
        ),
        (
            "Authori\u{202e}zation:\topaque, next=ok",
            "Authori[BIDI-U+202E]zation:[CONTROL-U+0009][REDACTED_SECRET], next=ok",
        ),
    ];

    for (input, expected) in cases {
        let actual = sanitize_external_text(input, 4096).unwrap();
        assert_eq!(actual.as_str(), expected, "input {input:?}");
    }
}

#[test]
fn escaped_quoted_authorization_preserves_delimiters_and_bounds() {
    let cases = [
        (
            r#"Bearer \"secret\" tail"#,
            r#"Bearer \"[REDACTED_SECRET]\" tail"#,
        ),
        (
            r"Basic \'secret\' tail",
            r"Basic \'[REDACTED_SECRET]\' tail",
        ),
        (
            r#"Authorization: Bearer \"secret\"; next=ok"#,
            r#"Authorization: Bearer \"[REDACTED_SECRET]\"; next=ok"#,
        ),
        (r#"Bearer \"missing"#, r#"Bearer \"[REDACTED_SECRET]"#),
    ];

    for (input, expected) in cases {
        let required_bytes = input.len().max(expected.len());
        assert_eq!(
            sanitize_external_text(input, required_bytes)
                .unwrap_or_else(|error| panic!("input {input:?}: {}", error.message()))
                .as_str(),
            expected,
            "input {input:?}"
        );
        assert_eq!(
            sanitize_external_text(input, required_bytes - 1),
            Err(SanitizeError::OutputLimitExceeded {
                max_bytes: required_bytes - 1,
            }),
            "input {input:?}"
        );
    }
}

#[test]
fn quoted_authorization_preserves_enclosing_delimiters_and_following_fields() {
    let cases = [
        (
            r#"{"Authorization":"Bearer TOKEN","name":"ok"}"#,
            r#"{"Authorization":"Bearer [REDACTED_SECRET]","name":"ok"}"#,
        ),
        (
            r#"{"Authorization":"Basic TOKEN","name":"ok"}"#,
            r#"{"Authorization":"Basic [REDACTED_SECRET]","name":"ok"}"#,
        ),
        (
            r#"{\"Authorization\":\"Bearer TOKEN\",\"name\":\"ok\"}"#,
            r#"{\"Authorization\":\"Bearer [REDACTED_SECRET]\",\"name\":\"ok\"}"#,
        ),
        (
            r#"{"Authorization":"  Bearer TOKEN","name":"ok"}"#,
            r#"{"Authorization":"  Bearer [REDACTED_SECRET]","name":"ok"}"#,
        ),
        (
            r#"{"Authorization":"Bearer TOKEN"#,
            r#"{"Authorization":"Bearer [REDACTED_SECRET]"#,
        ),
        (
            r#"{\"Authorization\":\"Basic TOKEN"#,
            r#"{\"Authorization\":\"Basic [REDACTED_SECRET]"#,
        ),
        (
            "\"Bearer TOKEN\"\nnext=ok",
            "\"Bearer [REDACTED_SECRET]\"[CONTROL-U+000A]next=ok",
        ),
    ];

    for (input, expected) in cases {
        assert_eq!(
            sanitize_external_text(input, expected.len())
                .unwrap()
                .as_str(),
            expected,
            "input {input:?}"
        );
        assert_eq!(
            sanitize_external_text(input, expected.len() - 1),
            Err(SanitizeError::OutputLimitExceeded {
                max_bytes: expected.len() - 1,
            }),
            "bound for {input:?}"
        );
    }
}

fn assert_review_followup_authorization_cases(cases: &[(&str, &str)]) {
    for &(input, expected) in cases {
        let neutralized_bytes = neutralize_external_text(input, 4096)
            .unwrap()
            .as_str()
            .len();
        let required_bytes = neutralized_bytes.max(expected.len());
        assert_eq!(
            sanitize_external_text(input, required_bytes)
                .unwrap_or_else(|error| panic!("input {input:?}: {}", error.message()))
                .as_str(),
            expected,
            "input {input:?}"
        );
        assert_eq!(
            sanitize_external_text(input, required_bytes - 1),
            Err(SanitizeError::OutputLimitExceeded {
                max_bytes: required_bytes - 1,
            }),
            "bound for {input:?}"
        );
    }
}

#[test]
fn review_followup_authorization_json_assignment_values() {
    let cases = [
        (
            r#"{"Authorization":"Credential=abcdef","name":"ok"}"#,
            r#"{"Authorization":"[REDACTED_SECRET]","name":"ok"}"#,
        ),
        (
            r#"{ "Authorization" : "token : abcdef", "name" : "ok" }"#,
            r#"{ "Authorization" : "[REDACTED_SECRET]", "name" : "ok" }"#,
        ),
        (
            r#"{\"Authorization\":\"Credential=abcdef\",\"name\":\"ok\"}"#,
            r#"{\"Authorization\":\"[REDACTED_SECRET]\",\"name\":\"ok\"}"#,
        ),
        (
            r#"{\"Authorization\":\"Credential=\\\"abcdef\\\"\",\"name\":\"ok\"}"#,
            r#"{\"Authorization\":\"[REDACTED_SECRET]\",\"name\":\"ok\"}"#,
        ),
        (
            r#"{\"Authorization\":\"Credential=\\\"abcdef"#,
            r#"{\"Authorization\":\"[REDACTED_SECRET]"#,
        ),
        (
            r#"{"Authorization":"Credential=\"abcdef\"","name":"ok"}"#,
            r#"{"Authorization":"[REDACTED_SECRET]","name":"ok"}"#,
        ),
        (
            r#"{"Authorization":"  token=Bearer abcdef","name":"ok"}"#,
            r#"{"Authorization":"  [REDACTED_SECRET]","name":"ok"}"#,
        ),
        (
            r#"{"Authorization":"Credential=[CONTROL-U+000A]next=ok","name":"ok"}"#,
            r#"{"Authorization":"[REDACTED_SECRET]","name":"ok"}"#,
        ),
        (
            r#"{"Authorization":"Credential=abcdef"#,
            r#"{"Authorization":"[REDACTED_SECRET]"#,
        ),
    ];

    assert_review_followup_authorization_cases(&cases);
}

#[test]
fn review_followup_authorization_scheme_record_boundaries() {
    let cases = [
        (
            "Authorization: token=Bearer\nnext=ok",
            "Authorization: [REDACTED_SECRET][CONTROL-U+000A]next=ok",
        ),
        (
            "Authorization=Credential=Basic\rnext=ok",
            "Authorization=[REDACTED_SECRET][CONTROL-U+000D]next=ok",
        ),
        (
            "Authorization: token=Bearer\r\nnext=ok",
            "Authorization: [REDACTED_SECRET][CONTROL-U+000D][CONTROL-U+000A]next=ok",
        ),
        (
            "Authorization=token=Basic abcdef\nnext=ok",
            "Authorization=[REDACTED_SECRET][CONTROL-U+000A]next=ok",
        ),
    ];

    assert_review_followup_authorization_cases(&cases);
}

#[test]
fn rejects_missing_ambiguous_or_spoofed_scheme_values() {
    for input in [
        "Basic",
        "Bearer , next=ok",
        "Authorization: Basic",
        "Authorization: Bearer, next=ok",
        "Basic=secret",
        "xBearer secret",
        "Bearerish secret",
        "αBearer secret",
        "Bearerβ secret",
        "Bea[FORMAT-U+200B]rer secret",
    ] {
        let actual = sanitize_external_text(input, 4096).unwrap();
        assert_eq!(actual.as_str(), input, "input {input:?}");
    }
}

#[test]
fn redacts_assignment_shaped_authorization_credentials_on_the_same_record() {
    let cases = [
        (
            "Authorization: ApiKey=abcdef",
            "Authorization: [REDACTED_SECRET]",
        ),
        (
            "Authorization: Credential=abcdef",
            "Authorization: [REDACTED_SECRET]",
        ),
        (
            "Authorization: token = abcdef",
            "Authorization: [REDACTED_SECRET]",
        ),
        (
            "Authorization: token = abcdef next=ok",
            "Authorization: [REDACTED_SECRET] next=ok",
        ),
        (
            "Authorization: ApiKey= abcdef",
            "Authorization: [REDACTED_SECRET]",
        ),
        (
            "Authorization: token=Bearer abcdef",
            "Authorization: [REDACTED_SECRET]",
        ),
        (
            "Authorization: Credential = \"abcdef\"",
            "Authorization: [REDACTED_SECRET]",
        ),
        (
            "Authorization: Credential = \"abcdef\", next=ok",
            "Authorization: [REDACTED_SECRET], next=ok",
        ),
        (
            r#"Authorization: token = \"abcdef\""#,
            "Authorization: [REDACTED_SECRET]",
        ),
        (
            r"Authorization: Credential=\abcdef",
            "Authorization: [REDACTED_SECRET]",
        ),
        (
            "authorization:\tcredential=abcdef",
            "authorization:[CONTROL-U+0009][REDACTED_SECRET]",
        ),
        (
            "Authorization:\nnext=ok",
            "Authorization:[CONTROL-U+000A]next=ok",
        ),
        (
            "Authorization: token=\nnext=ok",
            "Authorization: token=[CONTROL-U+000A]next=ok",
        ),
        (
            "Authorization: token=\nBearer abcdef",
            "Authorization: [REDACTED_SECRET]",
        ),
        (
            "Authorization: token = \r\nnext=ok",
            "Authorization: token = [CONTROL-U+000D][CONTROL-U+000A]next=ok",
        ),
        (
            "Authorization: token=\tnext=ok",
            "Authorization: [REDACTED_SECRET]",
        ),
        (
            "Authorization: token=[CONTROL-U+000A]next=ok",
            "Authorization: [REDACTED_SECRET]",
        ),
        (
            "Authorization:\r\nnext=ok",
            "Authorization:[CONTROL-U+000D][CONTROL-U+000A]next=ok",
        ),
    ];

    for (input, expected) in cases {
        let neutralized_bytes = neutralize_external_text(input, 4096)
            .unwrap()
            .as_str()
            .len();
        let required_bytes = neutralized_bytes.max(expected.len());
        assert_eq!(
            sanitize_external_text(input, required_bytes)
                .unwrap_or_else(|error| panic!("input {input:?}: {}", error.message()))
                .as_str(),
            expected,
            "input {input:?}"
        );
        assert_eq!(
            sanitize_external_text(input, required_bytes - 1),
            Err(SanitizeError::OutputLimitExceeded {
                max_bytes: required_bytes - 1,
            }),
            "input {input:?}"
        );
    }
}

#[test]
fn empty_authorization_preserves_only_provenance_backed_following_assignments() {
    let cases = [
        (
            "Authorization:\nnext=ok",
            "Authorization:[CONTROL-U+000A]next=ok",
        ),
        (
            "Authorization:   next=ok",
            "Authorization:   [REDACTED_SECRET]",
        ),
        (
            "Authorization:\tnext=ok",
            "Authorization:[CONTROL-U+0009][REDACTED_SECRET]",
        ),
        ("--token=\nnext=ok", "--token=[CONTROL-U+000A]next=ok"),
        (
            "Authorization:[CONTROL-U+000A]next=ok",
            "Authorization:[REDACTED_SECRET]",
        ),
        (
            "--token=[CONTROL-U+000A]next=ok",
            "--token=[REDACTED_SECRET]",
        ),
        (
            "Authorization:\nBearer credential",
            "Authorization:[CONTROL-U+000A]Bearer [REDACTED_SECRET]",
        ),
    ];

    for (input, expected) in cases {
        assert_eq!(
            sanitize_external_text(input, input.len().max(expected.len()))
                .unwrap()
                .as_str(),
            expected,
            "input {input:?}"
        );
    }

    let input = "Authorization:\nnext=ok";
    let expected = "Authorization:[CONTROL-U+000A]next=ok";
    assert_eq!(
        sanitize_external_text(input, expected.len() - 1),
        Err(SanitizeError::OutputLimitExceeded {
            max_bytes: expected.len() - 1,
        })
    );
}

#[test]
fn authorization_redaction_is_bounded_on_repeated_nonmatches() {
    let expected = "Bearer [REDACTED_SECRET]";
    assert_eq!(
        sanitize_external_text("Bearer x", expected.len())
            .unwrap()
            .as_str(),
        expected
    );
    assert_eq!(
        sanitize_external_text("Bearer x", expected.len() - 1),
        Err(SanitizeError::OutputLimitExceeded {
            max_bytes: expected.len() - 1,
        })
    );

    let input = "basicish bearerish authorizationish ".repeat(10_000);
    let actual = sanitize_external_text(&input, input.len()).unwrap();
    assert_eq!(actual.as_str(), input);
}

#[test]
fn redacts_documented_provider_and_jwt_token_shapes() {
    // Sources: docs.github.com/.../about-authentication-to-github#githubs-token-formats,
    // docs.gitlab.com/security/tokens/#token-prefixes, and
    // github.blog/changelog/2021-09-23-npm-has-a-new-access-token-format/.
    // Payload lengths and `sk-` are this sanitizer's explicit bounded v1 contract.
    for (prefix, minimum, allow_dot) in provider_token_prefixes() {
        let mut payload = "A1".repeat(minimum.div_ceil(2));
        if allow_dot {
            payload.insert(minimum / 2, '.');
        }
        let input = format!("before {prefix}{payload}, after");
        let expected = "before [REDACTED_SECRET], after";
        let actual = sanitize_external_text(&input, 4096).unwrap();
        assert_eq!(actual.as_str(), expected);
    }

    // rfc-editor.org/rfc/rfc7519.html: JWS compact form has three base64url parts.
    let jwt = "eyJhbGciOiJIUzI1NiJ9.e30.c2lnbmF0dXJlMDEyMzQ1Njc4OTA";
    let actual = sanitize_external_text(jwt, 4096).unwrap();
    assert_eq!(actual.as_str(), "[REDACTED_SECRET]");

    let generic = "Ab1_".repeat(8);
    let actual = sanitize_external_text(&generic, 4096).unwrap();
    assert_eq!(actual.as_str(), "[REDACTED_SECRET]");
}

#[test]
fn preserves_identifiers_and_rejects_token_shape_spoofs() {
    let finding_id = "019f7e95-0000-7000-8000-000000000105";
    let digest = "a".repeat(64);
    let generic = "Ab1_".repeat(8);
    for identifier in [
        finding_id,
        digest.as_str(),
        "F821",
        "sk-linter",
        "ghp_A1A1A1A1A1A1A1A1A1A1",
        generic.as_str(),
    ] {
        let actual = sanitize_identifier_text(identifier, 4096).unwrap();
        assert_eq!(actual.as_str(), identifier);
    }

    for input in [
        finding_id,
        digest.as_str(),
        "sk-linter",
        "ghp_short",
        "a.b.c",
    ] {
        let actual = sanitize_external_text(input, 4096).unwrap();
        assert_eq!(actual.as_str(), input);
    }
    let actual = sanitize_external_text("ghp_A1A1A1A1A1\u{200b}A1A1A1A1A1", 4096).unwrap();
    assert_eq!(actual.as_str(), "ghp_A1A1A1A1A1[FORMAT-U+200B]A1A1A1A1A1");
}

#[test]
fn preserves_repository_relative_path_components_without_weakening_token_redaction() {
    let first = "Ab1_".repeat(8);
    let second = "Cd2-".repeat(8);
    let ambiguous = format!("logs/{first}/trace.txt");
    assert_eq!(
        sanitize_external_text(&ambiguous, 4096).unwrap().as_str(),
        "logs/[REDACTED_SECRET]/trace.txt"
    );
    for path in [
        format!("dist/{first}/bundle.js"),
        format!("資料/{first}/詳細/{second}/mod.rs"),
        format!("{first}/bundle.js"),
        format!("dist/{first}"),
    ] {
        let repo_path: String = path.parse().unwrap();
        let actual = sanitize_repository_path_text(&repo_path, path.len()).unwrap();
        assert_eq!(actual.as_str(), path);
    }

    let path = format!("dist/{first}/bundle.js");
    let repo_path: String = path.parse().unwrap();
    assert_eq!(
        sanitize_repository_path_text(&repo_path, path.len() - 1),
        Err(SanitizeError::OutputLimitExceeded {
            max_bytes: path.len() - 1,
        })
    );

    for input in [
        first.clone(),
        format!("https://example.test/{first}/bundle.js"),
        format!("/dist/{first}/bundle.js"),
        format!("../dist/{first}/bundle.js"),
    ] {
        let actual = sanitize_external_text(&input, 4096).unwrap();
        assert!(actual.as_str().contains("[REDACTED_SECRET]"));
    }

    let provider = format!("dist/ghp_{}/bundle.js", "A1".repeat(10));
    let provider_path: String = provider.parse().unwrap();
    assert_eq!(
        sanitize_repository_path_text(&provider_path, 4096)
            .unwrap()
            .as_str(),
        "dist/[REDACTED_SECRET]/bundle.js"
    );
    let jwt = "eyJhbGciOiJIUzI1NiJ9.e30.c2lnbmF0dXJlMDEyMzQ1Njc4OTA";
    let jwt_path = format!("dist/{jwt}/bundle.js");
    let jwt_repo_path: String = jwt_path.parse().unwrap();
    assert_eq!(
        sanitize_repository_path_text(&jwt_repo_path, 4096)
            .unwrap()
            .as_str(),
        "dist/[REDACTED_SECRET]/bundle.js"
    );

    let repeated = std::iter::repeat_n(first.as_str(), 10_000)
        .collect::<Vec<_>>()
        .join("/");
    let redacted = std::iter::repeat_n("[REDACTED_SECRET]", 10_000)
        .collect::<Vec<_>>()
        .join("/");
    assert_eq!(
        sanitize_external_text(&repeated, repeated.len())
            .unwrap()
            .as_str(),
        redacted
    );
}

#[test]
fn token_scanning_is_bounded_on_long_and_repeated_prefixes() {
    for input in ["A".repeat(31), "A".repeat(129)] {
        assert_eq!(
            sanitize_external_text(&input, 4096).unwrap().as_str(),
            input
        );
    }
    let input = "ghp_short sk-linter not.a.jwt ".repeat(10_000);
    let actual = sanitize_external_text(&input, input.len()).unwrap();
    assert_eq!(actual.as_str(), input);
}

#[test]
fn redacts_every_parsed_unquoted_secret_span() {
    let cases = [
        ("token=secret next=ok", "token=[REDACTED_SECRET] next=ok"),
        (
            "--client-secret tiny rest",
            "--client-secret [REDACTED_SECRET] rest",
        ),
        ("token=foo\\ bar tail", "token=[REDACTED_SECRET] tail"),
        ("token=trailing\\", "token=[REDACTED_SECRET]"),
        ("token\t=secret", "token[CONTROL-U+0009]=[REDACTED_SECRET]"),
        ("token\u{2003}=secret", "token\u{2003}=[REDACTED_SECRET]"),
        ("token=secret\nnext=ok", "token=[REDACTED_SECRET]"),
        (
            "token=one name=ok api_key=two;done",
            "token=[REDACTED_SECRET] name=ok api_key=[REDACTED_SECRET];done",
        ),
        ("日本 token=秘密 rest", "日本 token=[REDACTED_SECRET] rest"),
    ];
    for (input, expected) in cases {
        assert_eq!(
            sanitize_external_text(input, 4096).unwrap().as_str(),
            expected,
            "input {input:?}"
        );
    }
}

#[test]
fn literal_control_marker_secret_separators_fail_closed() {
    let cases = [
        (
            "token[CONTROL-U+0009]=secret",
            "token[CONTROL-U+0009]=[REDACTED_SECRET]",
        ),
        (
            "--token[CONTROL-U+0009]secret",
            "--token[CONTROL-U+0009][REDACTED_SECRET]",
        ),
        (
            "--token[CONTROL-U+000A]next=ok",
            "--token[CONTROL-U+000A][REDACTED_SECRET]",
        ),
        ("token=[CONTROL-U+000A]next=ok", "token=[REDACTED_SECRET]"),
        ("--token\nnext=ok", "--token[CONTROL-U+000A]next=ok"),
    ];

    for (input, expected) in cases {
        let neutralized_bytes = neutralize_external_text(input, 4096)
            .unwrap()
            .as_str()
            .len();
        let required_bytes = neutralized_bytes.max(expected.len());
        assert_eq!(
            sanitize_external_text(input, required_bytes)
                .unwrap_or_else(|error| panic!("input {input:?}: {}", error.message()))
                .as_str(),
            expected,
            "input {input:?}"
        );
        assert_eq!(
            sanitize_external_text(input, required_bytes - 1),
            Err(SanitizeError::OutputLimitExceeded {
                max_bytes: required_bytes - 1,
            }),
            "input {input:?}"
        );
    }
}

#[test]
fn mixed_provenance_and_literal_secret_separators_fail_closed() {
    let cases = [
        (
            "token\t[CONTROL-U+0009]=secret",
            "token[CONTROL-U+0009][CONTROL-U+0009]=[REDACTED_SECRET]",
        ),
        (
            "api_key \r[CONTROL-U+000D]:secret",
            "api_key [CONTROL-U+000D][CONTROL-U+000D]:[REDACTED_SECRET]",
        ),
        (
            "--token\t[CONTROL-U+0009]secret",
            "--token[CONTROL-U+0009][CONTROL-U+0009][REDACTED_SECRET]",
        ),
        (
            "--token\t[CONTROL-U+0009]=secret",
            "--token[CONTROL-U+0009][CONTROL-U+0009]=[REDACTED_SECRET]",
        ),
        (
            "--token\r[CONTROL-U+000D]:secret",
            "--token[CONTROL-U+000D][CONTROL-U+000D]:[REDACTED_SECRET]",
        ),
        (
            "--token[CONTROL-U+0009]=secret",
            "--token[CONTROL-U+0009]=[REDACTED_SECRET]",
        ),
        ("--token\t=secret", "--token[CONTROL-U+0009]=secret"),
        (
            "--token\t[CONTROL-U+0009]=\nnext=ok",
            "--token[CONTROL-U+0009][CONTROL-U+0009]=[CONTROL-U+000A]next=ok",
        ),
        (
            "--token\t[CONTROL-U+0009]=",
            "--token[CONTROL-U+0009][CONTROL-U+0009]=",
        ),
        (
            "--token\n[CONTROL-U+000A]next=ok",
            "--token[CONTROL-U+000A][CONTROL-U+000A][REDACTED_SECRET]",
        ),
        (
            "token\t[CONTROL-U+0009][CONTROL-U+000D]=secret",
            "token[CONTROL-U+0009][CONTROL-U+0009][CONTROL-U+000D]=[REDACTED_SECRET]",
        ),
    ];

    for (input, expected) in cases {
        let required_bytes = neutralize_external_text(input, 4096)
            .unwrap()
            .as_str()
            .len()
            .max(expected.len());
        assert_eq!(
            sanitize_external_text(input, required_bytes)
                .unwrap_or_else(|error| panic!("input {input:?}: {}", error.message()))
                .as_str(),
            expected,
            "input {input:?}"
        );
        assert_eq!(
            sanitize_external_text(input, required_bytes - 1),
            Err(SanitizeError::OutputLimitExceeded {
                max_bytes: required_bytes - 1,
            }),
            "bound for {input:?}"
        );
    }
}

#[test]
fn redaction_obeys_delimiter_parity_and_exact_output_bound() {
    for delimiter in [' ', ',', ';', '&'] {
        for slash_count in 0..=4 {
            let slashes = "\\".repeat(slash_count);
            let input = format!("token=value{slashes}{delimiter}tail");
            let expected = if slash_count % 2 == 0 {
                format!("token=[REDACTED_SECRET]{delimiter}tail")
            } else {
                "token=[REDACTED_SECRET]".to_owned()
            };
            assert_eq!(
                sanitize_external_text(&input, expected.len())
                    .unwrap()
                    .as_str(),
                expected
            );
        }
    }

    let expected = "token=[REDACTED_SECRET]";
    assert_eq!(
        sanitize_external_text("token=x", expected.len())
            .unwrap()
            .as_str(),
        expected
    );
    assert_eq!(
        sanitize_external_text("token=x", expected.len() - 1),
        Err(SanitizeError::OutputLimitExceeded {
            max_bytes: expected.len() - 1,
        })
    );
}

#[test]
fn escaped_ascii_delimiters_use_backslash_parity() {
    for delimiter in [' ', ',', ';', '&'] {
        for slash_count in 0..=4 {
            let slashes = "\\".repeat(slash_count);
            let input = format!("token=value{slashes}{delimiter}tail");
            let (_, end) = unquoted_secret_at(&input, 0).unwrap();
            let expected_end = if slash_count % 2 == 0 {
                input.find(delimiter).unwrap()
            } else {
                input.len()
            };
            assert_eq!(end, expected_end, "input {input:?}");
        }
    }
}

#[test]
fn repeated_nonsecret_assignments_are_preserved() {
    let input = "name=value;".repeat(10_000);
    let actual = sanitize_external_text(&input, input.len()).unwrap();
    assert_eq!(actual.as_str(), input);
}

#[test]
fn marker_normalized_following_assignments_preserve_only_bounded_provenance() {
    for (input, expected) in [
        (
            "token= api\u{200b}key=public",
            "token= api[FORMAT-U+200B]key=public",
        ),
        (
            "token= client\u{202e}id=public",
            "token= client[BIDI-U+202E]id=public",
        ),
        (
            "token= api[FORMAT-U+200B]key=public",
            "token= [REDACTED_SECRET]",
        ),
        (
            "token= client[BIDI-U+202E]id=public",
            "token= [REDACTED_SECRET]",
        ),
    ] {
        assert_eq!(
            sanitize_external_text(input, 4096).unwrap().as_str(),
            expected,
            "input {input:?}"
        );
    }

    let eight_markers = format!("token= a{}key=public", "\u{200b}".repeat(8));
    let eight_expected = format!("token= a{}key=public", "[FORMAT-U+200B]".repeat(8));
    assert_eq!(
        sanitize_external_text(&eight_markers, 4096)
            .unwrap()
            .as_str(),
        eight_expected
    );

    let exact_span = format!("token= {}\u{200b}key=public", "a".repeat(241));
    let exact_expected = format!("token= {}[FORMAT-U+200B]key=public", "a".repeat(241));
    assert_eq!(
        sanitize_external_text(&exact_span, 4096).unwrap().as_str(),
        exact_expected
    );

    for input in [
        format!("token= a{}key=public", "\u{200b}".repeat(9)),
        format!("token= {}\u{200b}key=public", "a".repeat(242)),
    ] {
        assert_eq!(
            sanitize_external_text(&input, 4096).unwrap().as_str(),
            "token= [REDACTED_SECRET]"
        );
    }
}

#[test]
fn markers_tell_what_they_replace() {
    let given = "a\tb\u{202e}\u{e0001}c[CONTROL-U+0009]\u{7f}";
    let neutral = neutralize_external_text(given, 4096).unwrap();
    let mut text = neutral.as_str().to_owned();
    assert_eq!(neutral.markers.len(), 4);
    for marker in neutral.markers.iter().rev() {
        let replaced = char::from_u32(marker.code_point).unwrap();
        text.replace_range(marker.start..marker.end, &replaced.to_string());
    }
    assert_eq!(text, given);
}
