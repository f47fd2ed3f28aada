use thumbor_core::args::{parse_kv_pair, parse_url, KvPair};

fn url_value(s: &str) -> Result<String, String> {
    parse_url(s).map_err(|e| e.message)
}

fn kv_value(s: &str) -> Result<KvPair, String> {
    parse_kv_pair(s).map_err(|e| e.message())
}

/// The command-line shape of the client tool, for exercising the value
/// parsers the way the tool uses them.
fn opts_command() -> clap::Command {
    let url_arg = clap::Arg::new("URL").required(true).value_parser(url_value);
    clap::Command::new("my_httpie")
        .subcommand_required(true)
        .subcommand(clap::Command::new("get").arg(url_arg.clone()))
        .subcommand(
            clap::Command::new("post").arg(url_arg).arg(
                clap::Arg::new("BODY")
                    .num_args(0..)
                    .value_parser(kv_value),
            ),
        )
}

#[test]
fn parse_url_works() {
    assert!(parse_url("abc").is_err());
    assert!(parse_url("http://abc.xyz").is_ok());
    assert!(parse_url("https://httpbin.org/post").is_ok());
}

#[test]
fn parse_kv_pair_works() {
    assert!(parse_kv_pair("a").is_err());
    assert_eq!(
        parse_kv_pair("a=1").unwrap(),
        KvPair {
            k: "a".into(),
            v: "1".into()
        }
    );

    assert_eq!(
        parse_kv_pair("b=").unwrap(),
        KvPair {
            k: "b".into(),
            v: "".into()
        }
    );
}

#[test]
fn error_if_post_body_not_in_pair() {
    let result = opts_command().try_get_matches_from(vec![
        "my_httpie",
        "post",
        "https://httpbin.org/post",
        "a=1",
        "b",
    ]);
    assert!(result.is_err());
    assert!(result
        .err()
        .unwrap()
        .to_string()
        .starts_with("error: invalid value 'b' for '[BODY]...': Failed to parse b"));
}

#[test]
fn error_if_url_illegal() {
    let result = opts_command().try_get_matches_from(vec!["my_httpie", "post", "abc", "a=1"]);
    assert!(result.is_err());
    assert!(result
        .err()
        .unwrap()
        .to_string()
        .starts_with("error: invalid value 'abc' for '<URL>': relative URL without a base"));
}

#[test]
fn success_parse() {
    let result = opts_command().try_get_matches_from(vec![
        "my_httpie",
        "post",
        "https://httpbin.org/post",
        "a=1",
        "b=2",
    ]);
    assert!(result.is_ok());
    match result.unwrap().subcommand() {
        Some(("post", post)) => {
            assert_eq!(
                post.get_one::<String>("URL").unwrap(),
                "https://httpbin.org/post"
            );
            let body: Vec<KvPair> = post
                .get_many::<KvPair>("BODY")
                .unwrap()
                .cloned()
                .collect();
            assert_eq!(
                body,
                vec![
                    KvPair {
                        k: "a".into(),
                        v: "1".into()
                    },
                    KvPair {
                        k: "b".into(),
                        v: "2".into()
                    }
                ]
            );
        }
        _ => panic!("解析错误"),
    };
}

#[test]
fn kv_pair_takes_text_between_first_and_second_separator() {
    assert_eq!(
        parse_kv_pair("a=1=2").unwrap(),
        KvPair {
            k: "a".into(),
            v: "1".into()
        }
    );
    assert_eq!(
        parse_kv_pair("=x").unwrap(),
        KvPair {
            k: "".into(),
            v: "x".into()
        }
    );
    let err = parse_kv_pair("abc").unwrap_err();
    assert_eq!(err.message(), "Failed to parse abc");
}
