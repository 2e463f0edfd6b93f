use unpack_rs::config::defaults;
use unpack_rs::config::load_from_lines;
use unpack_rs::config::parse_format_line;
use unpack_rs::errors::BadLine;
use unpack_rs::unpack_format::UnpackFormat;

#[test]
fn test_parse() {
    assert!(parse_format_line("foo").is_err());
    assert!(parse_format_line("foo:").is_err());
    assert!(parse_format_line("foo: ").is_err());
    assert!(parse_format_line("foo: #").is_err());
    assert!(parse_format_line(": bar").is_err());
    let sample = UnpackFormat {
        extension: "x".into(),
        invocation: vec!["y".into(), "z".into()],
    };
    assert_eq!(parse_format_line("x: y z").unwrap(), sample);
    assert_eq!(parse_format_line(" x  :    y   z # aaa ").unwrap(), sample);
}

#[test]
fn test_parse_error_kinds() {
    assert_eq!(parse_format_line("foo").unwrap_err(), BadLine::NoColon);
    assert_eq!(parse_format_line(": bar").unwrap_err(), BadLine::EmptyExtension);
    assert_eq!(parse_format_line("   : bar").unwrap_err(), BadLine::EmptyExtension);
    assert_eq!(parse_format_line("foo:").unwrap_err(), BadLine::EmptyInvocation);
    assert_eq!(parse_format_line("foo:   ").unwrap_err(), BadLine::EmptyInvocation);
    assert_eq!(parse_format_line("foo: # comment").unwrap_err(), BadLine::EmptyInvocation);
}

#[test]
fn test_parse_comment_and_spacing() {
    let f = parse_format_line(".tar.bz2 : tar xfj # bzip2 archives").unwrap();
    assert_eq!(f.extension, ".tar.bz2");
    assert_eq!(f.invocation, vec!["tar".to_string(), "xfj".to_string()]);
}

#[test]
fn test_bad_line_desc() {
    assert_eq!(
        BadLine::NoColon.desc(),
        "bad line in config file: missing colon separating extension from unpack invocation"
    );
    assert_eq!(BadLine::EmptyExtension.desc(), "bad line in config file: no extension given");
    assert_eq!(
        BadLine::EmptyInvocation.desc(),
        "bad line in config file: no invocation given after extension"
    );
}

#[test]
fn test_defaults() {
    let d = defaults();
    assert_eq!(d.len(), 3);
    assert_eq!(d[0].extension, ".zip");
    assert_eq!(d[0].invocation, vec!["unzip".to_string()]);
    assert_eq!(d[1].extension, ".tar.gz");
    assert_eq!(d[1].invocation, vec!["tar".to_string(), "xfz".to_string()]);
    assert_eq!(d[2].extension, ".tar");
    assert_eq!(d[2].invocation, vec!["tar".to_string(), "xf".to_string()]);
}

#[test]
fn test_load_from_lines_sorts() {
    let lines = vec![
        ".gz: gzip -d".to_string(),
        ".tar.gz: tar xfz".to_string(),
        ".zip: unzip".to_string(),
    ];
    let v = load_from_lines(&lines).unwrap();
    assert_eq!(v.len(), 3);
    assert_eq!(v[0].extension, ".tar.gz");
    // Equal lengths keep some order; all three rules are present.
    let mut exts: Vec<&str> = v.iter().map(|f| f.extension.as_str()).collect();
    exts.sort();
    assert_eq!(exts, vec![".gz", ".tar.gz", ".zip"]);
}

#[test]
fn test_load_from_lines_reports_first_bad_line() {
    let lines = vec![
        ".zip: unzip".to_string(),
        "nonsense".to_string(),
        ": also bad".to_string(),
    ];
    let (line, bad) = load_from_lines(&lines).unwrap_err();
    assert_eq!(line, "nonsense");
    assert_eq!(bad, BadLine::NoColon);
}
