use unpack_rs::config::sort_formats;
use unpack_rs::unpack_format::UnpackFormat;

fn fmt(extension: &str, invocation: &[&str]) -> UnpackFormat {
    UnpackFormat {
        extension: extension.to_string(),
        invocation: invocation.iter().map(|s| s.to_string()).collect(),
    }
}

fn some_formats() -> Vec<UnpackFormat> {
    vec![
        fmt(".zip", &["unzip"]),
        fmt(".tar.gz", &["tar", "xfz"]),
        fmt(".tar", &["tar", "xf"]),
        fmt(".gz", &["gzip", "-d"]),
    ]
}

fn find_extension<'a>(formats: &'a Vec<UnpackFormat>, file_name: &str) -> Option<&'a str> {
    let opt_format = UnpackFormat::find(formats, file_name);

    opt_format.map(|x| x.extension.as_ref())
}

#[test]
fn test_handles() {
    let formats = some_formats();
    assert_eq!(find_extension(&formats, "foo.zip"), Some(".zip"));
    assert_eq!(find_extension(&formats, "foo.tar.gz"), Some(".tar.gz"));
    assert_eq!(find_extension(&formats, "foo.gz"), Some(".gz"));
    assert_eq!(find_extension(&formats, ".zip"), None);
}

#[test]
fn test_handles_is_suffix_exact() {
    let rule = fmt(".zip", &["unzip"]);
    assert!(rule.handles("a.zip"));
    assert!(rule.handles("archive.zip"));
    assert!(!rule.handles(".zip"));
    assert!(!rule.handles("zip"));
    assert!(!rule.handles("a.ZIP"));
    assert!(!rule.handles("a.zipx"));
    assert!(!rule.handles("a.zip.tar"));
}

#[test]
fn test_find_no_match() {
    let formats = some_formats();
    assert_eq!(find_extension(&formats, "foo.rar"), None);
    assert_eq!(find_extension(&formats, ""), None);
}

#[test]
fn test_find_returns_first_match() {
    let formats = vec![fmt(".gz", &["gzip", "-d"]), fmt(".gz", &["pigz", "-d"])];
    let found = UnpackFormat::find(&formats, "a.gz").unwrap();
    assert_eq!(found.invocation[0], "gzip");
}

#[test]
fn test_longest_first_resolves_ambiguity() {
    // With the `.gz` rule listed anywhere, sorting longest-first makes the
    // `.tar.gz` rule win for a name that both rules match.
    let unsorted = vec![
        fmt(".gz", &["gzip", "-d"]),
        fmt(".zip", &["unzip"]),
        fmt(".tar.gz", &["tar", "xfz"]),
    ];
    let sorted = sort_formats(unsorted);
    assert_eq!(sorted[0].extension, ".tar.gz");
    assert_eq!(find_extension(&sorted, "x.tar.gz"), Some(".tar.gz"));
    assert_eq!(find_extension(&sorted, "x.gz"), Some(".gz"));
}

#[test]
fn test_sort_formats_orders_by_length_desc() {
    let unsorted = vec![fmt(".a", &["p"]), fmt(".ccc", &["p"]), fmt(".bb", &["p"])];
    let sorted = sort_formats(unsorted);
    let exts: Vec<&str> = sorted.iter().map(|f| f.extension.as_str()).collect();
    assert_eq!(exts, vec![".ccc", ".bb", ".a"]);
}
