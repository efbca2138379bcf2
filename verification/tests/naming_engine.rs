use from_row::naming::{rename_all, strip_raw, NamingConvention};

fn conv(s: &str, c: NamingConvention) -> String {
    String::from_utf8(rename_all(&s.as_bytes().to_vec(), c)).unwrap()
}

#[test]
fn snake_case_conversion() {
    assert_eq!(conv("fooBar", NamingConvention::SnakeCase), "foo_bar");
    assert_eq!(conv("FooBar", NamingConvention::SnakeCase), "foo_bar");
    assert_eq!(conv("HTTPServer", NamingConvention::SnakeCase), "http_server");
    assert_eq!(conv("foo_bar", NamingConvention::SnakeCase), "foo_bar");
    assert_eq!(conv("a1B", NamingConvention::SnakeCase), "a1b");
}

#[test]
fn screaming_snake_case_conversion() {
    assert_eq!(conv("fooBar", NamingConvention::ScreamingSnakeCase), "FOO_BAR");
    assert_eq!(conv("foo_bar", NamingConvention::ScreamingSnakeCase), "FOO_BAR");
}

#[test]
fn kebab_case_conversion() {
    assert_eq!(conv("fooBar", NamingConvention::KebabCase), "foo-bar");
    assert_eq!(conv("foo_bar", NamingConvention::KebabCase), "foo-bar");
}

#[test]
fn screaming_kebab_case_conversion() {
    assert_eq!(conv("fooBar", NamingConvention::ScreamingKebabCase), "FOO-BAR");
}

#[test]
fn lower_camel_case_conversion() {
    assert_eq!(conv("foo_bar_baz", NamingConvention::LowerCamelCase), "fooBarBaz");
    assert_eq!(conv("FooBar", NamingConvention::LowerCamelCase), "fooBar");
}

#[test]
fn upper_camel_case_conversion() {
    assert_eq!(conv("foo_bar", NamingConvention::UpperCamelCase), "FooBar");
    assert_eq!(conv("fooBar", NamingConvention::UpperCamelCase), "FooBar");
}

#[test]
fn conversions_are_idempotent_on_samples() {
    let inputs = ["fooBar", "FooBar", "foo_bar", "HTTPServer", "a1B", "a1b", "FOo", "_leading", "x"];
    let conventions = [
        NamingConvention::SnakeCase,
        NamingConvention::ScreamingSnakeCase,
        NamingConvention::KebabCase,
        NamingConvention::ScreamingKebabCase,
        NamingConvention::LowerCamelCase,
        NamingConvention::UpperCamelCase,
    ];
    for s in inputs {
        for c in conventions {
            let once = conv(s, c);
            let twice = conv(&once, c);
            assert_eq!(twice, once, "convention {:?} not idempotent on {:?}", c, s);
        }
    }
}

#[test]
fn strip_raw_prefix() {
    assert_eq!(strip_raw(&b"r#type".to_vec()), b"type".to_vec());
    assert_eq!(strip_raw(&b"name".to_vec()), b"name".to_vec());
    assert_eq!(strip_raw(&b"r#".to_vec()), b"".to_vec());
}
