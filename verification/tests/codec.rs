use renolock::entry::Entry;

fn entry(value: &str, datasource: &str, dep_name: &str, id: &str) -> Entry {
    Entry::new(
        value.to_string(),
        datasource.to_string(),
        dep_name.to_string(),
        id.to_string(),
    )
}

#[test]
fn test_conversion_entry() {
    let text = "straight=ID depName=DEPNAME datasource=DATASOURCE value=VALUE";
    let e = entry("VALUE", "DATASOURCE", "DEPNAME", "ID");
    let got = Entry::parse(text).unwrap();
    assert_eq!(e, got);
    assert_eq!(text.to_string(), e.serialize());
}

#[test]
fn round_trip_with_spaces_in_values() {
    let e = entry("1.2.3 beta", "github-tags", "owner/some repo", "my id");
    let line = e.serialize();
    let got = Entry::parse(line.as_str()).unwrap();
    assert_eq!(e, got);
}

#[test]
fn serialize_exact_line() {
    let e = entry("v1.0.0", "github-tags", "owner/repo", "dep");
    assert_eq!(
        e.serialize(),
        "straight=dep depName=owner/repo datasource=github-tags value=v1.0.0".to_string()
    );
}

#[test]
fn parse_rejects_missing_label() {
    let line = "straight=ID depName=DEPNAME value=VALUE";
    let err = Entry::parse(line).unwrap_err();
    assert_eq!(err.0, line.to_string());
}

#[test]
fn parse_rejects_wrong_label_order() {
    let line = "depName=DEPNAME straight=ID datasource=DATASOURCE value=VALUE";
    assert!(Entry::parse(line).is_err());
}

#[test]
fn parse_rejects_empty_field() {
    assert!(Entry::parse("straight= depName=D datasource=S value=V").is_err());
    assert!(Entry::parse("straight=I depName=D datasource=S value=").is_err());
}

#[test]
fn parse_getters() {
    let got = Entry::parse("straight=a depName=b datasource=c value=d").unwrap();
    assert_eq!(got.get_id(), "a".to_string());
    assert_eq!(got.get_value(), "d".to_string());
    assert!(got.has_id("a"));
    assert!(!got.has_id("b"));
}
