use clerkcli::rows::DetailOutcome;
use clerkcli::rows::UserRecord;
use clerkcli::rows::normalize;

fn record(
    id: Option<&str>,
    first_name: Option<Option<&str>>,
    emails: &[&str],
) -> UserRecord {
    UserRecord {
        id: id.map(|s| s.to_string()),
        first_name: first_name.map(|inner| inner.map(|s| s.to_string())),
        emails: emails.iter().map(|s| s.to_string()).collect(),
    }
}

#[test]
fn full_record_is_used_verbatim() {
    let outcome = DetailOutcome::Found(record(
        Some("user_1"),
        Some(Some("Ada")),
        &["ada@example.com", "second@example.com"],
    ));
    let row = normalize("Acme", &outcome);
    assert_eq!(row.org_name, "Acme");
    assert_eq!(row.name, "Ada");
    assert_eq!(row.email, "ada@example.com");
}

#[test]
fn missing_name_field_yields_placeholder() {
    let outcome = DetailOutcome::Found(record(Some("user_1"), None, &["a@x.com"]));
    let row = normalize("Acme", &outcome);
    assert_eq!(row.name, "<no name>");
    assert_eq!(row.email, "a@x.com");
}

#[test]
fn null_name_field_yields_placeholder() {
    let outcome = DetailOutcome::Found(record(Some("user_1"), Some(None), &["a@x.com"]));
    let row = normalize("Acme", &outcome);
    assert_eq!(row.name, "<no name>");
}

#[test]
fn empty_name_yields_placeholder() {
    let outcome = DetailOutcome::Found(record(Some("user_1"), Some(Some("")), &["a@x.com"]));
    let row = normalize("Acme", &outcome);
    assert_eq!(row.name, "<no name>");
}

#[test]
fn empty_email_list_yields_placeholder() {
    let outcome = DetailOutcome::Found(record(Some("user_1"), Some(Some("Ada")), &[]));
    let row = normalize("Acme", &outcome);
    assert_eq!(row.name, "Ada");
    assert_eq!(row.email, "<no email>");
}

#[test]
fn failed_detail_lookup_yields_error_placeholders() {
    let row = normalize("Acme", &DetailOutcome::Failed);
    assert_eq!(row.org_name, "Acme");
    assert_eq!(row.name, "<error fetching name>");
    assert_eq!(row.email, "<error>");
}

#[test]
fn missing_user_id_yields_placeholders_without_lookup() {
    let row = normalize("Acme", &DetailOutcome::MissingId);
    assert_eq!(row.org_name, "Acme");
    assert_eq!(row.name, "<unknown user id>");
    assert_eq!(row.email, "<no email>");
}

#[test]
fn organization_name_is_kept_verbatim_in_every_case() {
    for outcome in [
        DetailOutcome::MissingId,
        DetailOutcome::Failed,
        DetailOutcome::Found(record(None, None, &[])),
    ] {
        let row = normalize("Widgets & Co", &outcome);
        assert_eq!(row.org_name, "Widgets & Co");
        assert!(!row.name.is_empty());
        assert!(!row.email.is_empty());
    }
}
