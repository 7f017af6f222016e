use clerkcli::aggregate::OrgOutcome;
use clerkcli::aggregate::aggregate;
use clerkcli::aggregate::emails_of;
use clerkcli::aggregate::rows_for_org;
use clerkcli::aggregate::users_from_listing;
use clerkcli::rows::DetailOutcome;
use clerkcli::rows::UserRecord;

fn found(name: &str, email: &str) -> DetailOutcome {
    DetailOutcome::Found(UserRecord {
        id: Some("user".to_string()),
        first_name: Some(Some(name.to_string())),
        emails: vec![email.to_string()],
    })
}

#[test]
fn two_users_one_failing_detail_and_one_absent_org() {
    let orgs = vec![
        OrgOutcome::Verified {
            name: "Acme".to_string(),
            outcomes: vec![found("Ada", "ada@example.com"), DetailOutcome::Failed],
        },
        OrgOutcome::Absent,
    ];
    let rows = aggregate(&orgs);
    assert_eq!(rows.len(), 2);
    assert_eq!(rows[0].org_name, "Acme");
    assert_eq!(rows[0].name, "Ada");
    assert_eq!(rows[0].email, "ada@example.com");
    assert_eq!(rows[1].org_name, "Acme");
    assert_eq!(rows[1].name, "<error fetching name>");
    assert_eq!(rows[1].email, "<error>");
}

#[test]
fn verified_org_with_no_users_yields_empty_result() {
    let orgs = vec![OrgOutcome::Verified { name: "Acme".to_string(), outcomes: vec![] }];
    let rows = aggregate(&orgs);
    assert!(rows.is_empty());
}

#[test]
fn absent_org_contributes_no_rows_and_later_orgs_still_appear() {
    let orgs = vec![
        OrgOutcome::Absent,
        OrgOutcome::Verified {
            name: "Beta".to_string(),
            outcomes: vec![found("Bo", "bo@y.com")],
        },
    ];
    let rows = aggregate(&orgs);
    assert_eq!(rows.len(), 1);
    assert_eq!(rows[0].org_name, "Beta");
}

#[test]
fn organization_order_follows_input_order() {
    let orgs = vec![
        OrgOutcome::Verified { name: "One".to_string(), outcomes: vec![found("A", "a@x.com")] },
        OrgOutcome::Absent,
        OrgOutcome::Verified {
            name: "Two".to_string(),
            outcomes: vec![found("B", "b@y.com"), found("C", "c@z.com")],
        },
    ];
    let rows = aggregate(&orgs);
    let names: Vec<&str> = rows.iter().map(|r| r.org_name.as_str()).collect();
    assert_eq!(names, vec!["One", "Two", "Two"]);
}

#[test]
fn one_row_per_listed_user_in_listing_order() {
    let outcomes = vec![
        found("A", "a@x.com"),
        DetailOutcome::MissingId,
        DetailOutcome::Failed,
        found("D", "d@w.com"),
    ];
    let rows = rows_for_org("Acme", &outcomes);
    assert_eq!(rows.len(), 4);
    assert_eq!(rows[0].name, "A");
    assert_eq!(rows[1].name, "<unknown user id>");
    assert_eq!(rows[2].name, "<error fetching name>");
    assert_eq!(rows[3].name, "D");
}

#[test]
fn emails_only_output_matches_rows_in_order() {
    let orgs = vec![
        OrgOutcome::Verified { name: "One".to_string(), outcomes: vec![found("A", "a@x.com")] },
        OrgOutcome::Verified { name: "Two".to_string(), outcomes: vec![found("B", "b@y.com")] },
    ];
    let rows = aggregate(&orgs);
    let emails = emails_of(&rows);
    assert_eq!(emails, vec!["a@x.com".to_string(), "b@y.com".to_string()]);
    assert_eq!(emails.len(), rows.len());
}

#[test]
fn emails_include_placeholder_entries() {
    let outcomes = vec![found("A", "a@x.com"), DetailOutcome::MissingId];
    let rows = rows_for_org("Acme", &outcomes);
    let emails = emails_of(&rows);
    assert_eq!(emails, vec!["a@x.com".to_string(), "<no email>".to_string()]);
}

#[test]
fn failed_listing_is_folded_into_the_empty_list() {
    let users = users_from_listing(None);
    assert!(users.is_empty());
}

#[test]
fn successful_listing_is_passed_through() {
    let fetched = vec![UserRecord {
        id: Some("user_1".to_string()),
        first_name: None,
        emails: vec![],
    }];
    let users = users_from_listing(Some(fetched));
    assert_eq!(users.len(), 1);
    assert_eq!(users[0].id.as_deref(), Some("user_1"));
}

#[test]
fn no_organizations_yield_an_empty_result() {
    let rows = aggregate(&vec![]);
    assert!(rows.is_empty());
    assert!(emails_of(&rows).is_empty());
}
