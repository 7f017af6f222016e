//! User records, display rows, and the normalization policy.
//!
//! A `UserRecord` carries what the remote service reports about one user:
//! an optional identifier, a doubly-optional display name (the field may be
//! absent, or present but null), and a list of email addresses. Normalization
//! turns the outcome of a per-user detail lookup into a `DisplayRow` whose
//! three fields are always populated, substituting fixed placeholder text for
//! anything missing or unresolvable.

use vstd::prelude::*;

verus! {

/// What the remote service reports about one user account.
pub struct UserRecord {
    /// The user's identifier; a listing entry may lack one.
    pub id: Option<String>,
    /// Display name: the field may be absent, or present but null.
    pub first_name: Option<Option<String>>,
    /// Email addresses, in the order the service returned them.
    pub emails: Vec<String>,
}

/// Mathematical model of a `UserRecord`.
pub ghost struct UserModel {
    pub id: Option<Seq<char>>,
    pub first_name: Option<Option<Seq<char>>>,
    pub emails: Seq<Seq<char>>,
}

impl DeepView for UserRecord {
    type V = UserModel;

    open spec fn deep_view(&self) -> UserModel {
        UserModel {
            id: self.id.deep_view(),
            first_name: self.first_name.deep_view(),
            emails: self.emails.deep_view(),
        }
    }
}

/// One row of the final listing: always a complete triple.
pub struct DisplayRow {
    pub org_name: String,
    pub name: String,
    pub email: String,
}

/// Mathematical model of a `DisplayRow`.
pub ghost struct RowModel {
    pub org_name: Seq<char>,
    pub name: Seq<char>,
    pub email: Seq<char>,
}

impl DeepView for DisplayRow {
    type V = RowModel;

    open spec fn deep_view(&self) -> RowModel {
        RowModel { org_name: self.org_name@, name: self.name@, email: self.email@ }
    }
}

/// How the per-user detail lookup for one listed user went.
pub enum DetailOutcome {
    /// The listing entry had no user identifier, so no lookup was made.
    MissingId,
    /// The lookup was made and failed.
    Failed,
    /// The lookup succeeded and returned this record.
    Found(UserRecord),
}

/// Mathematical model of a `DetailOutcome`.
pub ghost enum DetailModel {
    MissingId,
    Failed,
    Found { user: UserModel },
}

impl DeepView for DetailOutcome {
    type V = DetailModel;

    open spec fn deep_view(&self) -> DetailModel {
        match self {
            DetailOutcome::MissingId => DetailModel::MissingId,
            DetailOutcome::Failed => DetailModel::Failed,
            DetailOutcome::Found(u) => DetailModel::Found { user: u.deep_view() },
        }
    }
}

/// The display name a record yields: the field's value when it is present
/// and non-empty, the placeholder otherwise.
pub open spec fn spec_display_name(first_name: Option<Option<Seq<char>>>) -> Seq<char> {
    match first_name {
        Option::Some(Option::Some(n)) => if n.len() > 0 {
            n
        } else {
            "<no name>"@
        },
        _ => "<no name>"@,
    }
}

/// The email a record yields: the first address in the list's order, or the
/// placeholder when the list is empty.
pub open spec fn spec_first_email(emails: Seq<Seq<char>>) -> Seq<char> {
    if emails.len() > 0 {
        emails[0]
    } else {
        "<no email>"@
    }
}

/// The row a detail-lookup outcome normalizes to, under `org_name`.
pub open spec fn spec_normalize(org_name: Seq<char>, outcome: DetailModel) -> RowModel {
    match outcome {
        DetailModel::MissingId => RowModel {
            org_name: org_name,
            name: "<unknown user id>"@,
            email: "<no email>"@,
        },
        DetailModel::Failed => RowModel {
            org_name: org_name,
            name: "<error fetching name>"@,
            email: "<error>"@,
        },
        DetailModel::Found { user } => RowModel {
            org_name: org_name,
            name: spec_display_name(user.first_name),
            email: spec_first_email(user.emails),
        },
    }
}

/// Normalizes one detail-lookup outcome into a display row. Total: every
/// outcome, however malformed the record, yields a complete row.
pub fn normalize(org_name: &str, outcome: &DetailOutcome) -> (r: DisplayRow)
    ensures
        r.deep_view() == spec_normalize(org_name@, outcome.deep_view()),
{
    match outcome {
        DetailOutcome::MissingId => DisplayRow {
            org_name: org_name.to_owned(),
            name: "<unknown user id>".to_owned(),
            email: "<no email>".to_owned(),
        },
        DetailOutcome::Failed => DisplayRow {
            org_name: org_name.to_owned(),
            name: "<error fetching name>".to_owned(),
            email: "<error>".to_owned(),
        },
        DetailOutcome::Found(user) => {
            let name: String = match &user.first_name {
                Option::Some(Option::Some(n)) => {
                    if n.as_str().unicode_len() > 0 {
                        n.clone()
                    } else {
                        "<no name>".to_owned()
                    }
                },
                _ => "<no name>".to_owned(),
            };
            let email: String = if user.emails.len() > 0 {
                user.emails[0].clone()
            } else {
                "<no email>".to_owned()
            };
            DisplayRow { org_name: org_name.to_owned(), name, email }
        },
    }
}

/// Normalization is total: whatever the outcome, the resulting row carries
/// the organization name verbatim, its name field is never blank, and each
/// failure case yields exactly its placeholder text.
pub proof fn lemma_normalize_total(org_name: Seq<char>, outcome: DetailModel)
    ensures
        spec_normalize(org_name, outcome).org_name == org_name,
        spec_normalize(org_name, outcome).name.len() > 0,
        outcome is MissingId ==> spec_normalize(org_name, outcome).name == "<unknown user id>"@
            && spec_normalize(org_name, outcome).email == "<no email>"@,
        outcome is Failed ==> spec_normalize(org_name, outcome).name == "<error fetching name>"@
            && spec_normalize(org_name, outcome).email == "<error>"@,
        outcome matches DetailModel::Found { user } ==> (match user.first_name {
            Option::Some(Option::Some(n)) => spec_normalize(org_name, outcome).name == (if n.len()
                > 0 {
                n
            } else {
                "<no name>"@
            }),
            _ => spec_normalize(org_name, outcome).name == "<no name>"@,
        }),
        outcome matches DetailModel::Found { user } ==> (if user.emails.len() > 0 {
            spec_normalize(org_name, outcome).email == user.emails[0]
        } else {
            spec_normalize(org_name, outcome).email == "<no email>"@
        }),
{
    reveal_strlit("<unknown user id>");
    reveal_strlit("<error fetching name>");
    reveal_strlit("<no name>");
    match outcome {
        DetailModel::Found { user } => {
            match user.first_name {
                Option::Some(inner) => {
                    match inner {
                        Option::Some(n) => {
                            assert(spec_normalize(org_name, outcome).name.len() > 0);
                        },
                        Option::None => {},
                    }
                },
                Option::None => {},
            }
        },
        _ => {},
    }
}

} // verus!
