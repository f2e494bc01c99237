use dwctl::organizations::{
    admits_by_domain, approved_user, domain_pattern, id_set, manage_keys_statement,
    organization_response, organization_roles, organization_update_columns, refreshed_invite,
    scrubbed_email, scrubbed_username, OrganizationFilter, OrganizationRow,
    OrganizationUpdateDBRequest, Role,
};
use dwctl::time::Timestamp;

#[test]
fn organization_filters_look_among_organizations() {
    let users = OrganizationFilter::new(1, 2).with_search("acme".to_string()).to_user_filter();
    assert_eq!((users.skip, users.limit, users.user_type), (1, 2, "organization"));
    assert_eq!(users.search.as_deref(), Some("acme"));
    assert_eq!(OrganizationFilter::new(0, 1).to_user_filter().search, None);
}

#[test]
fn organizations_are_standard_users_in_any_case() {
    let names = |roles: Vec<Role>| -> Vec<String> {
        organization_roles(&roles)
            .into_iter()
            .map(|r| match r {
                Role::StandardUser => "standard".to_string(),
                Role::Named(n) => n,
            })
            .collect()
    };
    assert_eq!(names(vec![]), vec!["standard"]);
    assert_eq!(names(vec![Role::Named("batch".to_string())]), vec!["batch", "standard"]);
    assert_eq!(
        names(vec![Role::StandardUser, Role::Named("batch".to_string())]),
        vec!["standard", "batch"]
    );
}

#[test]
fn organizations_never_log_in() {
    let time = Timestamp { secs: 1, nanos: 2 };
    let row = OrganizationRow::<f32> {
        id: 1,
        username: "acme.com~1".to_string(),
        email: "a@acme.com".to_string(),
        display_name: Some("Acme".to_string()),
        avatar_url: None,
        auth_source: "organization".to_string(),
        created_at: time,
        updated_at: time,
        is_admin: false,
        password_hash: None,
        external_user_id: None,
        payment_provider_id: None,
        batch_notifications_enabled: true,
        first_batch_email_sent: false,
        low_balance_notification_sent: false,
        low_balance_threshold: Some(10.0),
        auto_topup_amount: None,
        auto_topup_threshold: None,
        auto_topup_monthly_limit: None,
        user_type: "organization".to_string(),
        verified: true,
        invoicing_enabled: false,
        zero_data_retention: false,
    };
    let r = organization_response(row, vec![Role::StandardUser]);
    assert!(r.last_login.is_none());
    assert_eq!(r.username, "acme.com~1");
    assert_eq!(r.low_balance_threshold, Some(10.0));
    assert_eq!(r.roles.len(), 1);
}

#[test]
fn thresholds_are_left_cleared_or_set() {
    let update = |threshold: Option<Option<f32>>| OrganizationUpdateDBRequest {
        display_name: Some("n".to_string()),
        avatar_url: None,
        email: None,
        batch_notifications_enabled: Some(false),
        low_balance_threshold: threshold,
        zero_data_retention: None,
    };
    let threshold = |t: Option<Option<f32>>| organization_update_columns(&update(t)).low_balance_threshold;
    assert_eq!(threshold(None), (false, None));
    assert_eq!(threshold(Some(None)), (true, None));
    assert_eq!(threshold(Some(Some(25.0))), (true, Some(25.0)));
    let request = update(None);
    let c = organization_update_columns(&request);
    assert_eq!(c.display_name, Some("n"));
    assert_eq!(c.email, None);
    assert_eq!(c.batch_notifications_enabled, Some(false));
}

#[test]
fn unknown_organizations_admit_nobody() {
    assert!(!admits_by_domain(None));
    assert!(!admits_by_domain(Some(false)));
    assert!(admits_by_domain(Some(true)));
}

#[test]
fn deleted_organizations_are_scrubbed() {
    assert_eq!(scrubbed_username(0xa1), "deleted-00000000-0000-0000-0000-0000000000a1");
    assert_eq!(
        scrubbed_email(0xa1),
        "deleted-00000000-0000-0000-0000-0000000000a1@deleted.local"
    );
}

#[test]
fn keys_are_granted_and_taken_back() {
    assert_eq!(
        manage_keys_statement(true),
        "INSERT INTO organization_member_roles (user_organization_id, role) VALUES ($1, 'manage_keys') ON CONFLICT DO NOTHING"
    );
    assert_eq!(
        manage_keys_statement(false),
        "DELETE FROM organization_member_roles WHERE user_organization_id = $1 AND role = 'manage_keys'"
    );
}

#[test]
fn sets_have_no_repeats() {
    let set = id_set(&vec![3, 1, 3]);
    assert_eq!(set.len(), 2);
    assert!(set.contains(&1) && set.contains(&3));
}

#[test]
fn approvals_and_invites_may_be_gone() {
    assert_eq!(approved_user(None), None);
    assert_eq!(approved_user(Some(None)), None);
    assert_eq!(approved_user(Some(Some(4))), Some(4));
    let email = || "e@x".to_string();
    let role = || "member".to_string();
    assert_eq!(refreshed_invite(Some((Some(email()), role()))), Some((email(), role())));
    assert_eq!(refreshed_invite(Some((None, role()))), None);
    assert_eq!(refreshed_invite(None), None);
}

#[test]
fn domains_are_found_up_to_the_tilde() {
    assert_eq!(domain_pattern("acme.com"), "acme.com~%");
    assert!(!"acme.com.au~1".starts_with(domain_pattern("acme.com").trim_end_matches('%')));
    assert!("acme.com~prod".starts_with(domain_pattern("acme.com").trim_end_matches('%')));
}

#[test]
fn deleted_organizations_do_not_collide() {
    assert_ne!(scrubbed_username(1), scrubbed_username(1 << 127));
    assert_ne!(scrubbed_email(0x10), scrubbed_email(0x01));
}
