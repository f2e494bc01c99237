//! Organizations and who belongs to them.
//!
//! An organization is a user of type `organization`. Thresholds and top-up sums
//! (`L`) are stored and carried through as they are.

use std::collections::HashSet;
use vstd::prelude::*;
use crate::ids::{id_digits, id_text};
use crate::names::{borrowed, str_or_none, text_or_none};
use crate::query::flagged;
use crate::deployments::is_flagged;
use crate::time::Timestamp;

verus! {

broadcast use vstd::std_specs::hash::group_hash_axioms;

/// What a list of organizations is narrowed to.
#[derive(Debug)]
pub struct OrganizationFilter {
    pub skip: i64,
    pub limit: i64,
    pub search: Option<String>,
}

/// What a list of users is narrowed to.
#[derive(Debug)]
pub struct UserFilter {
    pub skip: i64,
    pub limit: i64,
    pub user_type: &'static str,
    pub search: Option<String>,
}

impl OrganizationFilter {
    /// A page of all organizations.
    pub fn new(skip: i64, limit: i64) -> (r: OrganizationFilter)
        ensures
            r == (OrganizationFilter { skip, limit, search: None }),
    {
        OrganizationFilter { skip, limit, search: None }
    }

    /// Narrows to organizations in which a text is found.
    pub fn with_search(self, search: String) -> (r: OrganizationFilter)
        ensures
            r == (OrganizationFilter { search: Some(search), ..self }),
    {
        let mut filter = self;
        filter.search = Some(search);
        filter
    }

    /// The users that a filter for organizations is about: the same page and
    /// search, among organizations only.
    pub fn to_user_filter(&self) -> (r: UserFilter)
        ensures
            r.skip == self.skip,
            r.limit == self.limit,
            r.user_type@ == "organization"@,
            text_or_none(r.search) == text_or_none(self.search),
    {
        let search: Option<String> = match &self.search {
            Some(s) => Some(s.clone()),
            None => None,
        };
        UserFilter { skip: self.skip, limit: self.limit, user_type: "organization", search }
    }
}

/// What a user may do.
#[derive(Debug)]
pub enum Role {
    StandardUser,
    /// Any other role, by name.
    Named(String),
}

/// Whether two roles are the same.
pub open spec fn same_role(a: Role, b: Role) -> bool {
    match (a, b) {
        (Role::StandardUser, Role::StandardUser) => true,
        (Role::Named(x), Role::Named(y)) => x@ == y@,
        _ => false,
    }
}

/// The roles of a new organization: the given ones in order, and that of a
/// standard user in any case.
pub fn organization_roles(default_roles: &Vec<Role>) -> (r: Vec<Role>)
    ensures
        forall|i: int|
            0 <= i < default_roles@.len() ==> same_role(#[trigger] r@[i], default_roles@[i]),
        if default_roles@.contains(Role::StandardUser) {
            r@.len() == default_roles@.len()
        } else {
            r@.len() == default_roles@.len() + 1 && r@[r@.len() - 1] == Role::StandardUser
        },
        r@.contains(Role::StandardUser),
{
    let mut roles: Vec<Role> = Vec::new();
    let mut standard: bool = false;
    let mut i: usize = 0;
    while i < default_roles.len()
        invariant
            i <= default_roles@.len(),
            roles@.len() == i,
            forall|j: int| 0 <= j < i ==> same_role(#[trigger] roles@[j], default_roles@[j]),
            standard <==> exists|j: int|
                0 <= j < i && #[trigger] default_roles@[j] == Role::StandardUser,
        decreases default_roles@.len() - i,
    {
        match &default_roles[i] {
            Role::StandardUser => {
                standard = true;
                roles.push(Role::StandardUser);
                assert(default_roles@[i as int] == Role::StandardUser);
            },
            Role::Named(name) => {
                roles.push(Role::Named(name.clone()));
            },
        }
        i = i + 1;
    }
    if !standard {
        roles.push(Role::StandardUser);
        assert(roles@[roles@.len() - 1] == Role::StandardUser);
    } else {
        let ghost k = choose|j: int|
            0 <= j < default_roles@.len() && #[trigger] default_roles@[j] == Role::StandardUser;
        assert(same_role(roles@[k], default_roles@[k]));
        assert(roles@[k] == Role::StandardUser);
    }
    roles
}

/// An organization's row in the table of users.
#[derive(Debug)]
pub struct OrganizationRow<L> {
    pub id: u128,
    pub username: String,
    pub email: String,
    pub display_name: Option<String>,
    pub avatar_url: Option<String>,
    pub auth_source: String,
    pub created_at: Timestamp,
    pub updated_at: Timestamp,
    pub is_admin: bool,
    pub password_hash: Option<String>,
    pub external_user_id: Option<String>,
    pub payment_provider_id: Option<String>,
    pub batch_notifications_enabled: bool,
    pub first_batch_email_sent: bool,
    pub low_balance_notification_sent: bool,
    pub low_balance_threshold: Option<L>,
    pub auto_topup_amount: Option<L>,
    pub auto_topup_threshold: Option<L>,
    pub auto_topup_monthly_limit: Option<L>,
    pub user_type: String,
    pub verified: bool,
    pub invoicing_enabled: bool,
    pub zero_data_retention: bool,
}

/// A user as handed out.
#[derive(Debug)]
pub struct UserDBResponse<L> {
    pub id: u128,
    pub username: String,
    pub email: String,
    pub display_name: Option<String>,
    pub avatar_url: Option<String>,
    pub created_at: Timestamp,
    pub updated_at: Timestamp,
    pub last_login: Option<Timestamp>,
    pub auth_source: String,
    pub is_admin: bool,
    pub roles: Vec<Role>,
    pub password_hash: Option<String>,
    pub external_user_id: Option<String>,
    pub payment_provider_id: Option<String>,
    pub batch_notifications_enabled: bool,
    pub first_batch_email_sent: bool,
    pub low_balance_notification_sent: bool,
    pub low_balance_threshold: Option<L>,
    pub auto_topup_amount: Option<L>,
    pub auto_topup_threshold: Option<L>,
    pub auto_topup_monthly_limit: Option<L>,
    pub user_type: String,
    pub verified: bool,
    pub invoicing_enabled: bool,
    pub zero_data_retention: bool,
}

/// An organization as handed out, with its roles. Organizations never log in.
pub fn organization_response<L>(row: OrganizationRow<L>, roles: Vec<Role>) -> (r: UserDBResponse<L>)
    ensures
        r == (UserDBResponse {
            id: row.id,
            username: row.username,
            email: row.email,
            display_name: row.display_name,
            avatar_url: row.avatar_url,
            created_at: row.created_at,
            updated_at: row.updated_at,
            last_login: None,
            auth_source: row.auth_source,
            is_admin: row.is_admin,
            roles,
            password_hash: row.password_hash,
            external_user_id: row.external_user_id,
            payment_provider_id: row.payment_provider_id,
            batch_notifications_enabled: row.batch_notifications_enabled,
            first_batch_email_sent: row.first_batch_email_sent,
            low_balance_notification_sent: row.low_balance_notification_sent,
            low_balance_threshold: row.low_balance_threshold,
            auto_topup_amount: row.auto_topup_amount,
            auto_topup_threshold: row.auto_topup_threshold,
            auto_topup_monthly_limit: row.auto_topup_monthly_limit,
            user_type: row.user_type,
            verified: row.verified,
            invoicing_enabled: row.invoicing_enabled,
            zero_data_retention: row.zero_data_retention,
        }),
{
    UserDBResponse {
        id: row.id,
        username: row.username,
        email: row.email,
        display_name: row.display_name,
        avatar_url: row.avatar_url,
        created_at: row.created_at,
        updated_at: row.updated_at,
        last_login: None,
        auth_source: row.auth_source,
        is_admin: row.is_admin,
        roles,
        password_hash: row.password_hash,
        external_user_id: row.external_user_id,
        payment_provider_id: row.payment_provider_id,
        batch_notifications_enabled: row.batch_notifications_enabled,
        first_batch_email_sent: row.first_batch_email_sent,
        low_balance_notification_sent: row.low_balance_notification_sent,
        low_balance_threshold: row.low_balance_threshold,
        auto_topup_amount: row.auto_topup_amount,
        auto_topup_threshold: row.auto_topup_threshold,
        auto_topup_monthly_limit: row.auto_topup_monthly_limit,
        user_type: row.user_type,
        verified: row.verified,
        invoicing_enabled: row.invoicing_enabled,
        zero_data_retention: row.zero_data_retention,
    }
}

/// A change of an organization. An absent field leaves its column alone; an empty
/// threshold clears it.
#[derive(Debug)]
pub struct OrganizationUpdateDBRequest<L> {
    pub display_name: Option<String>,
    pub avatar_url: Option<String>,
    pub email: Option<String>,
    pub batch_notifications_enabled: Option<bool>,
    pub low_balance_threshold: Option<Option<L>>,
    pub zero_data_retention: Option<bool>,
}

/// The parameters of an update. The flag of the threshold also says whether the
/// balance is to be reported again.
#[derive(Debug)]
pub struct OrganizationUpdateColumns<'a, L> {
    pub display_name: Option<&'a str>,
    pub avatar_url: Option<&'a str>,
    pub email: Option<&'a str>,
    pub batch_notifications_enabled: Option<bool>,
    pub low_balance_threshold: (bool, Option<L>),
    pub zero_data_retention: Option<bool>,
}

/// The parameters of an update.
pub fn organization_update_columns<'a, L: Copy>(
    request: &'a OrganizationUpdateDBRequest<L>,
) -> (r: OrganizationUpdateColumns<'a, L>)
    ensures
        str_or_none(r.display_name) == text_or_none(request.display_name),
        str_or_none(r.avatar_url) == text_or_none(request.avatar_url),
        str_or_none(r.email) == text_or_none(request.email),
        r.batch_notifications_enabled == request.batch_notifications_enabled,
        is_flagged(r.low_balance_threshold, request.low_balance_threshold),
        r.zero_data_retention == request.zero_data_retention,
{
    OrganizationUpdateColumns {
        display_name: borrowed(&request.display_name),
        avatar_url: borrowed(&request.avatar_url),
        email: borrowed(&request.email),
        batch_notifications_enabled: request.batch_notifications_enabled,
        low_balance_threshold: flagged(request.low_balance_threshold),
        zero_data_retention: request.zero_data_retention,
    }
}

/// Whether an organization admits signups from its domain. One that is not there
/// admits none.
pub fn admits_by_domain(stored: Option<bool>) -> (r: bool)
    ensures
        r == (stored == Some(true)),
{
    match stored {
        Some(enabled) => enabled,
        None => false,
    }
}

/// The name that a deleted organization is left with.
pub open spec fn scrubbed_name(id: u128) -> Seq<char> {
    "deleted-"@ + id_digits(id)
}

/// The name that a deleted organization is left with.
pub fn scrubbed_username(id: u128) -> (r: String)
    ensures
        r@ == scrubbed_name(id),
{
    "deleted-".to_owned().concat(id_text(id).as_str())
}

/// The address that a deleted organization is left with.
pub open spec fn scrubbed_address(id: u128) -> Seq<char> {
    scrubbed_name(id) + "@deleted.local"@
}

/// The address that a deleted organization is left with.
pub fn scrubbed_email(id: u128) -> (r: String)
    ensures
        r@ == scrubbed_address(id),
{
    scrubbed_username(id).concat("@deleted.local")
}

/// Deleted organizations are left with different names and addresses, so that
/// deleting one never collides with another.
pub proof fn law_scrubbed_names_differ(a: u128, b: u128)
    requires
        scrubbed_name(a) == scrubbed_name(b) || scrubbed_address(a) == scrubbed_address(b),
    ensures
        a == b,
{
    let front = "deleted-"@;
    let n = front.len() as int;
    assert(scrubbed_name(a) =~= scrubbed_address(a).take(n + 36));
    assert(scrubbed_name(b) =~= scrubbed_address(b).take(n + 36));
    assert(id_digits(a) =~= scrubbed_name(a).skip(n));
    assert(id_digits(b) =~= scrubbed_name(b).skip(n));
    crate::ids::law_id_digits_differ(a, b);
}

/// The statement that grants a member the keys of an organization, or takes them
/// back.
pub fn manage_keys_statement(granted: bool) -> (r: &'static str)
    ensures
        r@ == (if granted {
            "INSERT INTO organization_member_roles (user_organization_id, role) VALUES ($1, 'manage_keys') ON CONFLICT DO NOTHING"@
        } else {
            "DELETE FROM organization_member_roles WHERE user_organization_id = $1 AND role = 'manage_keys'"@
        }),
{
    if granted {
        "INSERT INTO organization_member_roles (user_organization_id, role) VALUES ($1, 'manage_keys') ON CONFLICT DO NOTHING"
    } else {
        "DELETE FROM organization_member_roles WHERE user_organization_id = $1 AND role = 'manage_keys'"
    }
}

/// Identifiers without order or repeats.
pub fn id_set(ids: &Vec<u128>) -> (r: HashSet<u128>)
    ensures
        r@ == ids@.to_set(),
{
    let mut out: HashSet<u128> = HashSet::new();
    let mut i: usize = 0;
    assert(ids@.take(0).to_set() =~= Set::<u128>::empty());
    while i < ids.len()
        invariant
            i <= ids@.len(),
            out@ == ids@.take(i as int).to_set(),
        decreases ids@.len() - i,
    {
        let ghost before = out@;
        out.insert(ids[i]);
        assert(ids@.take(i + 1) =~= ids@.take(i as int).push(ids@[i as int]));
        assert(ids@.take(i + 1).to_set() =~= before.insert(ids@[i as int])) by {
            let longer = ids@.take(i + 1);
            let shorter = ids@.take(i as int);
            assert forall|x: u128| longer.to_set().contains(x) <==> before.insert(
                ids@[i as int],
            ).contains(x) by {
                if shorter.contains(x) {
                    let k = choose|k: int| 0 <= k < shorter.len() && shorter[k] == x;
                    assert(longer[k] == x);
                }
                assert(longer[i as int] == ids@[i as int]);
                if longer.contains(x) {
                    let k = choose|k: int| 0 <= k < longer.len() && longer[k] == x;
                    if k < i {
                        assert(shorter[k] == x);
                    }
                }
            }
        }
        i = i + 1;
    }
    assert(ids@.take(ids@.len() as int) =~= ids@);
    out
}

/// The user whose request to join was approved. A request that is gone or decided
/// gives none.
pub fn approved_user(row: Option<Option<u128>>) -> (r: Option<u128>)
    ensures
        r == (match row {
            Some(user) => user,
            None => None,
        }),
{
    match row {
        Some(user) => user,
        None => None,
    }
}

/// The address and role of an invite that was sent anew. One that is not pending,
/// or has no address, gives none.
pub fn refreshed_invite(row: Option<(Option<String>, String)>) -> (r: Option<(String, String)>)
    ensures
        r == (match row {
            Some((Some(email), role)) => Some((email, role)),
            _ => None,
        }),
{
    match row {
        Some((Some(email), role)) => Some((email, role)),
        _ => None,
    }
}

/// The pattern of the usernames that organizations of a domain have: the domain,
/// a `~`, which no domain holds, and a suffix.
pub fn domain_pattern(domain: &str) -> (r: String)
    ensures
        r@ == domain@ + "~%"@,
{
    domain.to_owned().concat("~%")
}

/// Whether a text is like a pattern, as SQL means it: `%` stands for any text, `_`
/// for any character, and a backslash for the character behind it.
pub open spec fn is_like(text: Seq<char>, pattern: Seq<char>) -> bool
    decreases pattern.len(), text.len(),
{
    if pattern.len() == 0 {
        text.len() == 0
    } else if pattern[0] == '%' {
        is_like(text, pattern.drop_first()) || (text.len() > 0 && is_like(
            text.drop_first(),
            pattern,
        ))
    } else if text.len() == 0 {
        false
    } else if pattern[0] == '_' {
        is_like(text.drop_first(), pattern.drop_first())
    } else if pattern[0] == '\\' {
        pattern.len() > 1 && text[0] == pattern[1] && is_like(text.drop_first(), pattern.skip(2))
    } else {
        text[0] == pattern[0] && is_like(text.drop_first(), pattern.drop_first())
    }
}

/// Whether a text stands for itself in a pattern.
pub open spec fn is_literal(s: Seq<char>) -> bool {
    !s.contains('%') && !s.contains('_') && !s.contains('\\')
}

/// Whether the username of an organization is found by a domain: it is the domain
/// alone, or like the domain's pattern.
pub open spec fn is_of_domain(username: Seq<char>, domain: Seq<char>) -> bool {
    username == domain || is_like(username, domain + "~%"@)
}

/// A username is found by a domain exactly if it is the domain, alone or with a
/// `~` behind it: `acme.com` finds no organization of `acme.com.au`.
pub proof fn law_domain_match_is_exact(username: Seq<char>, domain: Seq<char>)
    requires
        is_literal(domain),
    ensures
        is_of_domain(username, domain) <==> (username == domain || (domain + "~"@).is_prefix_of(
            username,
        )),
{
    reveal_strlit("~%");
    reveal_strlit("~");
    let front = domain + "~"@;
    assert(domain + "~%"@ =~= front + seq!['%']);
    assert(is_literal(front)) by {
        assert forall|c: char| front.contains(c) implies domain.contains(c) || c == '~' by {
            let i = choose|i: int| 0 <= i < front.len() && front[i] == c;
            if i < domain.len() {
                assert(domain[i] == c);
            }
        }
    }
    lemma_like_prefix(username, front);
}

/// An organization is found by one domain at most.
pub proof fn law_username_has_one_domain(username: Seq<char>, a: Seq<char>, b: Seq<char>)
    requires
        is_literal(a),
        is_literal(b),
        !a.contains('~'),
        !b.contains('~'),
        is_of_domain(username, a),
        is_of_domain(username, b),
    ensures
        a == b,
{
    law_domain_match_is_exact(username, a);
    law_domain_match_is_exact(username, b);
    lemma_domain_ends(username, a, b);
    lemma_domain_ends(username, b, a);
}

proof fn lemma_domain_ends(username: Seq<char>, a: Seq<char>, b: Seq<char>)
    requires
        !b.contains('~'),
        username == a || (a + "~"@).is_prefix_of(username),
        username == b || (b + "~"@).is_prefix_of(username),
    ensures
        b.len() <= a.len(),
        a == username.take(a.len() as int),
{
    reveal_strlit("~");
    assert(a =~= username.take(a.len() as int));
    assert(b =~= username.take(b.len() as int));
    if a.len() < b.len() {
        assert(username[a.len() as int] == (a + "~"@)[a.len() as int]);
        assert(b[a.len() as int] == '~');
    }
}

/// A pattern of text that stands for itself and a `%` finds what begins with the
/// text.
proof fn lemma_like_prefix(text: Seq<char>, front: Seq<char>)
    requires
        is_literal(front),
    ensures
        is_like(text, front + seq!['%']) <==> front.is_prefix_of(text),
    decreases front.len(),
{
    let pattern = front + seq!['%'];
    if front.len() == 0 {
        assert(pattern =~= seq!['%']);
        lemma_like_anything(text);
    } else {
        let rest = front.drop_first();
        assert(pattern.drop_first() =~= rest + seq!['%']);
        assert(pattern[0] == front[0]);
        assert(front.contains(front[0]));
        assert(is_literal(rest)) by {
            assert forall|c: char| rest.contains(c) implies front.contains(c) by {
                let i = choose|i: int| 0 <= i < rest.len() && rest[i] == c;
                assert(front[i + 1] == c);
            }
        }
        if text.len() > 0 {
            lemma_like_prefix(text.drop_first(), rest);
            if text[0] == front[0] && rest.is_prefix_of(text.drop_first()) {
                assert forall|i: int| 0 <= i < front.len() implies front[i] == text[i] by {
                    if i > 0 {
                        assert(rest[i - 1] == text.drop_first()[i - 1]);
                    }
                }
                assert(front =~= text.subrange(0, front.len() as int));
            }
            if front.is_prefix_of(text) {
                assert(front[0] == text[0]);
                assert(rest =~= text.drop_first().subrange(0, rest.len() as int));
            }
        }
    }
}

proof fn lemma_like_anything(text: Seq<char>)
    ensures
        is_like(text, seq!['%']),
    decreases text.len(),
{
    assert(seq!['%'].drop_first() =~= Seq::<char>::empty());
    if text.len() > 0 {
        lemma_like_anything(text.drop_first());
    } else {
        assert(is_like(text, Seq::empty()));
    }
}

/// Roles are the same exactly where both are that of a standard user or both have
/// the same name.
pub proof fn law_roles_are_told_apart(a: String, b: String)
    ensures
        same_role(Role::StandardUser, Role::StandardUser),
        same_role(Role::Named(a), Role::Named(b)) <==> a@ == b@,
        !same_role(Role::StandardUser, Role::Named(a)),
        !same_role(Role::Named(a), Role::StandardUser),
{
}

/// A deleted organization keeps nothing of its name but its identifier.
pub proof fn law_scrubbed_names_hold_the_identifier(id: u128)
    ensures
        scrubbed_name(id).len() == 8 + id_digits(id).len(),
        scrubbed_name(id).skip(8) == id_digits(id),
        scrubbed_address(id).take(scrubbed_name(id).len() as int) == scrubbed_name(id),
{
    reveal_strlit("deleted-");
    assert(scrubbed_name(id).skip(8) =~= id_digits(id));
    assert(scrubbed_address(id).take(scrubbed_name(id).len() as int) =~= scrubbed_name(id));
}

/// An organization is handed out as its row holds it, each field under its own
/// name, with the roles that it is given, and without ever having logged in.
pub proof fn law_organizations_are_handed_out_as_stored<L>(
    row: OrganizationRow<L>,
    roles: Vec<Role>,
    r: UserDBResponse<L>,
)
    requires
        call_ensures(organization_response::<L>, (row, roles), r),
    ensures
        r.id == row.id,
        r.username@ == row.username@,
        r.email@ == row.email@,
        r.display_name == row.display_name,
        r.avatar_url == row.avatar_url,
        r.created_at == row.created_at,
        r.updated_at == row.updated_at,
        r.last_login is None,
        r.auth_source@ == row.auth_source@,
        r.is_admin == row.is_admin,
        r.roles@ == roles@,
        r.password_hash == row.password_hash,
        r.external_user_id == row.external_user_id,
        r.payment_provider_id == row.payment_provider_id,
        r.batch_notifications_enabled == row.batch_notifications_enabled,
        r.first_batch_email_sent == row.first_batch_email_sent,
        r.low_balance_notification_sent == row.low_balance_notification_sent,
        r.low_balance_threshold == row.low_balance_threshold,
        r.auto_topup_amount == row.auto_topup_amount,
        r.auto_topup_threshold == row.auto_topup_threshold,
        r.auto_topup_monthly_limit == row.auto_topup_monthly_limit,
        r.user_type@ == row.user_type@,
        r.verified == row.verified,
        r.invoicing_enabled == row.invoicing_enabled,
        r.zero_data_retention == row.zero_data_retention,
{
}

/// An update of an organization hands every field on under its own name. A
/// threshold that is given is written, an empty one clears it, and one that is
/// not given is left alone.
pub proof fn law_organization_updates_are_as_asked<'a, L: Copy>(
    request: &'a OrganizationUpdateDBRequest<L>,
    r: OrganizationUpdateColumns<'a, L>,
    stored: Option<L>,
)
    requires
        call_ensures(organization_update_columns::<L>, (request,), r),
    ensures
        r.display_name is Some <==> request.display_name is Some,
        r.display_name is Some ==> (r.display_name->0)@ == (request.display_name->0)@,
        r.avatar_url is Some <==> request.avatar_url is Some,
        r.avatar_url is Some ==> (r.avatar_url->0)@ == (request.avatar_url->0)@,
        r.email is Some <==> request.email is Some,
        r.email is Some ==> (r.email->0)@ == (request.email->0)@,
        r.batch_notifications_enabled == request.batch_notifications_enabled,
        r.zero_data_retention == request.zero_data_retention,
        (if r.low_balance_threshold.0 {
            r.low_balance_threshold.1
        } else {
            stored
        }) == (if request.low_balance_threshold is Some {
            request.low_balance_threshold->0
        } else {
            stored
        }),
{
}

/// A list of organizations is a list of users of that type, with the same page
/// and the same search.
pub proof fn law_organizations_are_searched_as_users(f: OrganizationFilter, u: UserFilter)
    requires
        call_ensures(OrganizationFilter::to_user_filter, (&f,), u),
    ensures
        u.skip == f.skip,
        u.limit == f.limit,
        u.search is Some <==> f.search is Some,
        u.search is Some ==> (u.search->0)@ == (f.search->0)@,
        u.user_type@ == seq!['o', 'r', 'g', 'a', 'n', 'i', 'z', 'a', 't', 'i', 'o', 'n'],
{
    reveal_strlit("organization");
    assert("organization"@ =~= seq![
        'o',
        'r',
        'g',
        'a',
        'n',
        'i',
        'z',
        'a',
        't',
        'i',
        'o',
        'n',
    ]);
}

/// A new organization has the roles that are given, in order, and is a standard
/// user; no other role is made up.
pub proof fn law_new_organizations_are_standard_users(
    default_roles: Vec<Role>,
    r: Vec<Role>,
    i: int,
)
    requires
        call_ensures(organization_roles, (&default_roles,), r),
        0 <= i < r@.len(),
    ensures
        exists|j: int| 0 <= j < r@.len() && #[trigger] r@[j] is StandardUser,
        i < default_roles@.len() ==> (r@[i] is StandardUser <==> default_roles@[i] is StandardUser),
        i < default_roles@.len() ==> (r@[i] matches Role::Named(name)
            ==> default_roles@[i] matches Role::Named(given) && name@ == given@),
        i >= default_roles@.len() ==> r@[i] is StandardUser && i == default_roles@.len(),
{
    let j = choose|j: int| 0 <= j < r@.len() && r@[j] == Role::StandardUser;
    assert(r@[j] is StandardUser);
    if i < default_roles@.len() {
        assert(same_role(r@[i], default_roles@[i]));
    }
}

/// Only an organization that is there and says so admits signups by domain.
pub proof fn law_domains_admit_only_if_enabled(stored: Option<bool>, r: bool)
    requires
        call_ensures(admits_by_domain, (stored,), r),
    ensures
        r <==> stored is Some && stored->0,
{
}

/// A set of identifiers holds what the list holds.
pub proof fn law_identifier_sets_hold_their_lists(
    ids: Vec<u128>,
    r: HashSet<u128>,
    id: u128,
)
    requires
        call_ensures(id_set, (&ids,), r),
    ensures
        r@.contains(id) <==> exists|i: int| 0 <= i < ids@.len() && #[trigger] ids@[i] == id,
{
}

/// A request that was approved names its user, and an invite that was sent anew
/// its address and role; what was not found, or holds none, names nothing.
pub proof fn law_rows_name_their_users(
    row: Option<Option<u128>>,
    user: Option<u128>,
    invite_row: Option<(Option<String>, String)>,
    invite: Option<(String, String)>,
)
    requires
        call_ensures(approved_user, (row,), user),
        call_ensures(refreshed_invite, (invite_row,), invite),
    ensures
        user is Some <==> row is Some && row->0 is Some,
        user is Some ==> user->0 == row->0->0,
        invite is Some <==> invite_row is Some && (invite_row->0).0 is Some,
        invite is Some ==> (invite->0).0@ == ((invite_row->0).0->0)@ && (invite->0).1@ == (
        invite_row->0).1@,
{
}

/// The pattern of a domain finds what begins with the domain and a `~`, and nothing
/// else.
pub proof fn law_domain_patterns_find_suffixes(domain: &str, r: String, username: Seq<char>)
    requires
        call_ensures(domain_pattern, (domain,), r),
        is_literal(domain@),
    ensures
        is_like(username, r@) <==> domain@.len() < username.len() && username.take(
            domain@.len() as int,
        ) == domain@ && username[domain@.len() as int] == '~',
{
    reveal_strlit("~%");
    reveal_strlit("~");
    let front = domain@ + "~"@;
    assert(r@ =~= front + seq!['%']);
    assert(is_literal(front)) by {
        assert forall|c: char| front.contains(c) implies domain@.contains(c) || c == '~' by {
            let i = choose|i: int| 0 <= i < front.len() && front[i] == c;
            if i < domain@.len() {
                assert(domain@[i] == c);
            }
        }
    }
    lemma_like_prefix(username, front);
    if front.is_prefix_of(username) {
        assert(username.take(domain@.len() as int) =~= domain@);
        assert(username[domain@.len() as int] == front[domain@.len() as int]);
    }
    if domain@.len() < username.len() && username.take(domain@.len() as int) == domain@
        && username[domain@.len() as int] == '~' {
        assert forall|i: int| 0 <= i < front.len() implies front[i] == username[i] by {
            if i < domain@.len() {
                assert(username.take(domain@.len() as int)[i] == username[i]);
            }
        }
        assert(front =~= username.subrange(0, front.len() as int));
    }
}

}
