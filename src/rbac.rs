//! Role-based access control: which user holds which role, and which roles
//! satisfy which requirement.
use vstd::prelude::*;

verus! {

/// Status answered when a user lacks the required role.
pub const STATUS_FORBIDDEN: u16 = 403;

/// Roles, from least to most privileged.
#[derive(Clone, Copy, Debug, PartialEq, Eq, Structural)]
pub enum Role {
    User,
    Admin,
    SuperAdmin,
}

/// Whether holding `held` satisfies a requirement of `required`: a super
/// administrator may do anything, an administrator may also act as a user,
/// and otherwise the roles must be the same.
pub open spec fn grants(held: Role, required: Role) -> bool {
    match (held, required) {
        (Role::SuperAdmin, _) => true,
        (Role::Admin, Role::User) => true,
        _ => held == required,
    }
}

/// The role recorded for `id`: the last entry with that id.
pub open spec fn role_lookup(entries: Seq<(Seq<char>, Role)>, id: Seq<char>) -> Option<Role>
    decreases entries.len(),
{
    if entries.len() == 0 {
        None
    } else if entries.last().0 == id {
        Some(entries.last().1)
    } else {
        role_lookup(entries.drop_last(), id)
    }
}

/// The role table: user ids and the role each one holds.
#[derive(Clone, Debug)]
pub struct UserRoles {
    roles: Vec<(String, Role)>,
}

impl UserRoles {
    pub closed spec fn entries(&self) -> Seq<(Seq<char>, Role)> {
        self.roles@.map_values(|e: (String, Role)| (e.0@, e.1))
    }

    /// The role that each known user id holds.
    pub open spec fn table(&self) -> Map<Seq<char>, Role> {
        Map::new(
            |id: Seq<char>| role_lookup(self.entries(), id) is Some,
            |id: Seq<char>| role_lookup(self.entries(), id)->0,
        )
    }

    /// The seeded table: user `1` is an administrator, users `2` and `3`
    /// are plain users.
    pub fn new() -> (r: UserRoles)
        ensures
            r.table() == map![
                "1"@ => Role::Admin,
                "2"@ => Role::User,
                "3"@ => Role::User,
            ],
    {
        proof {
            reveal_strlit("1");
            reveal_strlit("2");
            reveal_strlit("3");
        }
        let mut roles: Vec<(String, Role)> = Vec::new();
        roles.push(("1".to_owned(), Role::Admin));
        roles.push(("2".to_owned(), Role::User));
        roles.push(("3".to_owned(), Role::User));
        let r = UserRoles { roles };
        let ghost e = r.entries();
        let ghost e2 = seq![("1"@, Role::Admin), ("2"@, Role::User)];
        let ghost e1 = seq![("1"@, Role::Admin)];
        assert(e =~= e2.push(("3"@, Role::User)));
        assert(e2 =~= e1.push(("2"@, Role::User)));
        assert(e1.drop_last() =~= Seq::<(Seq<char>, Role)>::empty());
        assert forall|id: Seq<char>| #[trigger] role_lookup(e, id) == (if id == "3"@ {
            Some(Role::User)
        } else if id == "2"@ {
            Some(Role::User)
        } else if id == "1"@ {
            Some(Role::Admin)
        } else {
            None
        }) by {
            reveal_with_fuel(role_lookup, 4);
            assert(e.drop_last() =~= e2);
            assert(e2.drop_last() =~= e1);
        }
        assert(r.table() =~= map!["1"@ => Role::Admin, "2"@ => Role::User, "3"@ => Role::User]);
        r
    }

    /// The role of `user_id`, or `None` for an unknown user.
    pub fn get_role(&self, user_id: &str) -> (r: Option<&Role>)
        ensures
            match r {
                Some(role) => self.table().contains_key(user_id@) && *role == self.table()[user_id@],
                None => !self.table().contains_key(user_id@),
            },
    {
        let ghost all = self.entries();
        let key = user_id.to_owned();
        let mut i: usize = self.roles.len();
        assert(all.take(i as int) =~= all);
        while i > 0
            invariant
                i <= self.roles.len(),
                all == self.entries(),
                key@ == user_id@,
                role_lookup(all, key@) == role_lookup(all.take(i as int), key@),
            decreases i,
        {
            i = i - 1;
            assert(all.take(i + 1).drop_last() =~= all.take(i as int));
            if self.roles[i].0 == key {
                return Some(&self.roles[i].1);
            }
        }
        None
    }

    /// Whether `user_id` is known and holds a role that satisfies
    /// `required_role`.
    pub fn has_permission(&self, user_id: &str, required_role: &Role) -> (r: bool)
        ensures
            r == (self.table().contains_key(user_id@) && grants(
                self.table()[user_id@],
                *required_role,
            )),
    {
        match self.get_role(user_id) {
            Some(user_role) => match (user_role, required_role) {
                (Role::SuperAdmin, _) => true,
                (Role::Admin, Role::User) => true,
                (role, required) => *role == *required,
            },
            None => false,
        }
    }
}

/// Access checks against the seeded role table.
pub struct RbacService {
    user_roles: UserRoles,
}

impl RbacService {
    pub closed spec fn table(&self) -> Map<Seq<char>, Role> {
        self.user_roles.table()
    }

    /// A service over the seeded role table of [`UserRoles::new`].
    pub fn new() -> (r: RbacService)
        ensures
            r.table() == map![
                "1"@ => Role::Admin,
                "2"@ => Role::User,
                "3"@ => Role::User,
            ],
    {
        RbacService { user_roles: UserRoles::new() }
    }

    /// `Ok` when `user_id` holds a role that satisfies `role`; otherwise
    /// `Err` with the forbidden status.
    pub fn require_role(&self, user_id: &str, role: &Role) -> (r: Result<(), u16>)
        ensures
            r == if self.table().contains_key(user_id@) && grants(self.table()[user_id@], *role) {
                Ok::<(), u16>(())
            } else {
                Err(STATUS_FORBIDDEN)
            },
    {
        if self.user_roles.has_permission(user_id, role) {
            Ok(())
        } else {
            Err(STATUS_FORBIDDEN)
        }
    }
}

} // verus!
