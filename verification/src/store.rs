//! The persisted state, modelled in memory.
//!
//! One `Store` value stands for the rows the system keeps: tenants and
//! their roles and granted permissions, content types with their fields
//! and items, and admin users with their sessions. The store enforces
//! what the schema's unique constraints and cascades enforce; every
//! lookup re-reads it, so a revoked key or deleted role takes effect on
//! the next request.

use crate::access::Permission;
use crate::json::Document;
use crate::schema::Field;
use vstd::prelude::*;

verus! {

/// A tenant: an isolated content namespace, authenticated by its API
/// key.
pub struct Service {
    pub id: String,
    pub name: String,
    pub api_key: String,
}

/// A role owned by one service, with its own generated key.
pub struct RoleRow {
    pub id: u64,
    pub name: String,
    pub service_id: String,
    pub api_key: String,
}

/// One granted permission of one role.
pub struct RolePermissionRow {
    pub role_id: u64,
    pub permission: Permission,
}

/// A named schema owned by a service.
pub struct ContentTypeRow {
    pub id: u64,
    pub name: String,
    pub service_id: String,
}

/// One stored content item: its document has already been validated.
/// The timestamps are unix seconds read from the clock at the write.
pub struct ContentItemRow {
    pub id: u128,
    pub content_type_id: u64,
    pub data: Document,
    pub created_at: i64,
    pub updated_at: i64,
}

/// An admin user; the password is kept only as its one-way hash.
pub struct UserRow {
    pub id: u64,
    pub username: String,
    pub email: String,
    pub password_hash: String,
}

/// A live admin session: one opaque token bound to one user.
pub struct SessionRow {
    pub token: String,
    pub user_id: u64,
}

/// All persisted state.
pub struct Store {
    pub services: Vec<Service>,
    pub roles: Vec<RoleRow>,
    pub role_permissions: Vec<RolePermissionRow>,
    pub content_types: Vec<ContentTypeRow>,
    pub fields: Vec<Field>,
    pub content_items: Vec<ContentItemRow>,
    pub users: Vec<UserRow>,
    pub sessions: Vec<SessionRow>,
    pub next_role_id: u64,
    pub next_content_type_id: u64,
    pub next_field_id: u64,
    pub next_user_id: u64,
}

impl Store {
    /// The unique constraints and foreign-key discipline the storage
    /// layer enforces.
    pub open spec fn wf(self) -> bool {
        &&& forall|i: int, j: int|
            0 <= i < j < self.services@.len() ==> self.services@[i].id@ != self.services@[j].id@
        &&& forall|i: int, j: int|
            0 <= i < j < self.services@.len() ==> self.services@[i].api_key@
                != self.services@[j].api_key@
        &&& forall|i: int, j: int|
            0 <= i < j < self.roles@.len() ==> self.roles@[i].id != self.roles@[j].id
        &&& forall|i: int| 0 <= i < self.roles@.len() ==> self.roles@[i].id < self.next_role_id
        &&& forall|i: int|
            0 <= i < self.role_permissions@.len() ==> self.role_permissions@[i].role_id
                < self.next_role_id
        &&& forall|i: int, j: int|
            0 <= i < j < self.content_types@.len() ==> self.content_types@[i].id
                != self.content_types@[j].id
        &&& forall|i: int|
            0 <= i < self.content_types@.len() ==> self.content_types@[i].id
                < self.next_content_type_id
        &&& forall|i: int, j: int|
            0 <= i < j < self.fields@.len() ==> self.fields@[i].id != self.fields@[j].id
        &&& forall|i: int| 0 <= i < self.fields@.len() ==> self.fields@[i].id < self.next_field_id
        &&& forall|i: int, j: int|
            0 <= i < j < self.fields@.len() && self.fields@[i].content_type_id
                == self.fields@[j].content_type_id ==> self.fields@[i].display_id@
                != self.fields@[j].display_id@
        &&& forall|i: int, j: int|
            0 <= i < j < self.content_items@.len() ==> self.content_items@[i].id
                != self.content_items@[j].id
        &&& forall|i: int| 0 <= i < self.content_items@.len() ==> self.content_items@[i].data.wf()
        &&& forall|i: int, j: int|
            0 <= i < j < self.users@.len() ==> self.users@[i].id != self.users@[j].id
                && self.users@[i].username@ != self.users@[j].username@ && self.users@[i].email@
                != self.users@[j].email@
        &&& forall|i: int| 0 <= i < self.users@.len() ==> self.users@[i].id < self.next_user_id
        &&& forall|i: int, j: int|
            0 <= i < j < self.sessions@.len() ==> self.sessions@[i].token@
                != self.sessions@[j].token@ && self.sessions@[i].user_id
                != self.sessions@[j].user_id
    }

    /// An empty store.
    pub fn new() -> (s: Store)
        ensures
            s.wf(),
            s.services@.len() == 0,
            s.roles@.len() == 0,
            s.role_permissions@.len() == 0,
            s.content_types@.len() == 0,
            s.fields@.len() == 0,
            s.content_items@.len() == 0,
            s.users@.len() == 0,
            s.sessions@.len() == 0,
    {
        Store {
            services: Vec::new(),
            roles: Vec::new(),
            role_permissions: Vec::new(),
            content_types: Vec::new(),
            fields: Vec::new(),
            content_items: Vec::new(),
            users: Vec::new(),
            sessions: Vec::new(),
            next_role_id: 0,
            next_content_type_id: 0,
            next_field_id: 0,
            next_user_id: 0,
        }
    }

    /// The service with the given id, if any.
    pub open spec fn service_spec(self, id: Seq<char>) -> Option<Service> {
        find_service_spec(self.services@, id)
    }

    /// The content type with the given id, if any.
    pub open spec fn content_type_spec(self, id: u64) -> Option<ContentTypeRow> {
        find_content_type_spec(self.content_types@, id)
    }

    /// The content item with the given id, if any.
    pub open spec fn content_item_spec(self, id: u128) -> Option<ContentItemRow> {
        find_content_item_spec(self.content_items@, id)
    }

    /// The session holding the given token, if any.
    pub open spec fn session_spec(self, token: Seq<char>) -> Option<SessionRow> {
        find_session_spec(self.sessions@, token)
    }

    /// The user with the given username, if any.
    pub open spec fn user_spec(self, username: Seq<char>) -> Option<UserRow> {
        find_user_spec(self.users@, username)
    }

    /// The ordered schema of one content type.
    pub open spec fn fields_spec(self, content_type_id: u64) -> Seq<Field> {
        fields_of_seq(self.fields@, content_type_id)
    }

    /// Whether some role of the service grants the permission.
    pub open spec fn permission_granted_spec(self, service_id: Seq<char>, p: Permission) -> bool {
        exists|i: int, j: int|
            0 <= i < self.roles@.len() && 0 <= j < self.role_permissions@.len()
                && self.roles@[i].service_id@ == service_id && self.role_permissions@[j].role_id
                == self.roles@[i].id && self.role_permissions@[j].permission == p
    }

    /// Look up a service by id.
    pub fn find_service(&self, id: &String) -> (r: Option<&Service>)
        ensures
            match r {
                Some(s) => self.service_spec(id@) == Some(*s),
                None => self.service_spec(id@) is None,
            },
    {
        let n: usize = self.services.len();
        let mut i: usize = 0;
        proof {
            assert(self.services@.skip(0) =~= self.services@);
        }
        while i < n
            invariant
                n == self.services@.len(),
                i <= n,
                find_service_spec(self.services@, id@) == find_service_spec(
                    self.services@.skip(i as int),
                    id@,
                ),
            decreases n - i,
        {
            proof {
                let suffix = self.services@.skip(i as int);
                assert(suffix.first() == self.services@[i as int]);
                assert(suffix.drop_first() =~= self.services@.skip(i as int + 1));
            }
            if self.services[i].id == *id {
                return Some(&self.services[i]);
            }
            i = i + 1;
        }
        proof {
            assert(self.services@.skip(n as int) =~= Seq::<Service>::empty());
        }
        None
    }

    /// Look up a content type by id.
    pub fn find_content_type(&self, id: u64) -> (r: Option<&ContentTypeRow>)
        ensures
            match r {
                Some(c) => self.content_type_spec(id) == Some(*c),
                None => self.content_type_spec(id) is None,
            },
    {
        let n: usize = self.content_types.len();
        let mut i: usize = 0;
        proof {
            assert(self.content_types@.skip(0) =~= self.content_types@);
        }
        while i < n
            invariant
                n == self.content_types@.len(),
                i <= n,
                find_content_type_spec(self.content_types@, id) == find_content_type_spec(
                    self.content_types@.skip(i as int),
                    id,
                ),
            decreases n - i,
        {
            proof {
                let suffix = self.content_types@.skip(i as int);
                assert(suffix.first() == self.content_types@[i as int]);
                assert(suffix.drop_first() =~= self.content_types@.skip(i as int + 1));
            }
            if self.content_types[i].id == id {
                return Some(&self.content_types[i]);
            }
            i = i + 1;
        }
        proof {
            assert(self.content_types@.skip(n as int) =~= Seq::<ContentTypeRow>::empty());
        }
        None
    }

    /// Look up a content item by id.
    pub fn find_content_item(&self, id: u128) -> (r: Option<&ContentItemRow>)
        ensures
            match r {
                Some(c) => self.content_item_spec(id) == Some(*c),
                None => self.content_item_spec(id) is None,
            },
    {
        let n: usize = self.content_items.len();
        let mut i: usize = 0;
        proof {
            assert(self.content_items@.skip(0) =~= self.content_items@);
        }
        while i < n
            invariant
                n == self.content_items@.len(),
                i <= n,
                find_content_item_spec(self.content_items@, id) == find_content_item_spec(
                    self.content_items@.skip(i as int),
                    id,
                ),
            decreases n - i,
        {
            proof {
                let suffix = self.content_items@.skip(i as int);
                assert(suffix.first() == self.content_items@[i as int]);
                assert(suffix.drop_first() =~= self.content_items@.skip(i as int + 1));
            }
            if self.content_items[i].id == id {
                return Some(&self.content_items[i]);
            }
            i = i + 1;
        }
        proof {
            assert(self.content_items@.skip(n as int) =~= Seq::<ContentItemRow>::empty());
        }
        None
    }

    /// Look up a session by its token.
    pub fn find_session(&self, token: &String) -> (r: Option<&SessionRow>)
        ensures
            match r {
                Some(s) => self.session_spec(token@) == Some(*s),
                None => self.session_spec(token@) is None,
            },
    {
        let n: usize = self.sessions.len();
        let mut i: usize = 0;
        proof {
            assert(self.sessions@.skip(0) =~= self.sessions@);
        }
        while i < n
            invariant
                n == self.sessions@.len(),
                i <= n,
                find_session_spec(self.sessions@, token@) == find_session_spec(
                    self.sessions@.skip(i as int),
                    token@,
                ),
            decreases n - i,
        {
            proof {
                let suffix = self.sessions@.skip(i as int);
                assert(suffix.first() == self.sessions@[i as int]);
                assert(suffix.drop_first() =~= self.sessions@.skip(i as int + 1));
            }
            if self.sessions[i].token == *token {
                return Some(&self.sessions[i]);
            }
            i = i + 1;
        }
        proof {
            assert(self.sessions@.skip(n as int) =~= Seq::<SessionRow>::empty());
        }
        None
    }

    /// Look up a user by username.
    pub fn find_user(&self, username: &String) -> (r: Option<&UserRow>)
        ensures
            match r {
                Some(u) => self.user_spec(username@) == Some(*u),
                None => self.user_spec(username@) is None,
            },
    {
        let n: usize = self.users.len();
        let mut i: usize = 0;
        proof {
            assert(self.users@.skip(0) =~= self.users@);
        }
        while i < n
            invariant
                n == self.users@.len(),
                i <= n,
                find_user_spec(self.users@, username@) == find_user_spec(
                    self.users@.skip(i as int),
                    username@,
                ),
            decreases n - i,
        {
            proof {
                let suffix = self.users@.skip(i as int);
                assert(suffix.first() == self.users@[i as int]);
                assert(suffix.drop_first() =~= self.users@.skip(i as int + 1));
            }
            if self.users[i].username == *username {
                return Some(&self.users[i]);
            }
            i = i + 1;
        }
        proof {
            assert(self.users@.skip(n as int) =~= Seq::<UserRow>::empty());
        }
        None
    }

    /// The ordered schema of one content type, as stored.
    pub fn fields_for(&self, content_type_id: u64) -> (r: Vec<Field>)
        ensures
            r@.len() == self.fields_spec(content_type_id).len(),
            forall|j: int|
                0 <= j < r@.len() ==> #[trigger] r@[j]@ == self.fields_spec(content_type_id)[j]@,
    {
        let n: usize = self.fields.len();
        let mut out: Vec<Field> = Vec::new();
        let mut i: usize = 0;
        proof {
            assert(self.fields@.take(0) =~= Seq::<Field>::empty());
        }
        while i < n
            invariant
                n == self.fields@.len(),
                i <= n,
                out@.len() == fields_of_seq(self.fields@.take(i as int), content_type_id).len(),
                forall|j: int|
                    0 <= j < out@.len() ==> #[trigger] out@[j]@ == fields_of_seq(
                        self.fields@.take(i as int),
                        content_type_id,
                    )[j]@,
            decreases n - i,
        {
            proof {
                let t = self.fields@.take(i as int + 1);
                assert(t.drop_last() =~= self.fields@.take(i as int));
                assert(t.last() == self.fields@[i as int]);
            }
            let field = &self.fields[i];
            if field.content_type_id == content_type_id {
                out.push(field.duplicate());
            }
            i = i + 1;
        }
        proof {
            assert(self.fields@.take(n as int) =~= self.fields@);
        }
        out
    }

    /// Whether some role of the service grants the permission: the
    /// set-membership query behind the access check.
    pub fn permission_granted(&self, service_id: &String, p: Permission) -> (r: bool)
        ensures
            r == self.permission_granted_spec(service_id@, p),
    {
        let nr: usize = self.roles.len();
        let np: usize = self.role_permissions.len();
        let mut i: usize = 0;
        while i < nr
            invariant
                nr == self.roles@.len(),
                np == self.role_permissions@.len(),
                i <= nr,
                forall|a: int, b: int|
                    0 <= a < i && 0 <= b < np ==> !(#[trigger] self.roles@[a].service_id@
                        == service_id@ && #[trigger] self.role_permissions@[b].role_id
                        == self.roles@[a].id && self.role_permissions@[b].permission == p),
            decreases nr - i,
        {
            if self.roles[i].service_id == *service_id {
                let role_id = self.roles[i].id;
                let mut j: usize = 0;
                while j < np
                    invariant
                        np == self.role_permissions@.len(),
                        nr == self.roles@.len(),
                        i < nr,
                        j <= np,
                        role_id == self.roles@[i as int].id,
                        self.roles@[i as int].service_id@ == service_id@,
                        forall|b: int|
                            0 <= b < j ==> !(#[trigger] self.role_permissions@[b].role_id == role_id
                                && self.role_permissions@[b].permission == p),
                    decreases np - j,
                {
                    if self.role_permissions[j].role_id == role_id && self.role_permissions[j].permission
                        == p {
                        proof {
                            assert(0 <= i < self.roles@.len() && 0 <= j
                                < self.role_permissions@.len() && self.roles@[i as int].service_id@
                                == service_id@ && self.role_permissions@[j as int].role_id
                                == self.roles@[i as int].id && self.role_permissions@[
                                j as int
                            ].permission == p);
                        }
                        return true;
                    }
                    j = j + 1;
                }
            }
            i = i + 1;
        }
        false
    }
}

/// The first service with the given id, front to back.
pub open spec fn find_service_spec(s: Seq<Service>, id: Seq<char>) -> Option<Service>
    decreases s.len(),
{
    if s.len() == 0 {
        None
    } else if s.first().id@ == id {
        Some(s.first())
    } else {
        find_service_spec(s.drop_first(), id)
    }
}

/// The first content type with the given id, front to back.
pub open spec fn find_content_type_spec(s: Seq<ContentTypeRow>, id: u64) -> Option<ContentTypeRow>
    decreases s.len(),
{
    if s.len() == 0 {
        None
    } else if s.first().id == id {
        Some(s.first())
    } else {
        find_content_type_spec(s.drop_first(), id)
    }
}

/// The first content item with the given id, front to back.
pub open spec fn find_content_item_spec(s: Seq<ContentItemRow>, id: u128) -> Option<ContentItemRow>
    decreases s.len(),
{
    if s.len() == 0 {
        None
    } else if s.first().id == id {
        Some(s.first())
    } else {
        find_content_item_spec(s.drop_first(), id)
    }
}

/// The first session with the given token, front to back.
pub open spec fn find_session_spec(s: Seq<SessionRow>, token: Seq<char>) -> Option<SessionRow>
    decreases s.len(),
{
    if s.len() == 0 {
        None
    } else if s.first().token@ == token {
        Some(s.first())
    } else {
        find_session_spec(s.drop_first(), token)
    }
}

/// The first user with the given username, front to back.
pub open spec fn find_user_spec(s: Seq<UserRow>, username: Seq<char>) -> Option<UserRow>
    decreases s.len(),
{
    if s.len() == 0 {
        None
    } else if s.first().username@ == username {
        Some(s.first())
    } else {
        find_user_spec(s.drop_first(), username)
    }
}

/// A service lookup misses exactly when no row has the id.
pub proof fn lemma_find_service_none(s: Seq<Service>, id: Seq<char>)
    ensures
        (find_service_spec(s, id) is None) <==> (forall|i: int|
            0 <= i < s.len() ==> s[i].id@ != id),
    decreases s.len(),
{
    if s.len() > 0 {
        lemma_find_service_none(s.drop_first(), id);
        if s.first().id@ == id {
            assert(s[0].id@ == id);
        } else {
            assert forall|i: int| 1 <= i < s.len() implies s[i] == s.drop_first()[i - 1] by {}
        }
    }
}

/// A content-type lookup misses exactly when no row has the id.
pub proof fn lemma_find_content_type_none(s: Seq<ContentTypeRow>, id: u64)
    ensures
        (find_content_type_spec(s, id) is None) <==> (forall|i: int|
            0 <= i < s.len() ==> s[i].id != id),
    decreases s.len(),
{
    if s.len() > 0 {
        lemma_find_content_type_none(s.drop_first(), id);
        if s.first().id == id {
            assert(s[0].id == id);
        } else {
            assert forall|i: int| 1 <= i < s.len() implies s[i] == s.drop_first()[i - 1] by {}
        }
    }
}

/// A content-item lookup misses exactly when no row has the id.
pub proof fn lemma_find_content_item_none(s: Seq<ContentItemRow>, id: u128)
    ensures
        (find_content_item_spec(s, id) is None) <==> (forall|i: int|
            0 <= i < s.len() ==> s[i].id != id),
    decreases s.len(),
{
    if s.len() > 0 {
        lemma_find_content_item_none(s.drop_first(), id);
        if s.first().id == id {
            assert(s[0].id == id);
        } else {
            assert forall|i: int| 1 <= i < s.len() implies s[i] == s.drop_first()[i - 1] by {}
        }
    }
}

/// A session lookup misses exactly when no row has the token.
pub proof fn lemma_find_session_none(s: Seq<SessionRow>, token: Seq<char>)
    ensures
        (find_session_spec(s, token) is None) <==> (forall|i: int|
            0 <= i < s.len() ==> s[i].token@ != token),
    decreases s.len(),
{
    if s.len() > 0 {
        lemma_find_session_none(s.drop_first(), token);
        if s.first().token@ == token {
            assert(s[0].token@ == token);
        } else {
            assert forall|i: int| 1 <= i < s.len() implies s[i] == s.drop_first()[i - 1] by {}
        }
    }
}

/// A session lookup hit returns a row of the sequence, with the token.
pub proof fn lemma_find_session_some(s: Seq<SessionRow>, token: Seq<char>, t: SessionRow)
    requires
        find_session_spec(s, token) == Some(t),
    ensures
        t.token@ == token,
        exists|i: int| 0 <= i < s.len() && s[i] == t,
    decreases s.len(),
{
    if s.len() > 0 {
        if s.first().token@ == token {
            assert(s[0] == t);
        } else {
            lemma_find_session_some(s.drop_first(), token, t);
            let i = choose|i: int| 0 <= i < s.drop_first().len() && s.drop_first()[i] == t;
            assert(s[i + 1] == t);
        }
    }
}

/// A user lookup misses exactly when no row has the username.
pub proof fn lemma_find_user_none(s: Seq<UserRow>, username: Seq<char>)
    ensures
        (find_user_spec(s, username) is None) <==> (forall|i: int|
            0 <= i < s.len() ==> s[i].username@ != username),
    decreases s.len(),
{
    if s.len() > 0 {
        lemma_find_user_none(s.drop_first(), username);
        if s.first().username@ == username {
            assert(s[0].username@ == username);
        } else {
            assert forall|i: int| 1 <= i < s.len() implies s[i] == s.drop_first()[i - 1] by {}
        }
    }
}

/// The fields declared for one content type, in declaration order.
pub open spec fn fields_of_seq(s: Seq<Field>, content_type_id: u64) -> Seq<Field>
    decreases s.len(),
{
    if s.len() == 0 {
        Seq::empty()
    } else {
        let rest = fields_of_seq(s.drop_last(), content_type_id);
        if s.last().content_type_id == content_type_id {
            rest.push(s.last())
        } else {
            rest
        }
    }
}

} // verus!
