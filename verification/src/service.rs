//! Tenant management: services and their roles.
//!
//! Registering a service mints a 16-character id and a 32-character API
//! key and auto-creates an "Admin" role granting all five permissions.
//! Further roles are created with a chosen subset of permissions and
//! their own key. The API-key gate for tenant content routes lives here
//! too: it resolves the tenant, compares the header with the stored
//! key, and asks whether any role of the tenant grants the verb's
//! permission.

use crate::access::{
    access_decision_spec, header_view, AccessDecision, Lookup, Permission,
};
use crate::keygen::{alphanumeric_string, generate_key};
use crate::schema::Field;
use crate::store::{
    lemma_find_service_none, ContentItemRow, ContentTypeRow, RolePermissionRow, RoleRow, Service,
    Store,
};
use vstd::prelude::*;

verus! {

/// The request payload naming a new service.
pub struct CreateService {
    pub name: String,
}

/// The request payload for a new role: a name and the permissions it
/// grants.
pub struct Role {
    pub name: String,
    pub permissions: Vec<Permission>,
}

/// Why a service or role operation failed.
#[derive(Debug)]
pub enum ServiceError {
    /// A unique constraint or id counter refused the insert.
    Storage,
    /// The named service does not exist.
    UnknownService,
}

impl ServiceError {
    /// The HTTP status a tenant-management failure surfaces as.
    pub open spec fn status_spec(self) -> int {
        match self {
            ServiceError::Storage => 500,
            ServiceError::UnknownService => 404,
        }
    }

    /// The HTTP status of this failure.
    pub fn status_code(&self) -> (r: u16)
        ensures
            r as int == self.status_spec(),
    {
        match self {
            ServiceError::Storage => 500,
            ServiceError::UnknownService => 404,
        }
    }
}

/// The permission rows a role insert writes: one per granted
/// permission, in order.
pub open spec fn permission_rows(perms: Seq<Permission>, role_id: u64) -> Seq<RolePermissionRow>
    decreases perms.len(),
{
    if perms.len() == 0 {
        Seq::empty()
    } else {
        permission_rows(perms.drop_last(), role_id).push(
            RolePermissionRow { role_id, permission: perms.last() },
        )
    }
}

/// Each permission row holds the role id and its permission.
pub proof fn lemma_permission_rows(perms: Seq<Permission>, role_id: u64)
    ensures
        permission_rows(perms, role_id).len() == perms.len(),
        forall|k: int|
            0 <= k < perms.len() ==> #[trigger] permission_rows(perms, role_id)[k] == (
            RolePermissionRow { role_id, permission: perms[k] }),
    decreases perms.len(),
{
    if perms.len() > 0 {
        lemma_permission_rows(perms.drop_last(), role_id);
    }
}

impl Store {
    /// Whether some service already holds this API key: the unique
    /// constraint on stored keys.
    pub open spec fn api_key_taken_spec(self, api_key: Seq<char>) -> bool {
        exists|j: int|
            0 <= j < self.services@.len() && (#[trigger] self.services@[j]).api_key@ == api_key
    }

    /// Whether some service already holds this API key.
    fn api_key_taken(&self, api_key: &String) -> (r: bool)
        ensures
            r == self.api_key_taken_spec(api_key@),
    {
        let n: usize = self.services.len();
        let mut j: usize = 0;
        while j < n
            invariant
                n == self.services@.len(),
                j <= n,
                forall|i: int| 0 <= i < j ==> (#[trigger] self.services@[i]).api_key@ != api_key@,
            decreases n - j,
        {
            if self.services[j].api_key == *api_key {
                return true;
            }
            j = j + 1;
        }
        false
    }

    /// Store a tenant under the given id and API key, auto-creating the
    /// "Admin" role holding all five permissions. The write happens
    /// exactly when the id and the key are both free and the role-id
    /// counter has room.
    pub fn insert_service_with_ids(
        &mut self,
        name: String,
        service_id: String,
        api_key: String,
    ) -> (r: Result<(), ServiceError>)
        requires
            old(self).wf(),
        ensures
            final(self).wf(),
            r is Err ==> *final(self) == *old(self),
            r matches Err(ServiceError::Storage) <==> (old(self).service_spec(service_id@) is Some
                || old(self).api_key_taken_spec(api_key@) || old(self).next_role_id == u64::MAX),
            r is Err ==> r matches Err(ServiceError::Storage),
            r is Ok <==> (old(self).service_spec(service_id@) is None && !old(
                self,
            ).api_key_taken_spec(api_key@) && old(self).next_role_id < u64::MAX),
            r is Ok ==> {
                &&& final(self).services@.len() == old(self).services@.len() + 1
                &&& forall|j: int|
                    0 <= j < old(self).services@.len() ==> final(self).services@[j] == old(
                        self,
                    ).services@[j]
                &&& final(self).services@.last().id@ == service_id@
                &&& final(self).services@.last().name@ == name@
                &&& final(self).services@.last().api_key@ == api_key@
                &&& final(self).roles@.len() == old(self).roles@.len() + 1
                &&& forall|j: int|
                    0 <= j < old(self).roles@.len() ==> final(self).roles@[j] == old(self).roles@[j]
                &&& final(self).roles@.last().id == old(self).next_role_id
                &&& final(self).roles@.last().name@ == "Admin"@
                &&& final(self).roles@.last().service_id@ == service_id@
                &&& final(self).roles@.last().api_key@ == api_key@
                &&& final(self).role_permissions@ == old(self).role_permissions@ + permission_rows(
                    seq![
                        Permission::Post,
                        Permission::Get,
                        Permission::Put,
                        Permission::Patch,
                        Permission::Delete,
                    ],
                    old(self).next_role_id,
                )
                &&& forall|p: Permission| final(self).permission_granted_spec(service_id@, p)
            },
            final(self).content_types@ == old(self).content_types@,
            final(self).fields@ == old(self).fields@,
            final(self).content_items@ == old(self).content_items@,
            final(self).users@ == old(self).users@,
            final(self).sessions@ == old(self).sessions@,
    {
        if self.find_service(&service_id).is_some() {
            return Err(ServiceError::Storage);
        }
        if self.api_key_taken(&api_key) {
            return Err(ServiceError::Storage);
        }
        if self.next_role_id == u64::MAX {
            return Err(ServiceError::Storage);
        }
        proof {
            lemma_find_service_none(self.services@, service_id@);
        }
        let role_id = self.next_role_id;
        self.services.push(
            Service { id: service_id.clone(), name, api_key: api_key.clone() },
        );
        self.roles.push(
            RoleRow {
                id: role_id,
                name: admin_role_name(),
                service_id: service_id.clone(),
                api_key: api_key.clone(),
            },
        );
        self.next_role_id = role_id + 1;
        let ghost rp_before = self.role_permissions@;
        self.role_permissions.push(
            RolePermissionRow { role_id, permission: Permission::Post },
        );
        self.role_permissions.push(RolePermissionRow { role_id, permission: Permission::Get });
        self.role_permissions.push(RolePermissionRow { role_id, permission: Permission::Put });
        self.role_permissions.push(
            RolePermissionRow { role_id, permission: Permission::Patch },
        );
        self.role_permissions.push(
            RolePermissionRow { role_id, permission: Permission::Delete },
        );
        proof {
            let all = seq![
                Permission::Post,
                Permission::Get,
                Permission::Put,
                Permission::Patch,
                Permission::Delete,
            ];
            lemma_permission_rows(all, role_id);
            assert(self.role_permissions@ =~= rp_before + permission_rows(all, role_id));
            let ri = self.roles@.len() - 1;
            assert forall|p: Permission| self.permission_granted_spec(service_id@, p) by {
                let base = rp_before.len() as int;
                match p {
                    Permission::Post => {
                        assert(self.roles@[ri].service_id@ == service_id@
                            && self.role_permissions@[base].role_id == self.roles@[ri].id
                            && self.role_permissions@[base].permission == p);
                    },
                    Permission::Get => {
                        assert(self.roles@[ri].service_id@ == service_id@
                            && self.role_permissions@[base + 1].role_id == self.roles@[ri].id
                            && self.role_permissions@[base + 1].permission == p);
                    },
                    Permission::Put => {
                        assert(self.roles@[ri].service_id@ == service_id@
                            && self.role_permissions@[base + 2].role_id == self.roles@[ri].id
                            && self.role_permissions@[base + 2].permission == p);
                    },
                    Permission::Patch => {
                        assert(self.roles@[ri].service_id@ == service_id@
                            && self.role_permissions@[base + 3].role_id == self.roles@[ri].id
                            && self.role_permissions@[base + 3].permission == p);
                    },
                    Permission::Delete => {
                        assert(self.roles@[ri].service_id@ == service_id@
                            && self.role_permissions@[base + 4].role_id == self.roles@[ri].id
                            && self.role_permissions@[base + 4].permission == p);
                    },
                }
            }
        }
        Ok(())
    }

    /// Register a tenant: mint its 16-character id and 32-character API
    /// key, store it, and auto-create the "Admin" role holding all five
    /// permissions. Fails only if a minted id collides with a stored
    /// one or the role-id counter is exhausted; nothing changes then.
    pub fn create_service(&mut self, input: CreateService) -> (r: Result<
        (String, String),
        ServiceError,
    >)
        requires
            old(self).wf(),
        ensures
            final(self).wf(),
            r is Err ==> *final(self) == *old(self),
            r is Err ==> r matches Err(ServiceError::Storage),
            r matches Ok(c) ==> {
                &&& c.0@.len() == 16 && alphanumeric_string(c.0@)
                &&& c.1@.len() == 32 && alphanumeric_string(c.1@)
                &&& old(self).service_spec(c.0@) is None
                &&& !old(self).api_key_taken_spec(c.1@)
                &&& final(self).services@.len() == old(self).services@.len() + 1
                &&& forall|j: int|
                    0 <= j < old(self).services@.len() ==> final(self).services@[j] == old(
                        self,
                    ).services@[j]
                &&& final(self).services@.last().id@ == c.0@
                &&& final(self).services@.last().name@ == input.name@
                &&& final(self).services@.last().api_key@ == c.1@
                &&& final(self).roles@.len() == old(self).roles@.len() + 1
                &&& forall|j: int|
                    0 <= j < old(self).roles@.len() ==> final(self).roles@[j] == old(self).roles@[j]
                &&& final(self).roles@.last().id == old(self).next_role_id
                &&& final(self).roles@.last().name@ == "Admin"@
                &&& final(self).roles@.last().service_id@ == c.0@
                &&& final(self).roles@.last().api_key@ == c.1@
                &&& final(self).role_permissions@ == old(self).role_permissions@ + permission_rows(
                    seq![
                        Permission::Post,
                        Permission::Get,
                        Permission::Put,
                        Permission::Patch,
                        Permission::Delete,
                    ],
                    old(self).next_role_id,
                )
                &&& forall|p: Permission| final(self).permission_granted_spec(c.0@, p)
            },
            final(self).content_types@ == old(self).content_types@,
            final(self).fields@ == old(self).fields@,
            final(self).content_items@ == old(self).content_items@,
            final(self).users@ == old(self).users@,
            final(self).sessions@ == old(self).sessions@,
    {
        let service_id = generate_key(16);
        let api_key = generate_key(32);
        match self.insert_service_with_ids(input.name, service_id.clone(), api_key.clone()) {
            Ok(()) => Ok((service_id, api_key)),
            Err(e) => Err(e),
        }
    }

    /// Create a role for an existing service, granting the listed
    /// permissions, and return the role's generated API key.
    pub fn create_role(&mut self, service_id: &String, role: &Role) -> (r: Result<
        String,
        ServiceError,
    >)
        requires
            old(self).wf(),
        ensures
            final(self).wf(),
            r is Err ==> *final(self) == *old(self),
            r matches Err(ServiceError::UnknownService) <==> old(self).service_spec(service_id@)
                is None,
            r matches Err(ServiceError::Storage) <==> old(self).service_spec(service_id@) is Some
                && old(self).next_role_id == u64::MAX,
            r matches Ok(k) ==> {
                &&& k@.len() == 32 && alphanumeric_string(k@)
                &&& final(self).roles@.len() == old(self).roles@.len() + 1
                &&& forall|j: int|
                    0 <= j < old(self).roles@.len() ==> final(self).roles@[j] == old(self).roles@[j]
                &&& final(self).roles@.last().id == old(self).next_role_id
                &&& final(self).roles@.last().name@ == role.name@
                &&& final(self).roles@.last().service_id@ == service_id@
                &&& final(self).roles@.last().api_key@ == k@
                &&& final(self).role_permissions@ == old(self).role_permissions@ + permission_rows(
                    role.permissions@,
                    old(self).next_role_id,
                )
                &&& forall|k2: int|
                    0 <= k2 < role.permissions@.len() ==> final(self).permission_granted_spec(
                        service_id@,
                        role.permissions@[k2],
                    )
            },
            final(self).services@ == old(self).services@,
            final(self).content_types@ == old(self).content_types@,
            final(self).fields@ == old(self).fields@,
            final(self).content_items@ == old(self).content_items@,
            final(self).users@ == old(self).users@,
            final(self).sessions@ == old(self).sessions@,
    {
        if self.find_service(service_id).is_none() {
            return Err(ServiceError::UnknownService);
        }
        if self.next_role_id == u64::MAX {
            return Err(ServiceError::Storage);
        }
        let api_key = generate_key(32);
        let role_id = self.next_role_id;
        self.roles.push(
            RoleRow {
                id: role_id,
                name: role.name.clone(),
                service_id: service_id.clone(),
                api_key: api_key.clone(),
            },
        );
        self.next_role_id = role_id + 1;
        let ghost rp_before = self.role_permissions@;
        let ghost new_role = self.roles@.last();
        proof {
            assert(new_role.id == role_id);
            assert(new_role.name@ == role.name@);
            assert(new_role.service_id@ == service_id@);
            assert(new_role.api_key@ == api_key@);
        }
        let count: usize = role.permissions.len();
        let mut k: usize = 0;
        while k < count
            invariant
                old(self).wf(),
                count == role.permissions@.len(),
                k <= count,
                self.role_permissions@ == rp_before + permission_rows(
                    role.permissions@.take(k as int),
                    role_id,
                ),
                rp_before == old(self).role_permissions@,
                self.roles@ == old(self).roles@.push(new_role),
                new_role.id == role_id,
                new_role.name@ == role.name@,
                new_role.service_id@ == service_id@,
                new_role.api_key@ == api_key@,
                api_key@.len() == 32 && alphanumeric_string(api_key@),
                role_id == old(self).next_role_id,
                role_id < u64::MAX,
                self.next_role_id == role_id + 1,
                self.next_content_type_id == old(self).next_content_type_id,
                self.next_field_id == old(self).next_field_id,
                self.next_user_id == old(self).next_user_id,
                self.services@ == old(self).services@,
                self.content_types@ == old(self).content_types@,
                self.fields@ == old(self).fields@,
                self.content_items@ == old(self).content_items@,
                self.users@ == old(self).users@,
                self.sessions@ == old(self).sessions@,
            decreases count - k,
        {
            proof {
                let t = role.permissions@.take(k as int + 1);
                assert(t.drop_last() =~= role.permissions@.take(k as int));
                assert(t.last() == role.permissions@[k as int]);
            }
            self.role_permissions.push(
                RolePermissionRow { role_id, permission: role.permissions[k] },
            );
            proof {
                assert(self.role_permissions@ =~= rp_before + permission_rows(
                    role.permissions@.take(k as int + 1),
                    role_id,
                ));
            }
            k = k + 1;
        }
        proof {
            assert(role.permissions@.take(count as int) =~= role.permissions@);
            lemma_permission_rows(role.permissions@, role_id);
            let ri = self.roles@.len() - 1;
            let base = rp_before.len() as int;
            assert forall|k2: int|
                0 <= k2 < role.permissions@.len() implies self.permission_granted_spec(
                service_id@,
                role.permissions@[k2],
            ) by {
                assert(self.roles@[ri].service_id@ == service_id@ && self.role_permissions@[base
                    + k2].role_id == self.roles@[ri].id && self.role_permissions@[base
                    + k2].permission == role.permissions@[k2]);
            }
        }
        Ok(api_key)
    }

    /// The outcome of the access-control gate for one request to a
    /// tenant content route, given this store's state.
    pub open spec fn request_decision_spec(
        self,
        service_id: Seq<char>,
        header: Option<Seq<char>>,
        method: Seq<char>,
    ) -> AccessDecision {
        access_decision_spec(
            header,
            match self.service_spec(service_id) {
                Some(s) => Lookup::Found(s.api_key@),
                None => Lookup::Absent,
            },
            method,
            match crate::access::verb_permission(method) {
                Some(p) => Lookup::Found(self.permission_granted_spec(service_id, p)),
                None => Lookup::Error,
            },
        )
    }

    /// The access-control gate on tenant content routes: resolve the
    /// tenant named in the path, compare the `x-api-key` header with
    /// its stored key, and require a role of the tenant to grant the
    /// permission matching the HTTP verb.
    pub fn validate_api_key(
        &self,
        service_id: &String,
        api_key_header: Option<&String>,
        method: &String,
    ) -> (d: AccessDecision)
        ensures
            d == self.request_decision_spec(service_id@, header_view(api_key_header), method@),
    {
        let stored_key = match self.find_service(service_id) {
            Some(service) => Lookup::Found(service.api_key.clone()),
            None => Lookup::Absent,
        };
        let granted = match Permission::from_method(method) {
            Some(p) => Lookup::Found(self.permission_granted(service_id, p)),
            None => Lookup::Error,
        };
        crate::access::decide_access(api_key_header, &stored_key, method, &granted)
    }

    /// A missing, blank, or mismatched API key is refused with 403 on
    /// every tenant route of an existing service, regardless of the
    /// HTTP verb and of the tenant's roles.
    pub proof fn lemma_store_bad_key(
        self,
        service_id: Seq<char>,
        header: Option<Seq<char>>,
        method: Seq<char>,
    )
        requires
            self.service_spec(service_id) matches Some(svc) && (header is None || header->0.len()
                == 0 || header->0 != svc.api_key@),
        ensures
            self.request_decision_spec(service_id, header, method).status_spec() == 403,
            self.request_decision_spec(service_id, header, method) !is Forward,
    {
        let svc = self.service_spec(service_id)->Some_0;
        crate::access::lemma_bad_key_forbidden(
            header,
            svc.api_key@,
            method,
            match crate::access::verb_permission(method) {
                Some(p) => Lookup::Found(self.permission_granted_spec(service_id, p)),
                None => Lookup::Error,
            },
        );
    }

    /// With the correct, non-blank key, a tenant-route request is
    /// forwarded exactly when some role of the tenant grants the
    /// permission matching the verb; in every other case it is refused
    /// with 403.
    pub proof fn lemma_store_permission_gate(
        self,
        service_id: Seq<char>,
        method: Seq<char>,
    )
        requires
            self.service_spec(service_id) matches Some(svc) && svc.api_key@.len() > 0,
        ensures
            ({
                let svc = self.service_spec(service_id)->Some_0;
                let d = self.request_decision_spec(service_id, Some(svc.api_key@), method);
                &&& d == AccessDecision::Forward <==> (crate::access::verb_permission(method)
                    matches Some(p) && self.permission_granted_spec(service_id, p))
                &&& d !is Forward ==> d.status_spec() == 403
            }),
    {
        let svc = self.service_spec(service_id)->Some_0;
        crate::access::lemma_permission_gate(
            svc.api_key@,
            method,
            match crate::access::verb_permission(method) {
                Some(p) => Lookup::Found(self.permission_granted_spec(service_id, p)),
                None => Lookup::Error,
            },
        );
    }
}

/// The name of the role a new service starts with.
fn admin_role_name() -> (r: String)
    ensures
        r@ == "Admin"@,
{
    String::from_str("Admin")
}

/// The services left once the one with `id` is dropped, in order.
pub open spec fn services_without(s: Seq<Service>, id: Seq<char>) -> Seq<Service>
    decreases s.len(),
{
    if s.len() == 0 {
        Seq::empty()
    } else if s.first().id@ == id {
        services_without(s.drop_first(), id)
    } else {
        seq![s.first()] + services_without(s.drop_first(), id)
    }
}

/// The roles left once the service's roles are dropped, in order.
pub open spec fn roles_without(s: Seq<RoleRow>, service_id: Seq<char>) -> Seq<RoleRow>
    decreases s.len(),
{
    if s.len() == 0 {
        Seq::empty()
    } else if s.first().service_id@ == service_id {
        roles_without(s.drop_first(), service_id)
    } else {
        seq![s.first()] + roles_without(s.drop_first(), service_id)
    }
}

/// Whether the role id names a role owned by the service.
pub open spec fn role_belongs(roles: Seq<RoleRow>, service_id: Seq<char>, role_id: u64) -> bool {
    exists|i: int|
        0 <= i < roles.len() && (#[trigger] roles[i]).id == role_id && roles[i].service_id@
            == service_id
}

/// The permission rows left once those of the service's roles are
/// dropped, in order.
pub open spec fn rps_without(
    s: Seq<RolePermissionRow>,
    roles: Seq<RoleRow>,
    service_id: Seq<char>,
) -> Seq<RolePermissionRow>
    decreases s.len(),
{
    if s.len() == 0 {
        Seq::empty()
    } else if role_belongs(roles, service_id, s.first().role_id) {
        rps_without(s.drop_first(), roles, service_id)
    } else {
        seq![s.first()] + rps_without(s.drop_first(), roles, service_id)
    }
}

/// The content types left once the service's are dropped, in order.
pub open spec fn cts_without(s: Seq<ContentTypeRow>, service_id: Seq<char>) -> Seq<ContentTypeRow>
    decreases s.len(),
{
    if s.len() == 0 {
        Seq::empty()
    } else if s.first().service_id@ == service_id {
        cts_without(s.drop_first(), service_id)
    } else {
        seq![s.first()] + cts_without(s.drop_first(), service_id)
    }
}

/// Whether the content type id names a content type owned by the
/// service.
pub open spec fn ct_belongs(
    content_types: Seq<ContentTypeRow>,
    service_id: Seq<char>,
    content_type_id: u64,
) -> bool {
    exists|i: int|
        0 <= i < content_types.len() && (#[trigger] content_types[i]).id == content_type_id
            && content_types[i].service_id@ == service_id
}

/// The fields left once those of the service's content types are
/// dropped, in order.
pub open spec fn fields_without(
    s: Seq<Field>,
    content_types: Seq<ContentTypeRow>,
    service_id: Seq<char>,
) -> Seq<Field>
    decreases s.len(),
{
    if s.len() == 0 {
        Seq::empty()
    } else if ct_belongs(content_types, service_id, s.first().content_type_id) {
        fields_without(s.drop_first(), content_types, service_id)
    } else {
        seq![s.first()] + fields_without(s.drop_first(), content_types, service_id)
    }
}

/// The content items left once those of the service's content types
/// are dropped, in order.
pub open spec fn items_without(
    s: Seq<ContentItemRow>,
    content_types: Seq<ContentTypeRow>,
    service_id: Seq<char>,
) -> Seq<ContentItemRow>
    decreases s.len(),
{
    if s.len() == 0 {
        Seq::empty()
    } else if ct_belongs(content_types, service_id, s.first().content_type_id) {
        items_without(s.drop_first(), content_types, service_id)
    } else {
        seq![s.first()] + items_without(s.drop_first(), content_types, service_id)
    }
}

/// Dropping a service keeps rows of the original sequence, none with
/// its id, with distinct ids and distinct API keys still distinct.
pub proof fn lemma_services_without(s: Seq<Service>, id: Seq<char>)
    requires
        forall|i: int, j: int| 0 <= i < j < s.len() ==> s[i].id@ != s[j].id@,
        forall|i: int, j: int| 0 <= i < j < s.len() ==> s[i].api_key@ != s[j].api_key@,
    ensures
        ({
            let res = services_without(s, id);
            &&& forall|k: int|
                0 <= k < res.len() ==> (#[trigger] res[k]).id@ != id && exists|j: int|
                    0 <= j < s.len() && s[j] == res[k]
            &&& forall|i: int, j: int| 0 <= i < j < res.len() ==> res[i].id@ != res[j].id@
            &&& forall|i: int, j: int|
                0 <= i < j < res.len() ==> res[i].api_key@ != res[j].api_key@
        }),
    decreases s.len(),
{
    if s.len() > 0 {
        let rest = s.drop_first();
        assert forall|i: int, j: int| 0 <= i < j < rest.len() implies rest[i].id@ != rest[j].id@
            && rest[i].api_key@ != rest[j].api_key@ by {
            assert(rest[i] == s[i + 1] && rest[j] == s[j + 1]);
        }
        lemma_services_without(rest, id);
        let sub = services_without(rest, id);
        assert forall|k: int| 0 <= k < sub.len() implies exists|j: int|
            0 <= j < s.len() && s[j] == #[trigger] sub[k] by {
            let j = choose|j: int| 0 <= j < rest.len() && rest[j] == sub[k];
            assert(s[j + 1] == sub[k]);
        }
        if s.first().id@ != id {
            let res = seq![s.first()] + sub;
            assert(res[0] == s[0]);
            assert forall|k: int| 0 <= k < res.len() implies (#[trigger] res[k]).id@ != id
                && exists|j: int| 0 <= j < s.len() && s[j] == res[k] by {
                if k > 0 {
                    assert(res[k] == sub[k - 1]);
                }
            }
            assert forall|i: int, j: int| 0 <= i < j < res.len() implies res[i].id@ != res[j].id@
                && res[i].api_key@ != res[j].api_key@ by {
                if i == 0 {
                    assert(res[j] == sub[j - 1]);
                    let m = choose|m: int| 0 <= m < rest.len() && rest[m] == sub[j - 1];
                    assert(rest[m] == s[m + 1]);
                } else {
                    assert(res[i] == sub[i - 1] && res[j] == sub[j - 1]);
                }
            }
        }
    }
}

/// Dropping a service's permission rows keeps rows of the original
/// sequence.
pub proof fn lemma_rps_without(
    s: Seq<RolePermissionRow>,
    roles: Seq<RoleRow>,
    service_id: Seq<char>,
)
    ensures
        forall|k: int|
            0 <= k < rps_without(s, roles, service_id).len() ==> exists|j: int|
                0 <= j < s.len() && s[j] == #[trigger] rps_without(s, roles, service_id)[k],
    decreases s.len(),
{
    if s.len() > 0 {
        let rest = s.drop_first();
        lemma_rps_without(rest, roles, service_id);
        let sub = rps_without(rest, roles, service_id);
        assert forall|k: int| 0 <= k < sub.len() implies exists|j: int|
            0 <= j < s.len() && s[j] == #[trigger] sub[k] by {
            let j = choose|j: int| 0 <= j < rest.len() && rest[j] == sub[k];
            assert(s[j + 1] == sub[k]);
        }
        if !role_belongs(roles, service_id, s.first().role_id) {
            let res = seq![s.first()] + sub;
            assert(res[0] == s[0]);
            assert forall|k: int| 0 <= k < res.len() implies exists|j: int|
                0 <= j < s.len() && s[j] == #[trigger] res[k] by {
                if k > 0 {
                    assert(res[k] == sub[k - 1]);
                }
            }
        }
    }
}

/// Dropping a service's roles keeps rows of the original sequence,
/// none of that service, with distinct ids still distinct.
pub proof fn lemma_roles_without(s: Seq<RoleRow>, service_id: Seq<char>)
    requires
        forall|i: int, j: int| 0 <= i < j < s.len() ==> s[i].id != s[j].id,
    ensures
        ({
            let res = roles_without(s, service_id);
            &&& forall|k: int|
                0 <= k < res.len() ==> (#[trigger] res[k]).service_id@ != service_id && exists|
                    j: int,
                |
                    0 <= j < s.len() && s[j] == res[k]
            &&& forall|i: int, j: int| 0 <= i < j < res.len() ==> res[i].id != res[j].id
        }),
    decreases s.len(),
{
    if s.len() > 0 {
        let rest = s.drop_first();
        assert forall|i: int, j: int| 0 <= i < j < rest.len() implies rest[i].id != rest[j].id by {
            assert(rest[i] == s[i + 1] && rest[j] == s[j + 1]);
        }
        lemma_roles_without(rest, service_id);
        let sub = roles_without(rest, service_id);
        assert forall|k: int| 0 <= k < sub.len() implies exists|j: int|
            0 <= j < s.len() && s[j] == #[trigger] sub[k] by {
            let j = choose|j: int| 0 <= j < rest.len() && rest[j] == sub[k];
            assert(s[j + 1] == sub[k]);
        }
        if s.first().service_id@ != service_id {
            let res = seq![s.first()] + sub;
            assert(res[0] == s[0]);
            assert forall|k: int| 0 <= k < res.len() implies (#[trigger] res[k]).service_id@
                != service_id && exists|j: int| 0 <= j < s.len() && s[j] == res[k] by {
                if k > 0 {
                    assert(res[k] == sub[k - 1]);
                }
            }
            assert forall|i: int, j: int| 0 <= i < j < res.len() implies res[i].id
                != res[j].id by {
                if i == 0 {
                    assert(res[j] == sub[j - 1]);
                    let m = choose|m: int| 0 <= m < rest.len() && rest[m] == sub[j - 1];
                    assert(rest[m] == s[m + 1]);
                } else {
                    assert(res[i] == sub[i - 1] && res[j] == sub[j - 1]);
                }
            }
        }
    }
}

/// Dropping a service's content types keeps rows of the original
/// sequence, none of that service, with distinct ids still distinct.
pub proof fn lemma_cts_without(s: Seq<ContentTypeRow>, service_id: Seq<char>)
    requires
        forall|i: int, j: int| 0 <= i < j < s.len() ==> s[i].id != s[j].id,
    ensures
        ({
            let res = cts_without(s, service_id);
            &&& forall|k: int|
                0 <= k < res.len() ==> (#[trigger] res[k]).service_id@ != service_id && exists|
                    j: int,
                |
                    0 <= j < s.len() && s[j] == res[k]
            &&& forall|i: int, j: int| 0 <= i < j < res.len() ==> res[i].id != res[j].id
        }),
    decreases s.len(),
{
    if s.len() > 0 {
        let rest = s.drop_first();
        assert forall|i: int, j: int| 0 <= i < j < rest.len() implies rest[i].id != rest[j].id by {
            assert(rest[i] == s[i + 1] && rest[j] == s[j + 1]);
        }
        lemma_cts_without(rest, service_id);
        let sub = cts_without(rest, service_id);
        assert forall|k: int| 0 <= k < sub.len() implies exists|j: int|
            0 <= j < s.len() && s[j] == #[trigger] sub[k] by {
            let j = choose|j: int| 0 <= j < rest.len() && rest[j] == sub[k];
            assert(s[j + 1] == sub[k]);
        }
        if s.first().service_id@ != service_id {
            let res = seq![s.first()] + sub;
            assert(res[0] == s[0]);
            assert forall|k: int| 0 <= k < res.len() implies (#[trigger] res[k]).service_id@
                != service_id && exists|j: int| 0 <= j < s.len() && s[j] == res[k] by {
                if k > 0 {
                    assert(res[k] == sub[k - 1]);
                }
            }
            assert forall|i: int, j: int| 0 <= i < j < res.len() implies res[i].id
                != res[j].id by {
                if i == 0 {
                    assert(res[j] == sub[j - 1]);
                    let m = choose|m: int| 0 <= m < rest.len() && rest[m] == sub[j - 1];
                    assert(rest[m] == s[m + 1]);
                } else {
                    assert(res[i] == sub[i - 1] && res[j] == sub[j - 1]);
                }
            }
        }
    }
}

/// Dropping the fields of a service's content types keeps rows of the
/// original sequence, with both uniqueness constraints intact.
pub proof fn lemma_fields_without(
    s: Seq<Field>,
    content_types: Seq<ContentTypeRow>,
    service_id: Seq<char>,
)
    requires
        forall|i: int, j: int| 0 <= i < j < s.len() ==> s[i].id != s[j].id,
        forall|i: int, j: int|
            0 <= i < j < s.len() && s[i].content_type_id == s[j].content_type_id ==> s[i].display_id@
                != s[j].display_id@,
    ensures
        ({
            let res = fields_without(s, content_types, service_id);
            &&& forall|k: int|
                0 <= k < res.len() ==> !ct_belongs(
                    content_types,
                    service_id,
                    (#[trigger] res[k]).content_type_id,
                ) && exists|j: int| 0 <= j < s.len() && s[j] == res[k]
            &&& forall|i: int, j: int| 0 <= i < j < res.len() ==> res[i].id != res[j].id
            &&& forall|i: int, j: int|
                0 <= i < j < res.len() && res[i].content_type_id == res[j].content_type_id ==> res[
                    i
                ].display_id@ != res[j].display_id@
        }),
    decreases s.len(),
{
    if s.len() > 0 {
        let rest = s.drop_first();
        assert forall|i: int, j: int| 0 <= i < j < rest.len() implies rest[i].id != rest[j].id && (
        rest[i].content_type_id == rest[j].content_type_id ==> rest[i].display_id@
            != rest[j].display_id@) by {
            assert(rest[i] == s[i + 1] && rest[j] == s[j + 1]);
        }
        lemma_fields_without(rest, content_types, service_id);
        let sub = fields_without(rest, content_types, service_id);
        assert forall|k: int| 0 <= k < sub.len() implies exists|j: int|
            0 <= j < s.len() && s[j] == #[trigger] sub[k] by {
            let j = choose|j: int| 0 <= j < rest.len() && rest[j] == sub[k];
            assert(s[j + 1] == sub[k]);
        }
        if !ct_belongs(content_types, service_id, s.first().content_type_id) {
            let res = seq![s.first()] + sub;
            assert(res[0] == s[0]);
            assert forall|k: int| 0 <= k < res.len() implies !ct_belongs(
                content_types,
                service_id,
                (#[trigger] res[k]).content_type_id,
            ) && exists|j: int| 0 <= j < s.len() && s[j] == res[k] by {
                if k > 0 {
                    assert(res[k] == sub[k - 1]);
                }
            }
            assert forall|i: int, j: int| 0 <= i < j < res.len() implies res[i].id != res[j].id && (
            res[i].content_type_id == res[j].content_type_id ==> res[i].display_id@
                != res[j].display_id@) by {
                if i == 0 {
                    assert(res[j] == sub[j - 1]);
                    let m = choose|m: int| 0 <= m < rest.len() && rest[m] == sub[j - 1];
                    assert(rest[m] == s[m + 1]);
                } else {
                    assert(res[i] == sub[i - 1] && res[j] == sub[j - 1]);
                }
            }
        }
    }
}

/// Dropping the items of a service's content types keeps rows of the
/// original sequence, with distinct ids still distinct and each kept
/// document still well-formed.
pub proof fn lemma_items_without(
    s: Seq<ContentItemRow>,
    content_types: Seq<ContentTypeRow>,
    service_id: Seq<char>,
)
    requires
        forall|i: int, j: int| 0 <= i < j < s.len() ==> s[i].id != s[j].id,
        forall|i: int| 0 <= i < s.len() ==> (#[trigger] s[i]).data.wf(),
    ensures
        ({
            let res = items_without(s, content_types, service_id);
            &&& forall|k: int|
                0 <= k < res.len() ==> (#[trigger] res[k]).data.wf() && exists|j: int|
                    0 <= j < s.len() && s[j] == res[k]
            &&& forall|i: int, j: int| 0 <= i < j < res.len() ==> res[i].id != res[j].id
        }),
    decreases s.len(),
{
    if s.len() > 0 {
        let rest = s.drop_first();
        assert forall|i: int, j: int| 0 <= i < j < rest.len() implies rest[i].id != rest[j].id by {
            assert(rest[i] == s[i + 1] && rest[j] == s[j + 1]);
        }
        assert forall|i: int| 0 <= i < rest.len() implies (#[trigger] rest[i]).data.wf() by {
            assert(rest[i] == s[i + 1]);
        }
        lemma_items_without(rest, content_types, service_id);
        let sub = items_without(rest, content_types, service_id);
        assert forall|k: int| 0 <= k < sub.len() implies exists|j: int|
            0 <= j < s.len() && s[j] == #[trigger] sub[k] by {
            let j = choose|j: int| 0 <= j < rest.len() && rest[j] == sub[k];
            assert(s[j + 1] == sub[k]);
        }
        if !ct_belongs(content_types, service_id, s.first().content_type_id) {
            let res = seq![s.first()] + sub;
            assert(res[0] == s[0]);
            assert forall|k: int| 0 <= k < res.len() implies (#[trigger] res[k]).data.wf()
                && exists|j: int| 0 <= j < s.len() && s[j] == res[k] by {
                if k > 0 {
                    assert(res[k] == sub[k - 1]);
                }
            }
            assert forall|i: int, j: int| 0 <= i < j < res.len() implies res[i].id
                != res[j].id by {
                if i == 0 {
                    assert(res[j] == sub[j - 1]);
                    let m = choose|m: int| 0 <= m < rest.len() && rest[m] == sub[j - 1];
                    assert(rest[m] == s[m + 1]);
                } else {
                    assert(res[i] == sub[i - 1] && res[j] == sub[j - 1]);
                }
            }
        }
    }
}

impl Store {
    /// Drop the permission rows of the service's roles.
    fn purge_role_permissions(&mut self, service_id: &String)
        ensures
            final(self).role_permissions@ == rps_without(
                old(self).role_permissions@,
                old(self).roles@,
                service_id@,
            ),
            final(self).services@ == old(self).services@,
            final(self).roles@ == old(self).roles@,
            final(self).content_types@ == old(self).content_types@,
            final(self).fields@ == old(self).fields@,
            final(self).content_items@ == old(self).content_items@,
            final(self).users@ == old(self).users@,
            final(self).sessions@ == old(self).sessions@,
            final(self).next_role_id == old(self).next_role_id,
            final(self).next_content_type_id == old(self).next_content_type_id,
            final(self).next_field_id == old(self).next_field_id,
            final(self).next_user_id == old(self).next_user_id,
    {
        let ghost orig = self.role_permissions@;
        let mut kept: Vec<RolePermissionRow> = Vec::new();
        proof {
            assert(kept@ + rps_without(orig, self.roles@, service_id@) =~= rps_without(
                orig,
                self.roles@,
                service_id@,
            ));
        }
        while self.role_permissions.len() > 0
            invariant
                self.services@ == old(self).services@,
                self.roles@ == old(self).roles@,
                self.content_types@ == old(self).content_types@,
                self.fields@ == old(self).fields@,
                self.content_items@ == old(self).content_items@,
                self.users@ == old(self).users@,
                self.sessions@ == old(self).sessions@,
                self.next_role_id == old(self).next_role_id,
                self.next_content_type_id == old(self).next_content_type_id,
                self.next_field_id == old(self).next_field_id,
                self.next_user_id == old(self).next_user_id,
                rps_without(orig, old(self).roles@, service_id@) == kept@ + rps_without(
                    self.role_permissions@,
                    old(self).roles@,
                    service_id@,
                ),
            decreases self.role_permissions.len(),
        {
            let ghost rem = self.role_permissions@;
            let e = self.role_permissions.remove(0);
            proof {
                assert(rem.drop_first() =~= self.role_permissions@);
            }
            if !role_belongs_exec(&self.roles, service_id, e.role_id) {
                let ghost kpre = kept@;
                kept.push(e);
                proof {
                    assert(kpre + (seq![e] + rps_without(
                        self.role_permissions@,
                        old(self).roles@,
                        service_id@,
                    )) =~= kept@ + rps_without(
                        self.role_permissions@,
                        old(self).roles@,
                        service_id@,
                    ));
                }
            }
        }
        proof {
            assert(kept@ + rps_without(self.role_permissions@, old(self).roles@, service_id@)
                =~= kept@);
        }
        self.role_permissions = kept;
    }

    /// Drop the service's roles.
    fn purge_roles(&mut self, service_id: &String)
        ensures
            final(self).roles@ == roles_without(old(self).roles@, service_id@),
            final(self).services@ == old(self).services@,
            final(self).role_permissions@ == old(self).role_permissions@,
            final(self).content_types@ == old(self).content_types@,
            final(self).fields@ == old(self).fields@,
            final(self).content_items@ == old(self).content_items@,
            final(self).users@ == old(self).users@,
            final(self).sessions@ == old(self).sessions@,
            final(self).next_role_id == old(self).next_role_id,
            final(self).next_content_type_id == old(self).next_content_type_id,
            final(self).next_field_id == old(self).next_field_id,
            final(self).next_user_id == old(self).next_user_id,
    {
        let ghost orig = self.roles@;
        let mut kept: Vec<RoleRow> = Vec::new();
        proof {
            assert(kept@ + roles_without(orig, service_id@) =~= roles_without(orig, service_id@));
        }
        while self.roles.len() > 0
            invariant
                self.services@ == old(self).services@,
                self.role_permissions@ == old(self).role_permissions@,
                self.content_types@ == old(self).content_types@,
                self.fields@ == old(self).fields@,
                self.content_items@ == old(self).content_items@,
                self.users@ == old(self).users@,
                self.sessions@ == old(self).sessions@,
                self.next_role_id == old(self).next_role_id,
                self.next_content_type_id == old(self).next_content_type_id,
                self.next_field_id == old(self).next_field_id,
                self.next_user_id == old(self).next_user_id,
                roles_without(orig, service_id@) == kept@ + roles_without(
                    self.roles@,
                    service_id@,
                ),
            decreases self.roles.len(),
        {
            let ghost rem = self.roles@;
            let e = self.roles.remove(0);
            proof {
                assert(rem.drop_first() =~= self.roles@);
            }
            if !(e.service_id == *service_id) {
                let ghost kpre = kept@;
                kept.push(e);
                proof {
                    assert(kpre + (seq![e] + roles_without(self.roles@, service_id@)) =~= kept@
                        + roles_without(self.roles@, service_id@));
                }
            }
        }
        proof {
            assert(kept@ + roles_without(self.roles@, service_id@) =~= kept@);
        }
        self.roles = kept;
    }

    /// Drop the fields of the service's content types.
    fn purge_fields(&mut self, service_id: &String)
        ensures
            final(self).fields@ == fields_without(
                old(self).fields@,
                old(self).content_types@,
                service_id@,
            ),
            final(self).services@ == old(self).services@,
            final(self).roles@ == old(self).roles@,
            final(self).role_permissions@ == old(self).role_permissions@,
            final(self).content_types@ == old(self).content_types@,
            final(self).content_items@ == old(self).content_items@,
            final(self).users@ == old(self).users@,
            final(self).sessions@ == old(self).sessions@,
            final(self).next_role_id == old(self).next_role_id,
            final(self).next_content_type_id == old(self).next_content_type_id,
            final(self).next_field_id == old(self).next_field_id,
            final(self).next_user_id == old(self).next_user_id,
    {
        let ghost orig = self.fields@;
        let mut kept: Vec<Field> = Vec::new();
        proof {
            assert(kept@ + fields_without(orig, self.content_types@, service_id@) =~=
                fields_without(orig, self.content_types@, service_id@));
        }
        while self.fields.len() > 0
            invariant
                self.services@ == old(self).services@,
                self.roles@ == old(self).roles@,
                self.role_permissions@ == old(self).role_permissions@,
                self.content_types@ == old(self).content_types@,
                self.content_items@ == old(self).content_items@,
                self.users@ == old(self).users@,
                self.sessions@ == old(self).sessions@,
                self.next_role_id == old(self).next_role_id,
                self.next_content_type_id == old(self).next_content_type_id,
                self.next_field_id == old(self).next_field_id,
                self.next_user_id == old(self).next_user_id,
                fields_without(orig, old(self).content_types@, service_id@) == kept@
                    + fields_without(self.fields@, old(self).content_types@, service_id@),
            decreases self.fields.len(),
        {
            let ghost rem = self.fields@;
            let e = self.fields.remove(0);
            proof {
                assert(rem.drop_first() =~= self.fields@);
            }
            if !ct_belongs_exec(&self.content_types, service_id, e.content_type_id) {
                let ghost kpre = kept@;
                kept.push(e);
                proof {
                    assert(kpre + (seq![e] + fields_without(
                        self.fields@,
                        old(self).content_types@,
                        service_id@,
                    )) =~= kept@ + fields_without(
                        self.fields@,
                        old(self).content_types@,
                        service_id@,
                    ));
                }
            }
        }
        proof {
            assert(kept@ + fields_without(self.fields@, old(self).content_types@, service_id@)
                =~= kept@);
        }
        self.fields = kept;
    }

    /// Drop the items of the service's content types.
    fn purge_items(&mut self, service_id: &String)
        ensures
            final(self).content_items@ == items_without(
                old(self).content_items@,
                old(self).content_types@,
                service_id@,
            ),
            final(self).services@ == old(self).services@,
            final(self).roles@ == old(self).roles@,
            final(self).role_permissions@ == old(self).role_permissions@,
            final(self).content_types@ == old(self).content_types@,
            final(self).fields@ == old(self).fields@,
            final(self).users@ == old(self).users@,
            final(self).sessions@ == old(self).sessions@,
            final(self).next_role_id == old(self).next_role_id,
            final(self).next_content_type_id == old(self).next_content_type_id,
            final(self).next_field_id == old(self).next_field_id,
            final(self).next_user_id == old(self).next_user_id,
    {
        let ghost orig = self.content_items@;
        let mut kept: Vec<ContentItemRow> = Vec::new();
        proof {
            assert(kept@ + items_without(orig, self.content_types@, service_id@) =~= items_without(
                orig,
                self.content_types@,
                service_id@,
            ));
        }
        while self.content_items.len() > 0
            invariant
                self.services@ == old(self).services@,
                self.roles@ == old(self).roles@,
                self.role_permissions@ == old(self).role_permissions@,
                self.content_types@ == old(self).content_types@,
                self.fields@ == old(self).fields@,
                self.users@ == old(self).users@,
                self.sessions@ == old(self).sessions@,
                self.next_role_id == old(self).next_role_id,
                self.next_content_type_id == old(self).next_content_type_id,
                self.next_field_id == old(self).next_field_id,
                self.next_user_id == old(self).next_user_id,
                items_without(orig, old(self).content_types@, service_id@) == kept@
                    + items_without(self.content_items@, old(self).content_types@, service_id@),
            decreases self.content_items.len(),
        {
            let ghost rem = self.content_items@;
            let e = self.content_items.remove(0);
            proof {
                assert(rem.drop_first() =~= self.content_items@);
            }
            if !ct_belongs_exec(&self.content_types, service_id, e.content_type_id) {
                let ghost kpre = kept@;
                kept.push(e);
                proof {
                    assert(kpre + (seq![e] + items_without(
                        self.content_items@,
                        old(self).content_types@,
                        service_id@,
                    )) =~= kept@ + items_without(
                        self.content_items@,
                        old(self).content_types@,
                        service_id@,
                    ));
                }
            }
        }
        proof {
            assert(kept@ + items_without(
                self.content_items@,
                old(self).content_types@,
                service_id@,
            ) =~= kept@);
        }
        self.content_items = kept;
    }

    /// Drop the service's content types.
    fn purge_content_types(&mut self, service_id: &String)
        ensures
            final(self).content_types@ == cts_without(old(self).content_types@, service_id@),
            final(self).services@ == old(self).services@,
            final(self).roles@ == old(self).roles@,
            final(self).role_permissions@ == old(self).role_permissions@,
            final(self).fields@ == old(self).fields@,
            final(self).content_items@ == old(self).content_items@,
            final(self).users@ == old(self).users@,
            final(self).sessions@ == old(self).sessions@,
            final(self).next_role_id == old(self).next_role_id,
            final(self).next_content_type_id == old(self).next_content_type_id,
            final(self).next_field_id == old(self).next_field_id,
            final(self).next_user_id == old(self).next_user_id,
    {
        let ghost orig = self.content_types@;
        let mut kept: Vec<ContentTypeRow> = Vec::new();
        proof {
            assert(kept@ + cts_without(orig, service_id@) =~= cts_without(orig, service_id@));
        }
        while self.content_types.len() > 0
            invariant
                self.services@ == old(self).services@,
                self.roles@ == old(self).roles@,
                self.role_permissions@ == old(self).role_permissions@,
                self.fields@ == old(self).fields@,
                self.content_items@ == old(self).content_items@,
                self.users@ == old(self).users@,
                self.sessions@ == old(self).sessions@,
                self.next_role_id == old(self).next_role_id,
                self.next_content_type_id == old(self).next_content_type_id,
                self.next_field_id == old(self).next_field_id,
                self.next_user_id == old(self).next_user_id,
                cts_without(orig, service_id@) == kept@ + cts_without(
                    self.content_types@,
                    service_id@,
                ),
            decreases self.content_types.len(),
        {
            let ghost rem = self.content_types@;
            let e = self.content_types.remove(0);
            proof {
                assert(rem.drop_first() =~= self.content_types@);
            }
            if !(e.service_id == *service_id) {
                let ghost kpre = kept@;
                kept.push(e);
                proof {
                    assert(kpre + (seq![e] + cts_without(self.content_types@, service_id@))
                        =~= kept@ + cts_without(self.content_types@, service_id@));
                }
            }
        }
        proof {
            assert(kept@ + cts_without(self.content_types@, service_id@) =~= kept@);
        }
        self.content_types = kept;
    }

    /// Drop the service row itself.
    fn purge_services(&mut self, service_id: &String)
        ensures
            final(self).services@ == services_without(old(self).services@, service_id@),
            final(self).roles@ == old(self).roles@,
            final(self).role_permissions@ == old(self).role_permissions@,
            final(self).content_types@ == old(self).content_types@,
            final(self).fields@ == old(self).fields@,
            final(self).content_items@ == old(self).content_items@,
            final(self).users@ == old(self).users@,
            final(self).sessions@ == old(self).sessions@,
            final(self).next_role_id == old(self).next_role_id,
            final(self).next_content_type_id == old(self).next_content_type_id,
            final(self).next_field_id == old(self).next_field_id,
            final(self).next_user_id == old(self).next_user_id,
    {
        let ghost orig = self.services@;
        let mut kept: Vec<Service> = Vec::new();
        proof {
            assert(kept@ + services_without(orig, service_id@) =~= services_without(
                orig,
                service_id@,
            ));
        }
        while self.services.len() > 0
            invariant
                self.roles@ == old(self).roles@,
                self.role_permissions@ == old(self).role_permissions@,
                self.content_types@ == old(self).content_types@,
                self.fields@ == old(self).fields@,
                self.content_items@ == old(self).content_items@,
                self.users@ == old(self).users@,
                self.sessions@ == old(self).sessions@,
                self.next_role_id == old(self).next_role_id,
                self.next_content_type_id == old(self).next_content_type_id,
                self.next_field_id == old(self).next_field_id,
                self.next_user_id == old(self).next_user_id,
                services_without(orig, service_id@) == kept@ + services_without(
                    self.services@,
                    service_id@,
                ),
            decreases self.services.len(),
        {
            let ghost rem = self.services@;
            let e = self.services.remove(0);
            proof {
                assert(rem.drop_first() =~= self.services@);
            }
            if !(e.id == *service_id) {
                let ghost kpre = kept@;
                kept.push(e);
                proof {
                    assert(kpre + (seq![e] + services_without(self.services@, service_id@))
                        =~= kept@ + services_without(self.services@, service_id@));
                }
            }
        }
        proof {
            assert(kept@ + services_without(self.services@, service_id@) =~= kept@);
        }
        self.services = kept;
    }

    /// Delete a service and everything reachable through it: its roles
    /// and their granted permissions, its content types with their
    /// fields and their items. Admin users and sessions are untouched.
    /// Reports whether the service existed; a miss changes nothing.
    pub fn delete_service(&mut self, service_id: &String) -> (deleted: bool)
        requires
            old(self).wf(),
        ensures
            final(self).wf(),
            deleted <==> old(self).service_spec(service_id@) is Some,
            !deleted ==> *final(self) == *old(self),
            deleted ==> {
                &&& final(self).service_spec(service_id@) is None
                &&& final(self).services@ == services_without(old(self).services@, service_id@)
                &&& final(self).roles@ == roles_without(old(self).roles@, service_id@)
                &&& final(self).role_permissions@ == rps_without(
                    old(self).role_permissions@,
                    old(self).roles@,
                    service_id@,
                )
                &&& final(self).content_types@ == cts_without(
                    old(self).content_types@,
                    service_id@,
                )
                &&& final(self).fields@ == fields_without(
                    old(self).fields@,
                    old(self).content_types@,
                    service_id@,
                )
                &&& final(self).content_items@ == items_without(
                    old(self).content_items@,
                    old(self).content_types@,
                    service_id@,
                )
            },
            final(self).users@ == old(self).users@,
            final(self).sessions@ == old(self).sessions@,
    {
        if self.find_service(service_id).is_none() {
            return false;
        }
        let deleted = true;
        self.purge_role_permissions(service_id);
        self.purge_roles(service_id);
        self.purge_fields(service_id);
        self.purge_items(service_id);
        self.purge_content_types(service_id);
        self.purge_services(service_id);
        proof {
            lemma_services_without(old(self).services@, service_id@);
            lemma_roles_without(old(self).roles@, service_id@);
            lemma_cts_without(old(self).content_types@, service_id@);
            lemma_fields_without(old(self).fields@, old(self).content_types@, service_id@);
            lemma_items_without(old(self).content_items@, old(self).content_types@, service_id@);
            lemma_find_service_none(self.services@, service_id@);
            assert forall|i: int|
                0 <= i < self.roles@.len() implies self.roles@[i].id < self.next_role_id by {
                let m = choose|m: int|
                    0 <= m < old(self).roles@.len() && old(self).roles@[m] == self.roles@[i];
            }
            assert forall|i: int|
                0 <= i < self.content_types@.len() implies self.content_types@[i].id
                < self.next_content_type_id by {
                let m = choose|m: int|
                    0 <= m < old(self).content_types@.len() && old(self).content_types@[m]
                        == self.content_types@[i];
            }
            assert forall|i: int|
                0 <= i < self.fields@.len() implies self.fields@[i].id < self.next_field_id by {
                let m = choose|m: int|
                    0 <= m < old(self).fields@.len() && old(self).fields@[m] == self.fields@[i];
            }
            assert forall|i: int|
                0 <= i < self.content_items@.len() implies self.content_items@[i].data.wf() by {}
            lemma_rps_without(old(self).role_permissions@, old(self).roles@, service_id@);
            assert forall|i: int|
                0 <= i < self.role_permissions@.len() implies self.role_permissions@[i].role_id
                < self.next_role_id by {
                let m = choose|m: int|
                    0 <= m < old(self).role_permissions@.len() && old(self).role_permissions@[m]
                        == self.role_permissions@[i];
            }
        }
        deleted
    }
}

/// Whether the role id names a role owned by the service.
fn role_belongs_exec(roles: &Vec<RoleRow>, service_id: &String, role_id: u64) -> (r: bool)
    ensures
        r == role_belongs(roles@, service_id@, role_id),
{
    let n: usize = roles.len();
    let mut i: usize = 0;
    while i < n
        invariant
            n == roles@.len(),
            i <= n,
            forall|j: int|
                0 <= j < i ==> !((#[trigger] roles@[j]).id == role_id && roles@[j].service_id@
                    == service_id@),
        decreases n - i,
    {
        if roles[i].id == role_id && roles[i].service_id == *service_id {
            return true;
        }
        i = i + 1;
    }
    false
}

/// Whether the content type id names a content type owned by the
/// service.
fn ct_belongs_exec(
    content_types: &Vec<ContentTypeRow>,
    service_id: &String,
    content_type_id: u64,
) -> (r: bool)
    ensures
        r == ct_belongs(content_types@, service_id@, content_type_id),
{
    let n: usize = content_types.len();
    let mut i: usize = 0;
    while i < n
        invariant
            n == content_types@.len(),
            i <= n,
            forall|j: int|
                0 <= j < i ==> !((#[trigger] content_types@[j]).id == content_type_id
                    && content_types@[j].service_id@ == service_id@),
        decreases n - i,
    {
        if content_types[i].id == content_type_id && content_types[i].service_id == *service_id {
            return true;
        }
        i = i + 1;
    }
    false
}

} // verus!
