//! Every change of the graph keeps it well formed.

use vstd::prelude::*;

use crate::graph::view::{
    code_id, code_not_of_user, code_text, permission_id, permission_name, permission_other_than,
    profile_edge, profile_edge_not_of_permission, profile_edge_not_of_profile, profile_id,
    permission_name_taken, permission_replaced_by, profile_name, profile_name_taken,
    profile_other_than, profile_replaced_by, user_edge, user_edge_not_of_permission,
    user_edge_not_of_user, user_id, user_name, user_name_taken, user_other_than,
    user_replaced_by, GraphView,
};
use crate::models::{
    AccessCode, AccessProfile, AccessProfilePermission, Permission, User, UserPermission,
};
use crate::seq_lemmas::{
    has_key, lemma_filter_distinct_by, lemma_filter_has_key, lemma_filter_members,
    lemma_push_distinct_by, lemma_push_has_key, lemma_same_keys,
};

verus! {

impl GraphView {
    /// A user row with a new id and a new name keeps the graph well formed.
    pub proof fn lemma_with_user_wf(self, user: User)
        requires
            self.wf(),
            !has_key(self.users, user_id(), user.id),
            !has_key(self.users, user_name(), user.name@),
        ensures
            self.with_user(user).wf(),
    {
        lemma_push_distinct_by(self.users, user, user_id());
        lemma_push_distinct_by(self.users, user, user_name());
        let g = self.with_user(user);
        assert forall|i: int| 0 <= i < g.access_codes.len() implies has_key(
            g.users,
            user_id(),
            (#[trigger] g.access_codes[i]).user,
        ) by {
            lemma_push_has_key(self.users, user, user_id(), g.access_codes[i].user);
        }
        assert forall|i: int| 0 <= i < g.users_permissions.len() implies has_key(
            g.users,
            user_id(),
            (#[trigger] g.users_permissions[i]).user_id,
        ) by {
            lemma_push_has_key(self.users, user, user_id(), g.users_permissions[i].user_id);
        }
    }

    /// A permission row with a new id and a new name keeps the graph well
    /// formed.
    pub proof fn lemma_with_permission_wf(self, permission: Permission)
        requires
            self.wf(),
            !has_key(self.permissions, permission_id(), permission.id),
            !has_key(self.permissions, permission_name(), permission.name@),
        ensures
            self.with_permission(permission).wf(),
    {
        lemma_push_distinct_by(self.permissions, permission, permission_id());
        lemma_push_distinct_by(self.permissions, permission, permission_name());
        let g = self.with_permission(permission);
        assert forall|i: int| 0 <= i < g.users_permissions.len() implies has_key(
            g.permissions,
            permission_id(),
            (#[trigger] g.users_permissions[i]).permission_id,
        ) by {
            lemma_push_has_key(
                self.permissions,
                permission,
                permission_id(),
                g.users_permissions[i].permission_id,
            );
        }
        assert forall|i: int| 0 <= i < g.access_profiles_permissions.len() implies has_key(
            g.permissions,
            permission_id(),
            (#[trigger] g.access_profiles_permissions[i]).permission_id,
        ) by {
            lemma_push_has_key(
                self.permissions,
                permission,
                permission_id(),
                g.access_profiles_permissions[i].permission_id,
            );
        }
    }

    /// An access profile row with a new id and a new name keeps the graph
    /// well formed.
    pub proof fn lemma_with_access_profile_wf(self, access_profile: AccessProfile)
        requires
            self.wf(),
            !has_key(self.access_profiles, profile_id(), access_profile.id),
            !has_key(self.access_profiles, profile_name(), access_profile.name@),
        ensures
            self.with_access_profile(access_profile).wf(),
    {
        lemma_push_distinct_by(self.access_profiles, access_profile, profile_id());
        lemma_push_distinct_by(self.access_profiles, access_profile, profile_name());
        let g = self.with_access_profile(access_profile);
        assert forall|i: int| 0 <= i < g.access_profiles_permissions.len() implies has_key(
            g.access_profiles,
            profile_id(),
            (#[trigger] g.access_profiles_permissions[i]).access_profile_id,
        ) by {
            lemma_push_has_key(
                self.access_profiles,
                access_profile,
                profile_id(),
                g.access_profiles_permissions[i].access_profile_id,
            );
        }
    }

    /// An access code with a new id and a new text, of a user that exists,
    /// keeps the graph well formed.
    pub proof fn lemma_with_access_code_wf(self, access_code: AccessCode)
        requires
            self.wf(),
            !has_key(self.access_codes, code_id(), access_code.id),
            !has_key(self.access_codes, code_text(), access_code.code@),
            has_key(self.users, user_id(), access_code.user),
        ensures
            self.with_access_code(access_code).wf(),
    {
        lemma_push_distinct_by(self.access_codes, access_code, code_id());
        lemma_push_distinct_by(self.access_codes, access_code, code_text());
        let g = self.with_access_code(access_code);
        assert forall|i: int| 0 <= i < g.access_codes.len() implies has_key(
            g.users,
            user_id(),
            (#[trigger] g.access_codes[i]).user,
        ) by {
            if i < self.access_codes.len() {
                assert(g.access_codes[i] == self.access_codes[i]);
            }
        }
    }

    /// A new edge between a user and a permission that both exist keeps the
    /// graph well formed.
    pub proof fn lemma_with_user_permission_wf(self, edge: UserPermission)
        requires
            self.wf(),
            !self.user_holds(edge.user_id, edge.permission_id),
            has_key(self.users, user_id(), edge.user_id),
            has_key(self.permissions, permission_id(), edge.permission_id),
        ensures
            self.with_user_permission(edge).wf(),
    {
        if has_key(self.users_permissions, user_edge(), edge) {
            let i = choose|i: int|
                0 <= i < self.users_permissions.len() && user_edge()(
                    #[trigger] self.users_permissions[i],
                ) == edge;
            assert(self.users_permissions[i] == edge);
        }
        lemma_push_distinct_by(self.users_permissions, edge, user_edge());
        let g = self.with_user_permission(edge);
        assert forall|i: int| 0 <= i < g.users_permissions.len() implies has_key(
            g.users,
            user_id(),
            (#[trigger] g.users_permissions[i]).user_id,
        ) && has_key(g.permissions, permission_id(), g.users_permissions[i].permission_id) by {
            if i < self.users_permissions.len() {
                assert(g.users_permissions[i] == self.users_permissions[i]);
            }
        }
    }

    /// A new edge between an access profile and a permission that both exist
    /// keeps the graph well formed.
    pub proof fn lemma_with_profile_permission_wf(self, edge: AccessProfilePermission)
        requires
            self.wf(),
            !self.profile_admits(edge.access_profile_id, edge.permission_id),
            has_key(self.access_profiles, profile_id(), edge.access_profile_id),
            has_key(self.permissions, permission_id(), edge.permission_id),
        ensures
            self.with_profile_permission(edge).wf(),
    {
        if has_key(self.access_profiles_permissions, profile_edge(), edge) {
            let i = choose|i: int|
                0 <= i < self.access_profiles_permissions.len() && profile_edge()(
                    #[trigger] self.access_profiles_permissions[i],
                ) == edge;
            assert(self.access_profiles_permissions[i] == edge);
        }
        lemma_push_distinct_by(self.access_profiles_permissions, edge, profile_edge());
        let g = self.with_profile_permission(edge);
        assert forall|i: int| 0 <= i < g.access_profiles_permissions.len() implies has_key(
            g.access_profiles,
            profile_id(),
            (#[trigger] g.access_profiles_permissions[i]).access_profile_id,
        ) && has_key(
            g.permissions,
            permission_id(),
            g.access_profiles_permissions[i].permission_id,
        ) by {
            if i < self.access_profiles_permissions.len() {
                assert(g.access_profiles_permissions[i] == self.access_profiles_permissions[i]);
            }
        }
    }

    /// Dropping any user-permission edges keeps the graph well formed.
    pub proof fn lemma_fewer_user_edges_wf(self, keep: spec_fn(UserPermission) -> bool)
        requires
            self.wf(),
        ensures
            (GraphView { users_permissions: self.users_permissions.filter(keep), ..self }).wf(),
    {
        let g = GraphView { users_permissions: self.users_permissions.filter(keep), ..self };
        lemma_filter_distinct_by(self.users_permissions, keep, user_edge());
        lemma_filter_members(self.users_permissions, keep);
        assert forall|i: int| 0 <= i < g.users_permissions.len() implies has_key(
            g.users,
            user_id(),
            (#[trigger] g.users_permissions[i]).user_id,
        ) && has_key(g.permissions, permission_id(), g.users_permissions[i].permission_id) by {
            let e = g.users_permissions[i];
            assert(g.users_permissions.contains(e));
            let k = choose|k: int|
                0 <= k < self.users_permissions.len() && self.users_permissions[k] == e;
            assert(self.users_permissions[k] == e);
        }
    }

    /// Dropping any profile-permission edges keeps the graph well formed.
    pub proof fn lemma_fewer_profile_edges_wf(self, keep: spec_fn(AccessProfilePermission) -> bool)
        requires
            self.wf(),
        ensures
            (GraphView {
                access_profiles_permissions: self.access_profiles_permissions.filter(keep),
                ..self
            }).wf(),
    {
        let g = GraphView {
            access_profiles_permissions: self.access_profiles_permissions.filter(keep),
            ..self
        };
        lemma_filter_distinct_by(self.access_profiles_permissions, keep, profile_edge());
        lemma_filter_members(self.access_profiles_permissions, keep);
        assert forall|i: int| 0 <= i < g.access_profiles_permissions.len() implies has_key(
            g.access_profiles,
            profile_id(),
            (#[trigger] g.access_profiles_permissions[i]).access_profile_id,
        ) && has_key(
            g.permissions,
            permission_id(),
            g.access_profiles_permissions[i].permission_id,
        ) by {
            let e = g.access_profiles_permissions[i];
            assert(g.access_profiles_permissions.contains(e));
            let k = choose|k: int|
                0 <= k < self.access_profiles_permissions.len()
                    && self.access_profiles_permissions[k] == e;
            assert(self.access_profiles_permissions[k] == e);
        }
    }

    /// Dropping any access codes keeps the graph well formed.
    pub proof fn lemma_fewer_codes_wf(self, keep: spec_fn(AccessCode) -> bool)
        requires
            self.wf(),
        ensures
            (GraphView { access_codes: self.access_codes.filter(keep), ..self }).wf(),
    {
        let g = GraphView { access_codes: self.access_codes.filter(keep), ..self };
        lemma_filter_distinct_by(self.access_codes, keep, code_id());
        lemma_filter_distinct_by(self.access_codes, keep, code_text());
        lemma_filter_members(self.access_codes, keep);
        assert forall|i: int| 0 <= i < g.access_codes.len() implies has_key(
            g.users,
            user_id(),
            (#[trigger] g.access_codes[i]).user,
        ) by {
            let c = g.access_codes[i];
            assert(g.access_codes.contains(c));
            let k = choose|k: int| 0 <= k < self.access_codes.len() && self.access_codes[k] == c;
            assert(self.access_codes[k] == c);
        }
    }

    /// Once nothing refers to a user, dropping its row keeps the graph well
    /// formed.
    pub proof fn lemma_without_user_row_wf(self, id: i32)
        requires
            self.wf(),
            forall|i: int|
                0 <= i < self.access_codes.len() ==> (#[trigger] self.access_codes[i]).user != id,
            forall|i: int|
                0 <= i < self.users_permissions.len() ==> (
                #[trigger] self.users_permissions[i]).user_id != id,
        ensures
            self.without_user_row(id).wf(),
    {
        let g = self.without_user_row(id);
        let keep = user_other_than(id);
        lemma_filter_distinct_by(self.users, keep, user_id());
        lemma_filter_distinct_by(self.users, keep, user_name());
        assert forall|k: i32| k != id && has_key(self.users, user_id(), k) implies has_key(
            g.users,
            user_id(),
            k,
        ) by {
            lemma_filter_has_key(self.users, keep, user_id(), k);
            let i = choose|i: int| 0 <= i < self.users.len() && user_id()(#[trigger] self.users[i]) == k;
            assert(user_id()(self.users[i]) == k && keep(self.users[i]));
        }
        assert forall|i: int| 0 <= i < g.access_codes.len() implies has_key(
            g.users,
            user_id(),
            (#[trigger] g.access_codes[i]).user,
        ) by {
            assert(self.access_codes[i].user != id);
        }
        assert forall|i: int| 0 <= i < g.users_permissions.len() implies has_key(
            g.users,
            user_id(),
            (#[trigger] g.users_permissions[i]).user_id,
        ) by {
            assert(self.users_permissions[i].user_id != id);
        }
    }

    /// Once nothing refers to a permission, dropping its row keeps the graph
    /// well formed.
    pub proof fn lemma_without_permission_row_wf(self, id: i32)
        requires
            self.wf(),
            forall|i: int|
                0 <= i < self.users_permissions.len() ==> (
                #[trigger] self.users_permissions[i]).permission_id != id,
            forall|i: int|
                0 <= i < self.access_profiles_permissions.len() ==> (
                #[trigger] self.access_profiles_permissions[i]).permission_id != id,
        ensures
            self.without_permission_row(id).wf(),
    {
        let g = self.without_permission_row(id);
        let keep = permission_other_than(id);
        lemma_filter_distinct_by(self.permissions, keep, permission_id());
        lemma_filter_distinct_by(self.permissions, keep, permission_name());
        assert forall|k: i32|
            k != id && has_key(self.permissions, permission_id(), k) implies has_key(
            g.permissions,
            permission_id(),
            k,
        ) by {
            lemma_filter_has_key(self.permissions, keep, permission_id(), k);
            let i = choose|i: int|
                0 <= i < self.permissions.len() && permission_id()(#[trigger] self.permissions[i])
                    == k;
            assert(permission_id()(self.permissions[i]) == k && keep(self.permissions[i]));
        }
        assert forall|i: int| 0 <= i < g.users_permissions.len() implies has_key(
            g.permissions,
            permission_id(),
            (#[trigger] g.users_permissions[i]).permission_id,
        ) by {
            assert(self.users_permissions[i].permission_id != id);
        }
        assert forall|i: int| 0 <= i < g.access_profiles_permissions.len() implies has_key(
            g.permissions,
            permission_id(),
            (#[trigger] g.access_profiles_permissions[i]).permission_id,
        ) by {
            assert(self.access_profiles_permissions[i].permission_id != id);
        }
    }

    /// Once nothing refers to an access profile, dropping its row keeps the
    /// graph well formed.
    pub proof fn lemma_without_profile_row_wf(self, id: i32)
        requires
            self.wf(),
            forall|i: int|
                0 <= i < self.access_profiles_permissions.len() ==> (
                #[trigger] self.access_profiles_permissions[i]).access_profile_id != id,
        ensures
            self.without_profile_row(id).wf(),
    {
        let g = self.without_profile_row(id);
        let keep = profile_other_than(id);
        lemma_filter_distinct_by(self.access_profiles, keep, profile_id());
        lemma_filter_distinct_by(self.access_profiles, keep, profile_name());
        assert forall|k: i32|
            k != id && has_key(self.access_profiles, profile_id(), k) implies has_key(
            g.access_profiles,
            profile_id(),
            k,
        ) by {
            lemma_filter_has_key(self.access_profiles, keep, profile_id(), k);
            let i = choose|i: int|
                0 <= i < self.access_profiles.len() && profile_id()(
                    #[trigger] self.access_profiles[i],
                ) == k;
            assert(profile_id()(self.access_profiles[i]) == k && keep(self.access_profiles[i]));
        }
        assert forall|i: int| 0 <= i < g.access_profiles_permissions.len() implies has_key(
            g.access_profiles,
            profile_id(),
            (#[trigger] g.access_profiles_permissions[i]).access_profile_id,
        ) by {
            assert(self.access_profiles_permissions[i].access_profile_id != id);
        }
    }

    /// Deleting a user keeps the graph well formed.
    pub proof fn lemma_without_user_wf(self, id: i32)
        requires
            self.wf(),
        ensures
            self.without_user(id).wf(),
    {
        self.lemma_fewer_user_edges_wf(user_edge_not_of_user(id));
        let a = self.without_user_edges_of_user(id);
        a.lemma_fewer_codes_wf(code_not_of_user(id));
        let b = a.without_codes_of_user(id);
        assert forall|i: int| 0 <= i < b.access_codes.len() implies (#[trigger] b.access_codes[i]).user
            != id by {
            self.access_codes.lemma_filter_pred(code_not_of_user(id), i);
        }
        assert forall|i: int| 0 <= i < b.users_permissions.len() implies (
        #[trigger] b.users_permissions[i]).user_id != id by {
            self.users_permissions.lemma_filter_pred(user_edge_not_of_user(id), i);
        }
        b.lemma_without_user_row_wf(id);
    }

    /// Deleting a permission keeps the graph well formed.
    pub proof fn lemma_without_permission_wf(self, id: i32)
        requires
            self.wf(),
        ensures
            self.without_permission(id).wf(),
    {
        self.lemma_fewer_user_edges_wf(user_edge_not_of_permission(id));
        let a = self.without_user_edges_of_permission(id);
        a.lemma_fewer_profile_edges_wf(profile_edge_not_of_permission(id));
        let b = a.without_profile_edges_of_permission(id);
        assert forall|i: int| 0 <= i < b.users_permissions.len() implies (
        #[trigger] b.users_permissions[i]).permission_id != id by {
            self.users_permissions.lemma_filter_pred(user_edge_not_of_permission(id), i);
        }
        assert forall|i: int| 0 <= i < b.access_profiles_permissions.len() implies (
        #[trigger] b.access_profiles_permissions[i]).permission_id != id by {
            self.access_profiles_permissions.lemma_filter_pred(
                profile_edge_not_of_permission(id),
                i,
            );
        }
        b.lemma_without_permission_row_wf(id);
    }

    /// Deleting an access profile keeps the graph well formed.
    pub proof fn lemma_without_access_profile_wf(self, id: i32)
        requires
            self.wf(),
        ensures
            self.without_access_profile(id).wf(),
    {
        self.lemma_fewer_profile_edges_wf(profile_edge_not_of_profile(id));
        let a = self.without_profile_edges_of_profile(id);
        assert forall|i: int| 0 <= i < a.access_profiles_permissions.len() implies (
        #[trigger] a.access_profiles_permissions[i]).access_profile_id != id by {
            self.access_profiles_permissions.lemma_filter_pred(profile_edge_not_of_profile(id), i);
        }
        a.lemma_without_profile_row_wf(id);
    }

    /// A user that takes the place of the one with its id, under a name
    /// that no other user has, keeps the graph well formed.
    pub proof fn lemma_with_user_replaced_wf(self, row: User)
        requires
            self.wf(),
            !user_name_taken(self.users, row),
        ensures
            self.with_user_replaced(row).wf(),
    {
        let s = self.users;
        let t = s.map_values(user_replaced_by(row));
        assert forall|i: int| 0 <= i < s.len() implies user_id()(#[trigger] t[i]) == user_id()(
            s[i],
        ) by {}
        lemma_same_keys(s, t, user_id());
        assert forall|i: int, j: int| 0 <= i < j < t.len() implies user_name()(#[trigger] t[i])
            != user_name()(#[trigger] t[j]) by {
            assert(user_id()(s[i]) != user_id()(s[j]));
            assert(user_name()(s[i]) != user_name()(s[j]));
        }
    }

    /// A permission that takes the place of the one with its id, under a name
    /// that no other permission has, keeps the graph well formed.
    pub proof fn lemma_with_permission_replaced_wf(self, row: Permission)
        requires
            self.wf(),
            !permission_name_taken(self.permissions, row),
        ensures
            self.with_permission_replaced(row).wf(),
    {
        let s = self.permissions;
        let t = s.map_values(permission_replaced_by(row));
        assert forall|i: int| 0 <= i < s.len() implies permission_id()(#[trigger] t[i]) == permission_id()(
            s[i],
        ) by {}
        lemma_same_keys(s, t, permission_id());
        assert forall|i: int, j: int| 0 <= i < j < t.len() implies permission_name()(#[trigger] t[i])
            != permission_name()(#[trigger] t[j]) by {
            assert(permission_id()(s[i]) != permission_id()(s[j]));
            assert(permission_name()(s[i]) != permission_name()(s[j]));
        }
    }

    /// An access profile that takes the place of the one with its id, under a name
    /// that no other access profile has, keeps the graph well formed.
    pub proof fn lemma_with_profile_replaced_wf(self, row: AccessProfile)
        requires
            self.wf(),
            !profile_name_taken(self.access_profiles, row),
        ensures
            self.with_profile_replaced(row).wf(),
    {
        let s = self.access_profiles;
        let t = s.map_values(profile_replaced_by(row));
        assert forall|i: int| 0 <= i < s.len() implies profile_id()(#[trigger] t[i]) == profile_id()(
            s[i],
        ) by {}
        lemma_same_keys(s, t, profile_id());
        assert forall|i: int, j: int| 0 <= i < j < t.len() implies profile_name()(#[trigger] t[i])
            != profile_name()(#[trigger] t[j]) by {
            assert(profile_id()(s[i]) != profile_id()(s[j]));
            assert(profile_name()(s[i]) != profile_name()(s[j]));
        }
    }
}

} // verus!
