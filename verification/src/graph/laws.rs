//! What holds of every well-formed graph: lookups behave as sets, and a
//! deleted permission is gone from every lookup.

use vstd::prelude::*;

use crate::graph::view::{
    permission_id, permission_other_than, profile_edge_not_of_permission, profile_id,
    user_edge_not_of_permission, user_id, GraphView,
};
use crate::models::{AccessProfile, AccessProfilePermission, Permission, User, UserPermission};
use crate::seq_lemmas::{
    distinct_by, has_key, lemma_filter_distinct_by, lemma_filter_has_key, lemma_filter_members,
};

verus! {

/// Rows that differ in their key are different rows.
pub proof fn lemma_distinct_by_no_duplicates<A, K>(s: Seq<A>, key: spec_fn(A) -> K)
    requires
        distinct_by(s, key),
    ensures
        s.no_duplicates(),
{
    assert forall|i: int, j: int| 0 <= i < s.len() && 0 <= j < s.len() && i != j implies s[i]
        != s[j] by {
        if i < j {
            assert(key(s[i]) != key(s[j]));
        } else {
            assert(key(s[j]) != key(s[i]));
        }
    }
}

/// Every lookup of a well-formed graph is free of duplicates: no id comes
/// back twice.
pub proof fn lemma_lookups_are_duplicate_free(
    g: GraphView,
    user: i32,
    permission: i32,
    access_profile: i32,
    permissions: Seq<Permission>,
)
    requires
        g.wf(),
    ensures
        distinct_by(g.permissions_of(user), permission_id()),
        g.permissions_of(user).no_duplicates(),
        distinct_by(g.users_of(permission), user_id()),
        g.users_of(permission).no_duplicates(),
        distinct_by(g.profiles_of(permission), profile_id()),
        g.profiles_of(permission).no_duplicates(),
        distinct_by(g.profiles_of_all(permissions), profile_id()),
        g.profiles_of_all(permissions).no_duplicates(),
        distinct_by(g.permissions_of_profile(access_profile), permission_id()),
        g.permissions_of_profile(access_profile).no_duplicates(),
{
    lemma_filter_distinct_by(g.permissions, g.held_by(user), permission_id());
    lemma_distinct_by_no_duplicates(g.permissions_of(user), permission_id());
    lemma_filter_distinct_by(g.users, g.holders_of(permission), user_id());
    lemma_distinct_by_no_duplicates(g.users_of(permission), user_id());
    lemma_filter_distinct_by(g.access_profiles, g.admitting(permission), profile_id());
    lemma_distinct_by_no_duplicates(g.profiles_of(permission), profile_id());
    lemma_filter_distinct_by(g.access_profiles, g.admitting_any(permissions), profile_id());
    lemma_distinct_by_no_duplicates(g.profiles_of_all(permissions), profile_id());
    lemma_filter_distinct_by(g.permissions, g.admitted_by(access_profile), permission_id());
    lemma_distinct_by_no_duplicates(g.permissions_of_profile(access_profile), permission_id());
}

/// A lookup returns a row exactly when the row is in its table and an edge
/// links it to the anchor: membership, with no regard to order.
pub proof fn lemma_lookups_are_memberships(g: GraphView, user: i32, permission: i32, access_profile: i32)
    ensures
        forall|p: Permission| #[trigger]
            g.permissions_of(user).contains(p) <==> g.permissions.contains(p) && g.user_holds(
                user,
                p.id,
            ),
        forall|u: User| #[trigger]
            g.users_of(permission).contains(u) <==> g.users.contains(u) && g.user_holds(
                u.id,
                permission,
            ),
        forall|a: AccessProfile| #[trigger]
            g.profiles_of(permission).contains(a) <==> g.access_profiles.contains(a)
                && g.profile_admits(a.id, permission),
        forall|p: Permission| #[trigger]
            g.permissions_of_profile(access_profile).contains(p) <==> g.permissions.contains(p)
                && g.profile_admits(access_profile, p.id),
{
    lemma_filter_members(g.permissions, g.held_by(user));
    lemma_filter_members(g.users, g.holders_of(permission));
    lemma_filter_members(g.access_profiles, g.admitting(permission));
    lemma_filter_members(g.permissions, g.admitted_by(access_profile));
}

/// The lookups do not depend on the order in which the edges were inserted:
/// two graphs with the same rows and the same sets of edges answer every
/// lookup alike.
pub proof fn lemma_lookups_ignore_edge_order(
    g: GraphView,
    h: GraphView,
    user: i32,
    permission: i32,
    access_profile: i32,
    permissions: Seq<Permission>,
)
    requires
        g.users == h.users,
        g.permissions == h.permissions,
        g.access_profiles == h.access_profiles,
        g.users_permissions.to_set() == h.users_permissions.to_set(),
        g.access_profiles_permissions.to_set() == h.access_profiles_permissions.to_set(),
    ensures
        g.permissions_of(user) == h.permissions_of(user),
        g.users_of(permission) == h.users_of(permission),
        g.profiles_of(permission) == h.profiles_of(permission),
        g.profiles_of_all(permissions) == h.profiles_of_all(permissions),
        g.permissions_of_profile(access_profile) == h.permissions_of_profile(access_profile),
{
    assert forall|u: i32, p: i32| g.user_holds(u, p) == h.user_holds(u, p) by {
        let e = UserPermission { user_id: u, permission_id: p };
        assert(g.users_permissions.to_set().contains(e) == g.users_permissions.contains(e));
        assert(h.users_permissions.to_set().contains(e) == h.users_permissions.contains(e));
    }
    assert forall|a: i32, p: i32| g.profile_admits(a, p) == h.profile_admits(a, p) by {
        let e = AccessProfilePermission { access_profile_id: a, permission_id: p };
        assert(g.access_profiles_permissions.to_set().contains(e)
            == g.access_profiles_permissions.contains(e));
        assert(h.access_profiles_permissions.to_set().contains(e)
            == h.access_profiles_permissions.contains(e));
    }
    assert(g.held_by(user) =~= h.held_by(user));
    assert(g.holders_of(permission) =~= h.holders_of(permission));
    assert(g.admitting(permission) =~= h.admitting(permission));
    assert(g.admitted_by(access_profile) =~= h.admitted_by(access_profile));
    assert forall|a: AccessProfile| #[trigger]
        g.profile_admits_any(a.id, permissions) == h.profile_admits_any(a.id, permissions) by {
        if g.profile_admits_any(a.id, permissions) {
            let i = choose|i: int|
                0 <= i < permissions.len() && g.profile_admits(a.id, (#[trigger] permissions[i]).id);
            assert(h.profile_admits(a.id, permissions[i].id));
        }
        if h.profile_admits_any(a.id, permissions) {
            let i = choose|i: int|
                0 <= i < permissions.len() && h.profile_admits(a.id, (#[trigger] permissions[i]).id);
            assert(g.profile_admits(a.id, permissions[i].id));
        }
    }
    assert(g.admitting_any(permissions) =~= h.admitting_any(permissions));
}

/// Assigning two edges in either order gives graphs that answer every
/// lookup alike.
pub proof fn lemma_assignment_order_is_irrelevant(
    g: GraphView,
    first: UserPermission,
    second: UserPermission,
    user: i32,
    permission: i32,
)
    ensures
        g.with_user_permission(first).with_user_permission(second).permissions_of(user)
            == g.with_user_permission(second).with_user_permission(first).permissions_of(user),
        g.with_user_permission(first).with_user_permission(second).users_of(permission)
            == g.with_user_permission(second).with_user_permission(first).users_of(permission),
{
    let a = g.with_user_permission(first).with_user_permission(second);
    let b = g.with_user_permission(second).with_user_permission(first);
    assert forall|e: UserPermission|
        a.users_permissions.contains(e) == b.users_permissions.contains(e) by {
        let s = g.users_permissions;
        if a.users_permissions.contains(e) {
            let k = choose|k: int| 0 <= k < a.users_permissions.len() && a.users_permissions[k] == e;
            if k < s.len() {
                assert(b.users_permissions[k] == e);
            } else if k == s.len() {
                assert(b.users_permissions[s.len() as int + 1] == e);
            } else {
                assert(b.users_permissions[s.len() as int] == e);
            }
        }
        if b.users_permissions.contains(e) {
            let k = choose|k: int| 0 <= k < b.users_permissions.len() && b.users_permissions[k] == e;
            if k < s.len() {
                assert(a.users_permissions[k] == e);
            } else if k == s.len() {
                assert(a.users_permissions[s.len() as int + 1] == e);
            } else {
                assert(a.users_permissions[s.len() as int] == e);
            }
        }
    }
    assert(a.users_permissions.to_set() =~= b.users_permissions.to_set());
    lemma_lookups_ignore_edge_order(a, b, user, permission, 0, Seq::empty());
}

/// Deleting a permission removes its row and every edge that refers to it,
/// so that no lookup returns it any more; what links other permissions
/// stays as it was.
pub proof fn lemma_deleted_permission_is_unlinked(g: GraphView, deleted: i32)
    ensures
        !has_key(g.without_permission(deleted).permissions, permission_id(), deleted),
        forall|i: int|
            0 <= i < g.without_permission(deleted).users_permissions.len() ==> (
            #[trigger] g.without_permission(deleted).users_permissions[i]).permission_id
                != deleted,
        forall|i: int|
            0 <= i < g.without_permission(deleted).access_profiles_permissions.len() ==> (
            #[trigger] g.without_permission(deleted).access_profiles_permissions[i]).permission_id
                != deleted,
        forall|user: i32, permission: i32|
            #![trigger g.without_permission(deleted).user_holds(user, permission)]
            g.without_permission(deleted).user_holds(user, permission) <==> permission != deleted
                && g.user_holds(user, permission),
        forall|access_profile: i32, permission: i32|
            #![trigger g.without_permission(deleted).profile_admits(access_profile, permission)]
            g.without_permission(deleted).profile_admits(access_profile, permission)
                <==> permission != deleted && g.profile_admits(access_profile, permission),
        forall|user: i32|
            !has_key(
                #[trigger] g.without_permission(deleted).permissions_of(user),
                permission_id(),
                deleted,
            ),
        forall|access_profile: i32|
            !has_key(
                #[trigger] g.without_permission(deleted).permissions_of_profile(access_profile),
                permission_id(),
                deleted,
            ),
        g.without_permission(deleted).users_of(deleted) == Seq::<User>::empty(),
        g.without_permission(deleted).profiles_of(deleted) == Seq::<AccessProfile>::empty(),
{
    let h = g.without_permission(deleted);
    lemma_filter_has_key(g.permissions, permission_other_than(deleted), permission_id(), deleted);
    lemma_filter_members(g.users_permissions, user_edge_not_of_permission(deleted));
    lemma_filter_members(
        g.access_profiles_permissions,
        profile_edge_not_of_permission(deleted),
    );
    assert forall|i: int| 0 <= i < h.users_permissions.len() implies (
    #[trigger] h.users_permissions[i]).permission_id != deleted by {
        g.users_permissions.lemma_filter_pred(user_edge_not_of_permission(deleted), i);
    }
    assert forall|i: int| 0 <= i < h.access_profiles_permissions.len() implies (
    #[trigger] h.access_profiles_permissions[i]).permission_id != deleted by {
        g.access_profiles_permissions.lemma_filter_pred(profile_edge_not_of_permission(deleted), i);
    }
    assert forall|user: i32, permission: i32|
        #![trigger h.user_holds(user, permission)]
        h.user_holds(user, permission) <==> permission != deleted && g.user_holds(
            user,
            permission,
        ) by {
        let e = UserPermission { user_id: user, permission_id: permission };
        assert(h.users_permissions.contains(e) <==> g.users_permissions.contains(e)
            && user_edge_not_of_permission(deleted)(e));
    }
    assert forall|access_profile: i32, permission: i32|
        #![trigger h.profile_admits(access_profile, permission)]
        h.profile_admits(access_profile, permission) <==> permission != deleted
            && g.profile_admits(access_profile, permission) by {
        let e = AccessProfilePermission { access_profile_id: access_profile, permission_id: permission };
        assert(h.access_profiles_permissions.contains(e)
            <==> g.access_profiles_permissions.contains(e) && profile_edge_not_of_permission(
            deleted,
        )(e));
    }
    assert forall|user: i32|
        !has_key(#[trigger] h.permissions_of(user), permission_id(), deleted) by {
        lemma_filter_has_key(h.permissions, h.held_by(user), permission_id(), deleted);
        if has_key(h.permissions_of(user), permission_id(), deleted) {
            let i = choose|i: int|
                0 <= i < h.permissions.len() && permission_id()(#[trigger] h.permissions[i])
                    == deleted && h.held_by(user)(h.permissions[i]);
            assert(permission_id()(h.permissions[i]) == deleted);
            assert(has_key(h.permissions, permission_id(), deleted));
        }
    }
    assert forall|access_profile: i32|
        !has_key(
            #[trigger] h.permissions_of_profile(access_profile),
            permission_id(),
            deleted,
        ) by {
        lemma_filter_has_key(h.permissions, h.admitted_by(access_profile), permission_id(), deleted);
        if has_key(h.permissions_of_profile(access_profile), permission_id(), deleted) {
            let i = choose|i: int|
                0 <= i < h.permissions.len() && permission_id()(#[trigger] h.permissions[i])
                    == deleted && h.admitted_by(access_profile)(h.permissions[i]);
            assert(permission_id()(h.permissions[i]) == deleted);
            assert(has_key(h.permissions, permission_id(), deleted));
        }
    }
    h.users.lemma_all_neg_filter_empty(h.holders_of(deleted));
    h.access_profiles.lemma_all_neg_filter_empty(h.admitting(deleted));
}

} // verus!
