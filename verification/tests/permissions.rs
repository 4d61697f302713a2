use coconutpak::permissions::{permission_granted, Permissions};

#[derive(Clone, Copy, Debug, PartialEq)]
enum Role {
    Guest,
    Admin,
    Editor,
    Viewer,
}

impl Permissions for Role {
    fn spec_admin() -> Role {
        Role::Admin
    }

    fn all() -> Vec<Role> {
        vec![Role::Guest, Role::Admin, Role::Editor, Role::Viewer]
    }

    fn anonymous() -> Role {
        Role::Guest
    }

    fn admin() -> Role {
        Role::Admin
    }
}

#[test]
fn the_administrators_permission_is_always_granted() {
    assert!(Role::admin().has_permission(&[]));
    assert!(Role::Admin.has_permission(&[Role::Viewer]));
}

#[test]
fn other_permissions_are_granted_when_held() {
    assert!(Role::Editor.has_permission(&[Role::Viewer, Role::Editor]));
    assert!(!Role::Editor.has_permission(&[Role::Viewer]));
    assert!(!Role::Editor.has_permission(&[Role::Admin]));
    assert!(!Role::anonymous().has_permission(&[]));
    assert_eq!(Role::all().len(), 4);
}

#[test]
fn permissions_are_granted_by_equality() {
    assert!(permission_granted(&3u8, &0u8, &[1, 2, 3]));
    assert!(permission_granted(&0u8, &0u8, &[]));
    assert!(!permission_granted(&4u8, &0u8, &[1, 2, 3]));
}
