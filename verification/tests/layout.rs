use ruac::backend_layout::{module_dependency_alias, user_identifier};
use ruac::table::KeySet;

#[test]
fn user_identifier_is_lua_safe_and_injective() {
    assert_ne!(user_identifier("end"), "end");
    assert_eq!(user_identifier("ordinary_name"), "ordinary_name");
    assert_ne!(
        user_identifier("repeat"),
        user_identifier("__rua_user_726570656174")
    );
    assert!(user_identifier("变量")
        .bytes()
        .all(|byte| byte.is_ascii_alphanumeric() || byte == b'_'));
}

#[test]
fn module_dependency_alias_is_path_stable_and_collision_safe() {
    let mut used = KeySet::new();
    let path = vec!["domain".to_string(), "order".to_string()];
    assert_eq!(
        module_dependency_alias(&path, 3, &mut used),
        "__rua_dep_domain_order"
    );
    assert_eq!(
        module_dependency_alias(&path, 7, &mut used),
        "__rua_dep_domain_order_7"
    );
}
