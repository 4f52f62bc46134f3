use rage_of_mages::resource::normalize_resource_name;

#[test]
fn names_normalize_to_jar_root() {
    assert_eq!(normalize_resource_name("/res/res0.pak"), "res/res0.pak");
    assert_eq!(normalize_resource_name("res/bgsound.mid"), "res/bgsound.mid");
    assert_eq!(normalize_resource_name("/sincos/sin.int"), "sincos/sin.int");
}

#[test]
fn only_one_leading_slash_is_stripped() {
    assert_eq!(normalize_resource_name("//a"), "/a");
    assert_eq!(normalize_resource_name(""), "");
    assert_eq!(normalize_resource_name("/"), "");
}
