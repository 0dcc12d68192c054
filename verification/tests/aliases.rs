use devstart::alias::AliasMap;

#[test]
fn builtin_aliases_expand() {
    let m = AliasMap::builtin();
    assert_eq!(m.aton("b"), "build");
    assert_eq!(m.aton("s"), "start");
    assert_eq!(m.aton("r"), "run");
    assert_eq!(m.aton("build"), "build");
    assert_eq!(m.aton("zz"), "zz");
}

#[test]
fn names_find_their_alias() {
    let m = AliasMap::builtin();
    assert_eq!(m.ntoa("build"), Some("b".to_string()));
    assert_eq!(m.ntoa("format"), Some("f".to_string()));
    assert_eq!(m.ntoa("deploy"), None);
    assert_eq!(m.ntoa("b"), None);
}

#[test]
fn alias_round_trip_and_replacement() {
    let mut m = AliasMap::new();
    m.insert("x".to_string(), "deploy".to_string());
    m.insert("w".to_string(), "deploy".to_string());
    let a = m.ntoa("deploy").unwrap();
    assert_eq!(a, "w");
    assert_eq!(m.aton(&a), "deploy");
    m.insert("x".to_string(), "release".to_string());
    assert_eq!(m.aton("x"), "release");
    assert_eq!(m.ntoa("release"), Some("x".to_string()));
}
