use sandbox_host::resolve::{ResolutionError, Resolver};

#[test]
fn relative_against_referrer() {
    let r = Resolver::new(None);
    assert_eq!(r.resolve("./util.js", Some("/project/main.js")).unwrap(), "/project/util.js");
    assert_eq!(r.resolve("../lib/x.js", Some("/project/src/main.js")).unwrap(), "/project/lib/x.js");
    assert_eq!(r.resolve("./a/./b/../c.js", Some("/p/m.js")).unwrap(), "/p/a/c.js");
}

#[test]
fn parent_stops_at_root() {
    let r = Resolver::new(None);
    assert_eq!(r.resolve("../../../x.js", Some("/a/m.js")).unwrap(), "/x.js");
    assert_eq!(r.resolve("../", Some("/m.js")).unwrap(), "/");
}

#[test]
fn absolute_is_normalized() {
    let r = Resolver::new(None);
    assert_eq!(r.resolve("/project/util.js", None).unwrap(), "/project/util.js");
    assert_eq!(r.resolve("//project/./x/../util.js", Some("/q/m.js")).unwrap(), "/project/util.js");
}

#[test]
fn builtin_unchanged() {
    let r = Resolver::new(None);
    assert_eq!(r.resolve("ext:init_fs/init_fs.js", None).unwrap(), "ext:init_fs/init_fs.js");
    assert_eq!(r.resolve("ext:", None), Err(ResolutionError::Malformed));
}

#[test]
fn entry_uses_base_dir() {
    let r = Resolver::new(Some("/home/app".to_string()));
    assert_eq!(r.resolve("./test.js", None).unwrap(), "/home/app/test.js");
    let none = Resolver::new(None);
    assert_eq!(none.resolve("./test.js", None), Err(ResolutionError::NoReferrer));
    let rel = Resolver::new(Some("home".to_string()));
    assert_eq!(rel.resolve("./test.js", None), Err(ResolutionError::Malformed));
}

#[test]
fn unsupported_forms_are_malformed() {
    let r = Resolver::new(Some("/base".to_string()));
    assert_eq!(r.resolve("", None), Err(ResolutionError::Malformed));
    assert_eq!(r.resolve("lodash", None), Err(ResolutionError::Malformed));
    assert_eq!(r.resolve("https://x/y.js", None), Err(ResolutionError::Malformed));
    assert_eq!(r.resolve("./x.js", Some("ext:mod")), Err(ResolutionError::Malformed));
}

#[test]
fn resolution_is_repeatable() {
    let r = Resolver::new(Some("/base".to_string()));
    for (s, referrer) in [("./a.js", Some("/p/m.js")), ("../b.js", None), ("x", None)] {
        assert_eq!(r.resolve(s, referrer), r.resolve(s, referrer));
    }
}
