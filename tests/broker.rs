use sandbox_host::permissions::{
    Capability, DenyReason, Grant, PermissionDecision, PermissionRequest, Permissions, Policy,
};

fn request(capability: Capability, path: Option<&str>) -> PermissionRequest {
    PermissionRequest {
        capability,
        path: path.map(|p| p.to_string()),
        api_name: "test".to_string(),
        detail: None,
        open_read: true,
        open_write: false,
        resolved: false,
    }
}

fn project_policy() -> Policy {
    Policy { read: Grant::Under(vec!["/project".to_string()]), write: Grant::Nothing }
}

const ALL: [Capability; 8] = [
    Capability::Open,
    Capability::Read,
    Capability::ReadAll,
    Capability::ReadBlind,
    Capability::Write,
    Capability::WritePartial,
    Capability::WriteAll,
    Capability::WriteBlind,
];

#[test]
fn allow_all_echoes_every_path() {
    let mut broker = Permissions::allow_all();
    for c in ALL {
        for p in ["/etc/passwd", "relative/file.txt", "/"] {
            match broker.decide(&request(c, Some(p))) {
                PermissionDecision::Allow(Some(got)) => assert_eq!(got, p),
                other => panic!("unexpected decision {:?}", other),
            }
        }
    }
    assert_eq!(broker.requests, 24);
}

#[test]
fn allow_all_check_methods_succeed() {
    let mut b = Permissions::allow_all();
    assert_eq!(b.check_open(false, true, true, "/a/b", "open").unwrap(), "/a/b");
    assert!(b.check_read("/a", "read").is_ok());
    assert!(b.check_read_all("read_all").is_ok());
    assert!(b.check_read_blind("/a", "why", "read_blind").is_ok());
    assert!(b.check_write("/a", "write").is_ok());
    assert!(b.check_write_partial("/a", "write_partial").is_ok());
    assert!(b.check_write_all("write_all").is_ok());
    assert!(b.check_write_blind("/a", "why", "write_blind").is_ok());
    assert_eq!(b.requests, 8);
}

#[test]
fn empty_path_is_malformed() {
    let mut b = Permissions::allow_all();
    assert!(matches!(
        b.decide(&request(Capability::Read, Some(""))),
        PermissionDecision::Deny(DenyReason::Malformed)
    ));
    assert!(matches!(
        b.decide(&request(Capability::Write, None)),
        PermissionDecision::Deny(DenyReason::Malformed)
    ));
    assert!(matches!(b.decide(&request(Capability::ReadAll, None)), PermissionDecision::Allow(None)));
}

#[test]
fn read_roots_contain_paths() {
    let mut b = Permissions::new(project_policy());
    assert!(b.check_read("/project", "read").is_ok());
    assert!(b.check_read("/project/data.json", "read").is_ok());
    assert!(b.check_read_blind("/project/x/y", "d", "read").is_ok());
    assert!(b.check_read("/projectx/data.json", "read").is_err());
    assert!(b.check_read("/etc/passwd", "read").is_err());
    assert!(b.check_read_all("read").is_err());
}

#[test]
fn writes_denied_with_capability_and_path() {
    let mut b = Permissions::new(project_policy());
    let e = b.check_write("/project/out.txt", "write").unwrap_err();
    assert_eq!(e.capability, Capability::Write);
    assert_eq!(e.path.as_deref(), Some("/project/out.txt"));
    let e = b.check_write_all("write").unwrap_err();
    assert_eq!(e.capability, Capability::WriteAll);
    assert_eq!(e.path, None);
    assert!(b.check_write_partial("/project/a", "w").is_err());
    assert!(b.check_write_blind("/project/a", "d", "w").is_err());
}

#[test]
fn open_needs_grants_for_each_access() {
    let mut b = Permissions::new(project_policy());
    assert_eq!(b.check_open(true, true, false, "/project/a", "open").unwrap(), "/project/a");
    assert!(b.check_open(true, true, true, "/project/a", "open").is_err());
    assert!(b.check_open(true, false, false, "/elsewhere", "open").is_err());
    let e = b.check_open(false, false, true, "/project/a", "open").unwrap_err();
    assert_eq!(e.capability, Capability::Open);
}

#[test]
fn root_with_trailing_slash() {
    let mut b = Permissions::new(Policy {
        read: Grant::Under(vec!["/srv/".to_string(), "/tmp".to_string()]),
        write: Grant::Under(vec!["/tmp".to_string()]),
    });
    assert!(b.check_read("/srv/a", "r").is_ok());
    assert!(b.check_read("/tmp/a", "r").is_ok());
    assert!(b.check_write("/tmp/a", "w").is_ok());
    assert!(b.check_write("/srv/a", "w").is_err());
}

#[test]
fn policy_update_applies_to_later_decisions() {
    let mut b = Permissions::allow_all();
    assert!(b.check_write("/project/a", "w").is_ok());
    b.set_policy(project_policy());
    assert!(b.check_write("/project/a", "w").is_err());
    assert_eq!(b.requests, 2);
}

#[test]
fn parent_steps_cannot_leave_a_root() {
    let mut b = Permissions::new(project_policy());
    assert!(b.check_read("/project/../etc/passwd", "read").is_err());
    assert!(b.check_read("/project/a/../../etc/passwd", "read").is_err());
    assert!(b.check_read_blind("/project/..", "d", "read").is_err());
    assert!(b.check_open(true, true, false, "/project/../x", "open").is_err());
    assert!(b.check_read("/project/./a.txt", "read").is_ok());
    assert!(b.check_read("/project/a..b", "read").is_ok());
    let mut all = Permissions::allow_all();
    assert!(all.check_read("/project/../etc/passwd", "read").is_ok());
}
