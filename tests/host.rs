use sandbox_host::cache::{FetchError, LoadError, LoadState, LoadStep};
use sandbox_host::extensions::{check_order, extensions, Extension, StartupError};
use sandbox_host::fs::{FsError, FsModule, HostIo, MemoryIo};
use sandbox_host::host::{HostError, Phase, RuntimeHost};
use sandbox_host::loader::{BuiltinModule, ImportError, Loader};
use sandbox_host::permissions::{Capability, Grant, Permissions, Policy};
use sandbox_host::resolve::{ResolutionError, Resolver};

fn project_broker() -> Permissions {
    Permissions::new(Policy { read: Grant::Under(vec!["/project".to_string()]), write: Grant::Nothing })
}

fn project_fs() -> MemoryIo {
    MemoryIo::new(vec![
        ("/project/main.js".to_string(), b"import './util.js'".to_vec()),
        ("/project/util.js".to_string(), b"import './data.json'".to_vec()),
        ("/project/data.json".to_string(), b"{\"v\":1}".to_vec()),
    ])
}

#[test]
fn registry_order() {
    let list = extensions();
    assert_eq!(list, vec![Extension::Io, Extension::Fs, Extension::Bootstrap]);
    assert_eq!(check_order(&list), Ok(()));
}

#[test]
fn misordered_registry_is_fatal() {
    let list = vec![Extension::Fs, Extension::Io, Extension::Bootstrap];
    assert_eq!(
        check_order(&list),
        Err(StartupError { extension: Extension::Fs, missing: Extension::Io })
    );
    let list = vec![Extension::Io, Extension::Bootstrap];
    assert_eq!(
        check_order(&list),
        Err(StartupError { extension: Extension::Bootstrap, missing: Extension::Fs })
    );
    assert_eq!(check_order(&vec![]), Ok(()));
}

#[test]
fn denial_skips_backend() {
    let mut fs = FsModule::new(project_broker(), project_fs());
    let r = fs.write_file("/project/out.txt", &vec![1u8]);
    match r {
        Err(FsError::Denied(e)) => {
            assert_eq!(e.capability, Capability::Write);
            assert_eq!(e.path.as_deref(), Some("/project/out.txt"));
        }
        other => panic!("expected a denial, got {:?}", other),
    }
    assert!(matches!(fs.read_file("/etc/passwd"), Err(FsError::Denied(_))));
    assert_eq!(fs.backend.writes, 0);
    assert_eq!(fs.backend.reads, 0);
    assert_eq!(fs.broker.requests, 2);
}

#[test]
fn allowed_read_reaches_backend() {
    let mut fs = FsModule::new(project_broker(), project_fs());
    assert_eq!(fs.read_file("/project/data.json").unwrap(), b"{\"v\":1}".to_vec());
    assert!(matches!(fs.read_file("/project/missing.js"), Err(FsError::Io(FetchError::NotFound))));
    assert_eq!(fs.backend.reads, 2);
}

#[test]
fn end_to_end_read_then_denied_write() {
    let resolver = Resolver::new(Some("/project".to_string()));
    let mut loader = Loader::new(resolver, FsModule::new(project_broker(), project_fs()), vec![]);
    let main = loader.import("./main.js", None).unwrap();
    assert_eq!(loader.cache.record(main).identity, "/project/main.js");
    let util = loader.import("./util.js", Some("/project/main.js")).unwrap();
    let data = loader.import("./data.json", Some("/project/util.js")).unwrap();
    assert!(matches!(&loader.cache.record(data).state, LoadState::Ready(b) if b == &b"{\"v\":1}".to_vec()));
    assert!(matches!(loader.cache.record(util).state, LoadState::Ready(_)));

    // util.js now attempts a write under /project.
    let w = loader.fs.write_file("/project/data.json", &b"{}".to_vec());
    assert!(matches!(w, Err(FsError::Denied(ref e)) if e.capability == Capability::Write));
    assert!(matches!(&loader.cache.record(data).state, LoadState::Ready(b) if b == &b"{\"v\":1}".to_vec()));
    assert_eq!(loader.fs.backend.writes, 0);

    // A second import of the same identity is served from the cache.
    let reads = loader.fs.backend.reads;
    assert_eq!(loader.import("/project/./data.json", None), Ok(data));
    assert_eq!(loader.fs.backend.reads, reads);
}

#[test]
fn denied_module_fails_for_good() {
    let mut loader = Loader::new(Resolver::new(None), FsModule::new(project_broker(), project_fs()), vec![]);
    assert_eq!(
        loader.import("/etc/secret.js", None),
        Err(ImportError::Load(LoadError::Fetch(FetchError::Denied)))
    );
    assert_eq!(
        loader.import("/etc/secret.js", None),
        Err(ImportError::Load(LoadError::Fetch(FetchError::Denied)))
    );
    assert_eq!(loader.fs.broker.requests, 1);
    assert_eq!(loader.fs.backend.reads, 0);
}

#[test]
fn builtin_imports_skip_broker() {
    let builtins = vec![BuiltinModule { name: "ext:init_fs/init_fs.js".to_string(), source: b"init".to_vec() }];
    let mut loader = Loader::new(Resolver::new(None), FsModule::new(project_broker(), project_fs()), builtins);
    let i = loader.import("ext:init_fs/init_fs.js", None).unwrap();
    assert!(matches!(&loader.cache.record(i).state, LoadState::Ready(b) if b == &b"init".to_vec()));
    assert_eq!(
        loader.import("ext:unknown", None),
        Err(ImportError::Load(LoadError::Fetch(FetchError::NotFound)))
    );
    assert_eq!(loader.fs.broker.requests, 0);
    assert_eq!(loader.fs.backend.reads, 0);
}

#[test]
fn unresolvable_import() {
    let mut loader = Loader::new(Resolver::new(None), FsModule::new(project_broker(), project_fs()), vec![]);
    assert_eq!(loader.import("./x.js", None), Err(ImportError::Resolution(ResolutionError::NoReferrer)));
    assert_eq!(loader.cache.len(), 0);
}

#[test]
fn lifecycle_installs_before_entry() {
    let loader = Loader::new(
        Resolver::new(Some("/project".to_string())),
        FsModule::new(project_broker(), project_fs()),
        vec![],
    );
    let mut host = RuntimeHost::new(loader);
    assert_eq!(host.load_entry("./main.js"), Err(HostError::WrongPhase(Phase::Created)));
    assert_eq!(
        host.install(vec![Extension::Bootstrap]),
        Err(HostError::Startup(StartupError { extension: Extension::Bootstrap, missing: Extension::Io }))
    );
    assert_eq!(host.phase, Phase::Created);
    assert_eq!(host.install(extensions()), Ok(()));
    assert_eq!(host.install(extensions()), Err(HostError::WrongPhase(Phase::Installed)));
    let entry = host.load_entry("./main.js").unwrap();
    assert_eq!(host.loader.cache.record(entry).identity, "/project/main.js");
    assert_eq!(host.phase, Phase::Running);
    assert_eq!(host.load_entry("./main.js"), Err(HostError::WrongPhase(Phase::Running)));
    host.dispose();
    assert_eq!(host.phase, Phase::Disposed);
    assert_eq!(host.loader.cache.len(), 0);
}

#[test]
fn failed_entry_keeps_phase() {
    let loader = Loader::new(Resolver::new(None), FsModule::new(project_broker(), project_fs()), vec![]);
    let mut host = RuntimeHost::new(loader);
    assert_eq!(host.install(extensions()), Ok(()));
    assert_eq!(
        host.load_entry("./main.js"),
        Err(HostError::Import(ImportError::Resolution(ResolutionError::NoReferrer)))
    );
    assert_eq!(host.phase, Phase::Installed);
    assert_eq!(
        host.load_entry("/project/missing.js"),
        Err(HostError::Import(ImportError::Load(LoadError::Fetch(FetchError::NotFound))))
    );
}

#[test]
fn memory_backend_reads_and_writes() {
    let mut io = MemoryIo::new(vec![("/project/a.txt".to_string(), b"abc".to_vec())]);
    assert_eq!(io.read("/project/a.txt"), Ok(b"abc".to_vec()));
    assert_eq!(io.read("/project/b.txt"), Err(FetchError::NotFound));
    assert_eq!(io.write("/project/a.txt", &b"xyz".to_vec()), Ok(()));
    assert_eq!(io.write("/project/b.txt", &b"new".to_vec()), Ok(()));
    assert_eq!(io.read("/project/a.txt"), Ok(b"xyz".to_vec()));
    assert_eq!(io.read("/project/b.txt"), Ok(b"new".to_vec()));
    assert_eq!(io.files.len(), 2);
}

#[test]
fn allowed_write_reaches_memory_backend() {
    let broker = Permissions::new(Policy {
        read: Grant::Under(vec!["/project".to_string()]),
        write: Grant::Under(vec!["/project/out".to_string()]),
    });
    let mut fs = FsModule::new(broker, MemoryIo::new(vec![]));
    assert_eq!(fs.write_file("/project/out/r.txt", &b"ok".to_vec()).unwrap(), ());
    assert!(matches!(fs.write_file("/project/in.txt", &b"no".to_vec()), Err(FsError::Denied(_))));
    assert_eq!(fs.backend.files, vec![("/project/out/r.txt".to_string(), b"ok".to_vec())]);
    assert_eq!(fs.read_file("/project/out/r.txt").unwrap(), b"ok".to_vec());
}

#[test]
fn import_again_touches_nothing() {
    let mut loader = Loader::new(Resolver::new(None), FsModule::new(project_broker(), project_fs()), vec![]);
    let first = loader.import("/project/util.js", None);
    let missing = loader.import("/project/none.js", None);
    let (requests, reads) = (loader.fs.broker.requests, loader.fs.backend.reads);
    assert_eq!(loader.import("/project/util.js", None), first);
    assert_eq!(loader.import("/project/none.js", None), missing);
    assert_eq!(missing, Err(ImportError::Load(LoadError::Fetch(FetchError::NotFound))));
    assert_eq!((loader.fs.broker.requests, loader.fs.backend.reads), (requests, reads));
}

#[test]
fn concurrent_requests_share_one_check_and_fetch() {
    let mut loader = Loader::new(Resolver::new(None), FsModule::new(project_broker(), project_fs()), vec![]);
    let i = match loader.import_step("/project/util.js") {
        LoadStep::Fetch(i) => i,
        other => panic!("expected a fetch, got {:?}", other),
    };
    for _ in 0..4 {
        assert_eq!(loader.import_step("/project/util.js"), LoadStep::Wait(i));
    }
    assert_eq!(loader.fs.broker.requests, 1);
    assert_eq!(loader.cache.outcome(i), None);
    assert_eq!(loader.land(i, Ok(b"u".to_vec())), Ok(i));
    assert_eq!(loader.cache.outcome(i), Some(Ok(i)));
    assert_eq!(loader.import("/project/util.js", None), Ok(i));
    assert_eq!(loader.fs.broker.requests, 1);
    assert_eq!(loader.fs.backend.reads, 0);
}

#[test]
fn denied_request_fails_record() {
    let mut loader = Loader::new(Resolver::new(None), FsModule::new(project_broker(), project_fs()), vec![]);
    assert_eq!(
        loader.request("/etc/x.js", None),
        Err(ImportError::Load(LoadError::Fetch(FetchError::Denied)))
    );
    assert_eq!(loader.request("/etc/x.js", None), Ok(LoadStep::Cached(0)));
    assert_eq!(loader.fs.broker.requests, 1);
}

trait ImportStep {
    fn import_step(&mut self, spec: &str) -> LoadStep;
}

impl ImportStep for Loader<MemoryIo> {
    fn import_step(&mut self, spec: &str) -> LoadStep {
        self.request(spec, None).unwrap()
    }
}
