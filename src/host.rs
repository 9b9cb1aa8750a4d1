use vstd::prelude::*;
use crate::cache::{ModuleCache, RecordView};
use crate::extensions::{check_order, well_ordered, Extension, StartupError};
use crate::fs::HostIo;
use crate::loader::{import_effect, ImportError, Loader};

verus! {

/// Where a host stands in its lifecycle.
#[derive(Clone, Copy, Debug, PartialEq, Eq, Structural)]
pub enum Phase {
    Created,
    Installed,
    Running,
    Disposed,
}

#[derive(Clone, Copy, Debug, PartialEq, Eq, Structural)]
pub enum HostError {
    /// The extensions are not in a dependency-respecting order.
    Startup(StartupError),
    /// The operation does not fit the host's phase.
    WrongPhase(Phase),
    /// The entry module could not be imported.
    Import(ImportError),
}

/// Owns one engine instance's loader and drives its lifecycle: extensions
/// are installed strictly before the entry module is loaded, and the entry
/// module goes through the same loader as every other import.
pub struct RuntimeHost<B: HostIo> {
    pub phase: Phase,
    pub installed: Vec<Extension>,
    pub loader: Loader<B>,
}

impl<B: HostIo> RuntimeHost<B> {
    pub fn new(loader: Loader<B>) -> (r: RuntimeHost<B>)
        ensures
            r.phase == Phase::Created,
            r.installed@ == Seq::<Extension>::empty(),
            r.loader == loader,
    {
        RuntimeHost { phase: Phase::Created, installed: Vec::new(), loader }
    }

    /// Installs the extensions, once, before anything else.
    pub fn install(&mut self, list: Vec<Extension>) -> (r: Result<(), HostError>)
        ensures
            final(self).loader == old(self).loader,
            old(self).phase != Phase::Created ==> r == Err::<(), HostError>(HostError::WrongPhase(old(self).phase))
                && *final(self) == *old(self),
            old(self).phase == Phase::Created && !well_ordered(list@) ==> r is Err && *final(self) == *old(self),
            old(self).phase == Phase::Created && well_ordered(list@) ==> r is Ok && final(self).phase
                == Phase::Installed && final(self).installed@ == list@,
    {
        if self.phase != Phase::Created {
            return Err(HostError::WrongPhase(self.phase));
        }
        match check_order(&list) {
            Err(e) => Err(HostError::Startup(e)),
            Ok(()) => {
                self.installed = list;
                self.phase = Phase::Installed;
                Ok(())
            },
        }
    }

    /// Loads the entry module; allowed only once the extensions are
    /// installed, and only once.
    pub fn load_entry(&mut self, entry: &str) -> (r: Result<usize, HostError>)
        requires
            old(self).loader.cache.wf(),
        ensures
            final(self).loader.cache.wf(),
            final(self).installed == old(self).installed,
            old(self).phase != Phase::Installed ==> r == Err::<usize, HostError>(HostError::WrongPhase(old(self).phase))
                && *final(self) == *old(self),
            old(self).phase == Phase::Installed ==> exists|ir: Result<usize, ImportError>|
                import_effect(old(self).loader, final(self).loader, entry@, None, ir) && r == match ir {
                    Ok(i) => Ok::<usize, HostError>(i),
                    Err(e) => Err(HostError::Import(e)),
                } && final(self).phase == if ir is Ok {
                    Phase::Running
                } else {
                    Phase::Installed
                },
    {
        if self.phase != Phase::Installed {
            return Err(HostError::WrongPhase(self.phase));
        }
        let ir = self.loader.import(entry, None);
        assert(import_effect(old(self).loader, self.loader, entry@, None, ir));
        match ir {
            Ok(i) => {
                self.phase = Phase::Running;
                Ok(i)
            },
            Err(e) => Err(HostError::Import(e)),
        }
    }

    /// Ends the engine instance: its module records are discarded.
    pub fn dispose(&mut self)
        ensures
            final(self).phase == Phase::Disposed,
            final(self).loader.cache@ == Seq::<RecordView>::empty(),
            final(self).loader.cache.wf(),
            final(self).loader.fs == old(self).loader.fs,
    {
        self.loader.cache = ModuleCache::new();
        self.phase = Phase::Disposed;
    }
}

} // verus!
