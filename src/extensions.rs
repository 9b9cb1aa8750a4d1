use vstd::prelude::*;

verus! {

/// A native capability module that the engine installs before any script.
#[derive(Clone, Copy, Debug, PartialEq, Eq, Structural)]
pub enum Extension {
    /// Low-level I/O primitives.
    Io,
    /// The filesystem module, gated by the broker.
    Fs,
    /// The bootstrap module whose script installs the host-call wrappers.
    Bootstrap,
}

/// An extension whose dependency is not installed before it.
#[derive(Clone, Copy, Debug, PartialEq, Eq, Structural)]
pub struct StartupError {
    pub extension: Extension,
    pub missing: Extension,
}

/// The extensions that `e` needs installed before it.
pub open spec fn deps_of(e: Extension) -> Seq<Extension> {
    match e {
        Extension::Io => seq![],
        Extension::Fs => seq![Extension::Io],
        Extension::Bootstrap => seq![Extension::Io, Extension::Fs],
    }
}

/// Every dependency of each extension stands before it in `s`.
pub open spec fn well_ordered(s: Seq<Extension>) -> bool {
    forall|i: int, d: int|
        0 <= i < s.len() && 0 <= d < deps_of(s[i]).len() ==> #[trigger] s.subrange(0, i).contains(
            #[trigger] deps_of(s[i])[d],
        )
}

fn deps(e: Extension) -> (r: Vec<Extension>)
    ensures
        r@ == deps_of(e),
{
    let r = match e {
        Extension::Io => Vec::new(),
        Extension::Fs => vec![Extension::Io],
        Extension::Bootstrap => vec![Extension::Io, Extension::Fs],
    };
    assert(r@ =~= deps_of(e));
    r
}

fn installed_before(s: &Vec<Extension>, end: usize, e: Extension) -> (r: bool)
    requires
        end <= s@.len(),
    ensures
        r == s@.subrange(0, end as int).contains(e),
{
    let mut k: usize = 0;
    while k < end
        invariant
            end <= s@.len(),
            k <= end,
            forall|j: int| 0 <= j < k ==> s@[j] != e,
        decreases end - k,
    {
        if s[k] == e {
            assert(s@.subrange(0, end as int)[k as int] == e);
            return true;
        }
        k = k + 1;
    }
    assert(!s@.subrange(0, end as int).contains(e)) by {
        assert(forall|j: int| 0 <= j < end ==> s@.subrange(0, end as int)[j] == s@[j]);
    }
    false
}

/// Checks that each extension comes after those it depends on; the first
/// one that does not is a fatal startup error.
pub fn check_order(s: &Vec<Extension>) -> (r: Result<(), StartupError>)
    ensures
        r is Ok <==> well_ordered(s@),
        r matches Err(e) ==> deps_of(e.extension).contains(e.missing) && exists|i: int|
            0 <= i < s@.len() && s@[i] == e.extension && !(#[trigger] s@.subrange(0, i)).contains(e.missing),
{
    let mut i: usize = 0;
    while i < s.len()
        invariant
            i <= s@.len(),
            forall|a: int, d: int|
                0 <= a < i && 0 <= d < deps_of(s@[a]).len() ==> #[trigger] s@.subrange(0, a).contains(
                    #[trigger] deps_of(s@[a])[d],
                ),
        decreases s@.len() - i,
    {
        let ds = deps(s[i]);
        let mut k: usize = 0;
        while k < ds.len()
            invariant
                i < s@.len(),
                ds@ == deps_of(s@[i as int]),
                k <= ds@.len(),
                forall|a: int, d: int|
                    0 <= a < i && 0 <= d < deps_of(s@[a]).len() ==> #[trigger] s@.subrange(0, a).contains(
                        #[trigger] deps_of(s@[a])[d],
                    ),
                forall|d: int| 0 <= d < k ==> #[trigger] s@.subrange(0, i as int).contains(ds@[d]),
            decreases ds@.len() - k,
        {
            if !installed_before(s, i, ds[k]) {
                assert(!well_ordered(s@)) by {
                    assert(!s@.subrange(0, i as int).contains(deps_of(s@[i as int])[k as int]));
                }
                assert(deps_of(s@[i as int]).contains(ds@[k as int]));
                assert(0 <= i < s@.len() && s@[i as int] == s@[i as int] && !s@.subrange(0, i as int).contains(ds@[k as int]));
                return Err(StartupError { extension: s[i], missing: ds[k] });
            }
            k = k + 1;
        }
        i = i + 1;
    }
    Ok(())
}

/// The capability modules in installation order: I/O primitives, then the
/// filesystem module, then the bootstrap module.
pub fn extensions() -> (r: Vec<Extension>)
    ensures
        r@ == seq![Extension::Io, Extension::Fs, Extension::Bootstrap],
        well_ordered(r@),
{
    let r = vec![Extension::Io, Extension::Fs, Extension::Bootstrap];
    assert(r@.subrange(0, 1).contains(Extension::Io)) by {
        assert(r@.subrange(0, 1)[0] == Extension::Io);
    }
    assert(r@.subrange(0, 2).contains(Extension::Io)) by {
        assert(r@.subrange(0, 2)[0] == Extension::Io);
    }
    assert(r@.subrange(0, 2).contains(Extension::Fs)) by {
        assert(r@.subrange(0, 2)[1] == Extension::Fs);
    }
    r
}

} // verus!
