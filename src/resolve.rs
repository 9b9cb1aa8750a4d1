use vstd::prelude::*;
use crate::permissions::opt_view;
use crate::text::{chars_of, copy_vec, has_prefix, starts_with, string_of};

verus! {

#[derive(Clone, Copy, Debug, PartialEq, Eq, Structural)]
pub enum ResolutionError {
    /// The specifier cannot be parsed, or its form is not supported.
    Malformed,
    /// A relative specifier with neither a referrer nor a base directory.
    NoReferrer,
}

/// The reserved scheme of built-in modules.
pub open spec fn builtin_scheme() -> Seq<char> {
    seq!['e', 'x', 't', ':']
}

/// A built-in specifier: the reserved scheme followed by a non-empty name.
pub open spec fn is_builtin(s: Seq<char>) -> bool {
    has_prefix(s, builtin_scheme()) && s.len() > builtin_scheme().len()
}

pub open spec fn is_absolute(s: Seq<char>) -> bool {
    s.len() > 0 && s[0] == '/'
}

pub open spec fn is_relative(s: Seq<char>) -> bool {
    has_prefix(s, seq!['.', '/']) || has_prefix(s, seq!['.', '.', '/'])
}

/// Splitting a prefix of a path at '/': the finished components and the
/// component still being read.
pub open spec fn split_state(s: Seq<char>) -> (Seq<Seq<char>>, Seq<char>)
    decreases s.len(),
{
    if s.len() == 0 {
        (seq![], seq![])
    } else {
        let (done, cur) = split_state(s.drop_last());
        if s.last() == '/' {
            (done.push(cur), seq![])
        } else {
            (done, cur.push(s.last()))
        }
    }
}

/// The components of `s` between its '/' separators, empty ones included.
pub open spec fn components(s: Seq<char>) -> Seq<Seq<char>> {
    split_state(s).0.push(split_state(s).1)
}

/// Lexical normalization: empty and "." components vanish, ".." drops the
/// component before it and stops at the root.
pub open spec fn normalize(segs: Seq<Seq<char>>) -> Seq<Seq<char>>
    decreases segs.len(),
{
    if segs.len() == 0 {
        seq![]
    } else {
        let prev = normalize(segs.drop_last());
        let seg = segs.last();
        if seg.len() == 0 || seg == seq!['.'] {
            prev
        } else if seg == seq!['.', '.'] {
            if prev.len() == 0 {
                prev
            } else {
                prev.drop_last()
            }
        } else {
            prev.push(seg)
        }
    }
}

/// "/a/b/c" from the components a, b, c.
pub open spec fn join_abs(segs: Seq<Seq<char>>) -> Seq<char>
    decreases segs.len(),
{
    if segs.len() == 0 {
        seq![]
    } else {
        join_abs(segs.drop_last()) + seq!['/'] + segs.last()
    }
}

/// The canonical absolute path of normalized components.
pub open spec fn canonical(segs: Seq<Seq<char>>) -> Seq<char> {
    if segs.len() == 0 {
        seq!['/']
    } else {
        join_abs(segs)
    }
}

/// All but the last component; the root is its own parent.
pub open spec fn parent(segs: Seq<Seq<char>>) -> Seq<Seq<char>> {
    if segs.len() == 0 {
        segs
    } else {
        segs.drop_last()
    }
}

/// The directory against which a relative specifier is resolved, if any:
/// that of the referrer, else the host's base directory.
pub open spec fn base_of(referrer: Option<Seq<char>>, base_dir: Option<Seq<char>>) -> Option<
    Result<Seq<Seq<char>>, ResolutionError>,
> {
    match referrer {
        Some(r) => if is_absolute(r) {
            Some(Ok(parent(normalize(components(r)))))
        } else {
            Some(Err(ResolutionError::Malformed))
        },
        None => match base_dir {
            Some(b) => if is_absolute(b) {
                Some(Ok(normalize(components(b))))
            } else {
                Some(Err(ResolutionError::Malformed))
            },
            None => None,
        },
    }
}

/// The identity that `spec` names when imported from `referrer`, with
/// `base_dir` as the host's base directory. Purely lexical.
pub open spec fn resolution(spec: Seq<char>, referrer: Option<Seq<char>>, base_dir: Option<Seq<char>>) -> Result<
    Seq<char>,
    ResolutionError,
> {
    if is_builtin(spec) {
        Ok(spec)
    } else if is_absolute(spec) {
        Ok(canonical(normalize(components(spec))))
    } else if is_relative(spec) {
        match base_of(referrer, base_dir) {
            Some(Ok(base)) => Ok(canonical(normalize(base + components(spec)))),
            Some(Err(e)) => Err(e),
            None => Err(ResolutionError::NoReferrer),
        }
    } else {
        Err(ResolutionError::Malformed)
    }
}

pub open spec fn views(v: Seq<Vec<char>>) -> Seq<Seq<char>> {
    v.map_values(|x: Vec<char>| x@)
}

fn split(s: &Vec<char>) -> (r: Vec<Vec<char>>)
    ensures
        views(r@) == components(s@),
{
    let mut done: Vec<Vec<char>> = Vec::new();
    let mut cur: Vec<char> = Vec::new();
    let mut i: usize = 0;
    while i < s.len()
        invariant
            i <= s@.len(),
            (views(done@), cur@) == split_state(s@.subrange(0, i as int)),
        decreases s@.len() - i,
    {
        let c = s[i];
        assert(s@.subrange(0, i + 1).drop_last() =~= s@.subrange(0, i as int));
        if c == '/' {
            let ghost old_done = done@;
            done.push(cur);
            cur = Vec::new();
            assert(views(done@) =~= views(old_done).push(split_state(s@.subrange(0, i as int)).1));
        } else {
            cur.push(c);
        }
        i = i + 1;
    }
    assert(s@.subrange(0, s@.len() as int) =~= s@);
    let ghost before = done@;
    done.push(cur);
    assert(views(done@) =~= views(before).push(cur@));
    done
}

fn is_dot(seg: &Vec<char>) -> (r: bool)
    ensures
        r == (seg@ == seq!['.']),
{
    let r = seg.len() == 1 && seg[0] == '.';
    assert(r ==> seg@ =~= seq!['.']);
    r
}

fn is_dot_dot(seg: &Vec<char>) -> (r: bool)
    ensures
        r == (seg@ == seq!['.', '.']),
{
    let r = seg.len() == 2 && seg[0] == '.' && seg[1] == '.';
    assert(r ==> seg@ =~= seq!['.', '.']);
    r
}

fn normalize_exec(segs: &Vec<Vec<char>>) -> (r: Vec<Vec<char>>)
    ensures
        views(r@) == normalize(views(segs@)),
{
    let mut out: Vec<Vec<char>> = Vec::new();
    let mut i: usize = 0;
    while i < segs.len()
        invariant
            i <= segs@.len(),
            views(out@) == normalize(views(segs@).subrange(0, i as int)),
        decreases segs@.len() - i,
    {
        let ghost pre = views(segs@).subrange(0, i as int);
        let ghost next = views(segs@).subrange(0, i + 1);
        assert(next.drop_last() =~= pre);
        assert(next.last() == segs@[i as int]@);
        let seg = &segs[i];
        if seg.len() == 0 || is_dot(seg) {
        } else if is_dot_dot(seg) {
            if out.len() > 0 {
                let ghost before = out@;
                out.pop();
                assert(views(out@) =~= views(before).drop_last());
            }
        } else {
            let ghost before = out@;
            out.push(copy_vec(seg));
            assert(views(out@) =~= views(before).push(seg@));
        }
        i = i + 1;
    }
    assert(views(segs@).subrange(0, segs@.len() as int) =~= views(segs@));
    out
}

fn join_exec(segs: &Vec<Vec<char>>) -> (r: Vec<char>)
    ensures
        r@ == canonical(views(segs@)),
{
    let mut out: Vec<char> = Vec::new();
    if segs.len() == 0 {
        out.push('/');
        assert(out@ =~= seq!['/']);
        return out;
    }
    let mut i: usize = 0;
    while i < segs.len()
        invariant
            i <= segs@.len(),
            out@ == join_abs(views(segs@).subrange(0, i as int)),
        decreases segs@.len() - i,
    {
        let ghost pre = views(segs@).subrange(0, i as int);
        let ghost next = views(segs@).subrange(0, i + 1);
        assert(next.drop_last() =~= pre);
        out.push('/');
        let seg = &segs[i];
        let ghost mid = out@;
        let mut j: usize = 0;
        while j < seg.len()
            invariant
                j <= seg@.len(),
                out@ == mid + seg@.subrange(0, j as int),
            decreases seg@.len() - j,
        {
            out.push(seg[j]);
            j = j + 1;
            assert(out@ =~= mid + seg@.subrange(0, j as int));
        }
        assert(seg@.subrange(0, seg@.len() as int) =~= seg@);
        assert(out@ =~= join_abs(next));
        i = i + 1;
    }
    assert(views(segs@).subrange(0, segs@.len() as int) =~= views(segs@));
    out
}

fn append_all(a: &mut Vec<Vec<char>>, b: Vec<Vec<char>>)
    ensures
        views(final(a)@) == views(old(a)@) + views(b@),
{
    let mut b = b;
    let ghost start = views(a@);
    let ghost all = views(b@);
    let mut rest: Vec<Vec<char>> = Vec::new();
    while b.len() > 0
        invariant
            views(b@) + views(rest@) == all,
            views(a@) == start,
        decreases b@.len(),
    {
        let ghost (bb, rr) = (b@, rest@);
        let x = b.pop().unwrap();
        rest.insert(0, x);
        assert(views(b@).push(x@) =~= views(bb));
        assert(views(rest@) =~= seq![x@] + views(rr));
        assert(views(b@) + views(rest@) =~= views(bb) + views(rr));
    }
    assert(views(b@) =~= Seq::<Seq<char>>::empty());
    assert(views(rest@) =~= all);
    let mut k: usize = 0;
    while k < rest.len()
        invariant
            k <= rest@.len(),
            views(rest@) == all,
            views(a@) == start + all.subrange(0, k as int),
        decreases rest@.len() - k,
    {
        let ghost before = a@;
        a.push(copy_vec(&rest[k]));
        assert(views(a@) =~= views(before).push(rest@[k as int]@));
        k = k + 1;
        assert(start + all.subrange(0, k as int) =~= (start + all.subrange(0, k - 1)).push(all[k - 1]));
    }
    assert(all.subrange(0, all.len() as int) =~= all);
}

/// `path` has a ".." component: read lexically, it may step out of any
/// directory it starts in.
pub open spec fn steps_up(path: Seq<char>) -> bool {
    components(path).contains(seq!['.', '.'])
}

pub fn has_parent_step(path: &Vec<char>) -> (r: bool)
    ensures
        r == steps_up(path@),
{
    let segs = split(path);
    let mut k: usize = 0;
    while k < segs.len()
        invariant
            views(segs@) == components(path@),
            k <= segs@.len(),
            forall|j: int| 0 <= j < k ==> views(segs@)[j] != seq!['.', '.'],
        decreases segs@.len() - k,
    {
        if is_dot_dot(&segs[k]) {
            assert(views(segs@)[k as int] == seq!['.', '.']);
            return true;
        }
        k = k + 1;
    }
    false
}

/// `r` is the executable form of the resolution `m`.
pub open spec fn resolved_as(r: Result<String, ResolutionError>, m: Result<Seq<char>, ResolutionError>) -> bool {
    match r {
        Ok(id) => m == Ok::<Seq<char>, ResolutionError>(id@),
        Err(e) => m == Err::<Seq<char>, ResolutionError>(e),
    }
}

pub fn specifier_is_builtin(s: &Vec<char>) -> (r: bool)
    ensures
        r == is_builtin(s@),
{
    let scheme = vec!['e', 'x', 't', ':'];
    assert(scheme@ =~= builtin_scheme());
    s.len() > scheme.len() && starts_with(s, &scheme)
}

fn specifier_is_relative(s: &Vec<char>) -> (r: bool)
    ensures
        r == is_relative(s@),
{
    let here = vec!['.', '/'];
    let up = vec!['.', '.', '/'];
    assert(here@ =~= seq!['.', '/']);
    assert(up@ =~= seq!['.', '.', '/']);
    starts_with(s, &here) || starts_with(s, &up)
}

fn absolute_components(s: &str, drop_file: bool) -> (r: Result<Vec<Vec<char>>, ResolutionError>)
    ensures
        is_absolute(s@) ==> r is Ok && views(r->Ok_0@) == if drop_file {
            parent(normalize(components(s@)))
        } else {
            normalize(components(s@))
        },
        !is_absolute(s@) ==> r == Err::<Vec<Vec<char>>, ResolutionError>(ResolutionError::Malformed),
{
    let cs = chars_of(s);
    if !(cs.len() > 0 && cs[0] == '/') {
        return Err(ResolutionError::Malformed);
    }
    let mut n = normalize_exec(&split(&cs));
    if drop_file && n.len() > 0 {
        let ghost before = n@;
        n.pop();
        assert(views(n@) =~= views(before).drop_last());
    }
    Ok(n)
}

/// Maps import specifiers to canonical module identities.
pub struct Resolver {
    /// The directory against which a relative entry specifier is resolved.
    pub base_dir: Option<String>,
}

impl Resolver {
    pub fn new(base_dir: Option<String>) -> (r: Resolver)
        ensures
            r.base_dir == base_dir,
    {
        Resolver { base_dir }
    }

    /// The identity of `specifier` imported from the module `referrer`
    /// (none for the entry module). Built-in specifiers are returned as
    /// they are, absolute ones are normalized, relative ones are resolved
    /// against the referrer's directory, or else the base directory.
    pub fn resolve(&self, specifier: &str, referrer: Option<&str>) -> (r: Result<String, ResolutionError>)
        ensures
            resolved_as(r, resolution(specifier@, str_view(referrer), opt_view(self.base_dir))),
    {
        let s = chars_of(specifier);
        if specifier_is_builtin(&s) {
            return Ok(specifier.to_owned());
        }
        if s.len() > 0 && s[0] == '/' {
            let n = normalize_exec(&split(&s));
            return Ok(string_of(&join_exec(&n)));
        }
        if !specifier_is_relative(&s) {
            return Err(ResolutionError::Malformed);
        }
        let base = match referrer {
            Some(r) => absolute_components(r, true),
            None => match &self.base_dir {
                Some(b) => absolute_components(b.as_str(), false),
                None => {
                    return Err(ResolutionError::NoReferrer);
                },
            },
        };
        let mut all = match base {
            Ok(b) => b,
            Err(e) => {
                return Err(e);
            },
        };
        append_all(&mut all, split(&s));
        let n = normalize_exec(&all);
        Ok(string_of(&join_exec(&n)))
    }
}

pub open spec fn str_view(o: Option<&str>) -> Option<Seq<char>> {
    match o {
        Some(s) => Some(s@),
        None => None,
    }
}


/// Resolution is referentially transparent: two results that `resolve`
/// may give for the same specifier, referrer and base directory are the
/// same identity, or the same error.
pub proof fn lemma_resolve_deterministic(
    spec: Seq<char>,
    referrer: Option<Seq<char>>,
    base_dir: Option<Seq<char>>,
    r1: Result<String, ResolutionError>,
    r2: Result<String, ResolutionError>,
)
    requires
        resolved_as(r1, resolution(spec, referrer, base_dir)),
        resolved_as(r2, resolution(spec, referrer, base_dir)),
    ensures
        r1 is Ok <==> r2 is Ok,
        r1 is Ok ==> r1->Ok_0@ == r2->Ok_0@,
        r1 is Err ==> r1->Err_0 == r2->Err_0,
{
}

} // verus!
