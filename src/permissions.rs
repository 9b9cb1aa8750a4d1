use vstd::prelude::*;
use crate::resolve::{has_parent_step, steps_up};
use crate::text::{chars_of, has_prefix, starts_with};

verus! {

/// A category of host resource operation that needs authorization.
#[derive(Clone, Copy, Debug, PartialEq, Eq, Structural)]
pub enum Capability {
    Open,
    Read,
    ReadAll,
    ReadBlind,
    Write,
    WritePartial,
    WriteAll,
    WriteBlind,
}

/// What a policy grants for one direction of access (reading or writing).
#[derive(Clone, Debug)]
pub enum Grant {
    /// Any path, and the unscoped "all" request.
    Everything,
    /// Only paths that lie under one of these roots and have no ".."
    /// component, so that none can step out of its root.
    Under(Vec<String>),
    /// Nothing at all.
    Nothing,
}

/// The grant policy of a broker.
#[derive(Clone, Debug)]
pub struct Policy {
    pub read: Grant,
    pub write: Grant,
}

/// One question put to the broker. Blind requests carry an opaque `detail`
/// that the policy does not consult; they are judged like their disclosed
/// counterparts and still need a path.
#[derive(Clone, Debug)]
pub struct PermissionRequest {
    pub capability: Capability,
    pub path: Option<String>,
    pub api_name: String,
    pub detail: Option<String>,
    /// For `Open`: whether the caller wants to read.
    pub open_read: bool,
    /// For `Open`: whether the caller wants to write.
    pub open_write: bool,
    /// For `Open`: whether the path is already in canonical form.
    pub resolved: bool,
}

#[derive(Clone, Copy, Debug, PartialEq, Eq, Structural)]
pub enum DenyReason {
    /// A path was required and none, or an empty one, was given.
    Malformed,
    /// The policy does not grant the request.
    NotGranted,
}

#[derive(Clone, Debug)]
pub enum PermissionDecision {
    /// The path the engine may use (here always the requested one).
    Allow(Option<String>),
    Deny(DenyReason),
}

/// A failed capability check: what was asked, and for which path.
#[derive(Clone, Debug)]
pub struct PermissionDenied {
    pub capability: Capability,
    pub path: Option<String>,
}

/// The outcome of a decision, without the echoed path.
pub enum Verdict {
    Allowed,
    Denied(DenyReason),
}

pub open spec fn needs_path(c: Capability) -> bool {
    !(c == Capability::ReadAll || c == Capability::WriteAll)
}

/// `path` lies under `root`: `root` is a non-empty prefix that ends at a
/// component boundary.
pub open spec fn is_under(path: Seq<char>, root: Seq<char>) -> bool {
    &&& root.len() > 0
    &&& has_prefix(path, root)
    &&& (path.len() == root.len() || path[root.len() as int] == '/' || root.last() == '/')
}

pub open spec fn grant_allows_path(g: Grant, path: Seq<char>) -> bool {
    match g {
        Grant::Everything => true,
        Grant::Under(roots) => !steps_up(path) && exists|k: int|
            0 <= k < roots@.len() && is_under(path, #[trigger] roots@[k]@),
        Grant::Nothing => false,
    }
}

/// Whether policy `p` grants capability `c` on `path`; `open_read` and
/// `open_write` are the flags of an `Open` request. `Open` needs a read
/// grant when it asks to read, or asks for nothing.
pub open spec fn granted(p: Policy, c: Capability, path: Seq<char>, open_read: bool, open_write: bool) -> bool {
    match c {
        Capability::Open => ((open_read || !open_write) ==> grant_allows_path(p.read, path)) && (
        open_write ==> grant_allows_path(p.write, path)),
        Capability::Read | Capability::ReadBlind => grant_allows_path(p.read, path),
        Capability::ReadAll => p.read is Everything,
        Capability::Write | Capability::WritePartial | Capability::WriteBlind => grant_allows_path(
            p.write,
            path,
        ),
        Capability::WriteAll => p.write is Everything,
    }
}

pub open spec fn is_valid_path(path: Option<Seq<char>>) -> bool {
    path is Some && path->0.len() > 0
}

/// The decision that policy `p` gives on a request for `c` on `path`.
pub open spec fn verdict(p: Policy, c: Capability, path: Option<Seq<char>>, open_read: bool, open_write: bool) -> Verdict {
    if needs_path(c) && !is_valid_path(path) {
        Verdict::Denied(DenyReason::Malformed)
    } else if granted(p, c, path->0, open_read, open_write) {
        Verdict::Allowed
    } else {
        Verdict::Denied(DenyReason::NotGranted)
    }
}

/// The decision that policy `p` gives on `req`.
pub open spec fn request_verdict(p: Policy, req: PermissionRequest) -> Verdict {
    verdict(p, req.capability, opt_view(req.path), req.open_read, req.open_write)
}

pub open spec fn opt_view(o: Option<String>) -> Option<Seq<char>> {
    match o {
        Some(s) => Some(s@),
        None => None,
    }
}

/// `d` is the decision for verdict `v` on `req`; an allowance echoes the path.
pub open spec fn decision_is(d: PermissionDecision, v: Verdict, req: PermissionRequest) -> bool {
    match d {
        PermissionDecision::Allow(p) => v is Allowed && opt_view(p) == opt_view(req.path),
        PermissionDecision::Deny(r) => v == Verdict::Denied(r),
    }
}

fn clone_opt(o: &Option<String>) -> (r: Option<String>)
    ensures
        r == *o,
{
    match o {
        Some(s) => Some(s.clone()),
        None => None,
    }
}

fn path_under(path: &Vec<char>, root: &str) -> (r: bool)
    ensures
        r == is_under(path@, root@),
{
    let root = chars_of(root);
    if root.len() == 0 || !starts_with(path, &root) {
        return false;
    }
    path.len() == root.len() || path[root.len()] == '/' || root[root.len() - 1] == '/'
}

fn grant_allows(g: &Grant, path: &Vec<char>) -> (r: bool)
    ensures
        r == grant_allows_path(*g, path@),
{
    match g {
        Grant::Everything => true,
        Grant::Nothing => false,
        Grant::Under(roots) => {
            if has_parent_step(path) {
                return false;
            }
            let mut k: usize = 0;
            while k < roots.len()
                invariant
                    !steps_up(path@),
                    *g is Under,
                    g->Under_0 == *roots,
                    k <= roots@.len(),
                    forall|j: int| 0 <= j < k ==> !is_under(path@, #[trigger] roots@[j]@),
                decreases roots@.len() - k,
            {
                if path_under(path, roots[k].as_str()) {
                    assert(is_under(path@, roots@[k as int]@));
                    return true;
                }
                k = k + 1;
            }
            false
        },
    }
}

fn path_chars(o: &Option<String>) -> (r: Vec<char>)
    ensures
        opt_view(*o) is Some ==> r@ == opt_view(*o)->0,
{
    match o {
        Some(s) => chars_of(s.as_str()),
        None => Vec::new(),
    }
}

fn evaluate(p: &Policy, req: &PermissionRequest) -> (r: Verdict)
    ensures
        r == request_verdict(*p, *req),
{
    let path = path_chars(&req.path);
    let scoped = !(req.capability == Capability::ReadAll || req.capability == Capability::WriteAll);
    if scoped && (req.path.is_none() || path.len() == 0) {
        return Verdict::Denied(DenyReason::Malformed);
    }
    let ok = match req.capability {
        Capability::Open => {
            let wants_read = req.open_read || !req.open_write;
            (!wants_read || grant_allows(&p.read, &path)) && (!req.open_write || grant_allows(
                &p.write,
                &path,
            ))
        },
        Capability::Read | Capability::ReadBlind => grant_allows(&p.read, &path),
        Capability::ReadAll => matches!(p.read, Grant::Everything),
        Capability::Write | Capability::WritePartial | Capability::WriteBlind => grant_allows(
            &p.write,
            &path,
        ),
        Capability::WriteAll => matches!(p.write, Grant::Everything),
    };
    if ok {
        Verdict::Allowed
    } else {
        Verdict::Denied(DenyReason::NotGranted)
    }
}

/// `e` reports capability `c` on `path`.
pub open spec fn denial_is(e: PermissionDenied, c: Capability, path: Option<Seq<char>>) -> bool {
    e.capability == c && opt_view(e.path) == path
}

/// `after` is `before` having answered one more request.
pub open spec fn counted(before: Permissions, after: Permissions) -> bool {
    after.policy == before.policy && after.requests == before.requests.saturating_add(1)
}

/// `r` is the outcome of a check of `c` on `path` by broker `before`, which
/// became `after`.
pub open spec fn checked(
    r: Result<(), PermissionDenied>,
    before: Permissions,
    after: Permissions,
    c: Capability,
    path: Option<Seq<char>>,
) -> bool {
    &&& r is Ok <==> verdict(before.policy, c, path, false, false) is Allowed
    &&& r is Err ==> denial_is(r->Err_0, c, path)
    &&& counted(before, after)
}

fn scoped_request(
    capability: Capability,
    path: &str,
    api_name: &str,
    detail: Option<String>,
    open_read: bool,
    open_write: bool,
    resolved: bool,
) -> (r: PermissionRequest)
    ensures
        r.capability == capability,
        opt_view(r.path) == Some(path@),
        r.open_read == open_read,
        r.open_write == open_write,
{
    PermissionRequest {
        capability,
        path: Some(path.to_owned()),
        api_name: api_name.to_owned(),
        detail,
        open_read,
        open_write,
        resolved,
    }
}

fn unscoped_request(capability: Capability, api_name: &str) -> (r: PermissionRequest)
    ensures
        r.capability == capability,
        r.path is None,
        !r.open_read,
        !r.open_write,
{
    PermissionRequest {
        capability,
        path: None,
        api_name: api_name.to_owned(),
        detail: None,
        open_read: false,
        open_write: false,
        resolved: false,
    }
}

fn drop_path(r: Result<Option<String>, PermissionDenied>) -> (out: Result<(), PermissionDenied>)
    ensures
        out is Ok <==> r is Ok,
        out is Err ==> out->Err_0 == r->Err_0,
{
    match r {
        Ok(_) => Ok(()),
        Err(e) => Err(e),
    }
}

/// The permission broker: the single authority consulted before a
/// capability is exercised. It counts the requests it has answered.
pub struct Permissions {
    pub policy: Policy,
    pub requests: u64,
}

impl Permissions {
    /// A broker with the given policy that has answered nothing yet.
    pub fn new(policy: Policy) -> (r: Permissions)
        ensures
            r.policy == policy,
            r.requests == 0,
    {
        Permissions { policy, requests: 0 }
    }

    /// The permissive broker: everything is granted.
    pub fn allow_all() -> (r: Permissions)
        ensures
            r.policy.read is Everything,
            r.policy.write is Everything,
            r.requests == 0,
    {
        Permissions::new(Policy { read: Grant::Everything, write: Grant::Everything })
    }

    /// Replaces the policy; it governs every later decision.
    pub fn set_policy(&mut self, policy: Policy)
        ensures
            final(self).policy == policy,
            final(self).requests == old(self).requests,
    {
        self.policy = policy;
    }

    /// The one decision point: judges `req` under the current policy, afresh
    /// on every call, and counts the request.
    pub fn decide(&mut self, req: &PermissionRequest) -> (r: PermissionDecision)
        ensures
            decision_is(r, request_verdict(old(self).policy, *req), *req),
            final(self).policy == old(self).policy,
            final(self).requests == old(self).requests.saturating_add(1),
    {
        self.requests = self.requests.saturating_add(1);
        match evaluate(&self.policy, req) {
            Verdict::Allowed => PermissionDecision::Allow(clone_opt(&req.path)),
            Verdict::Denied(reason) => PermissionDecision::Deny(reason),
        }
    }

    /// Puts `req` to `decide` and turns a denial into an error that names
    /// the capability and the requested path.
    fn check(&mut self, req: PermissionRequest) -> (r: Result<Option<String>, PermissionDenied>)
        ensures
            r is Ok <==> request_verdict(old(self).policy, req) is Allowed,
            r is Ok ==> opt_view(r->Ok_0) == opt_view(req.path),
            r is Err ==> denial_is(r->Err_0, req.capability, opt_view(req.path)),
            counted(*old(self), *final(self)),
    {
        match self.decide(&req) {
            PermissionDecision::Allow(p) => Ok(p),
            PermissionDecision::Deny(_) => Err(PermissionDenied { capability: req.capability, path: req.path }),
        }
    }

    /// Whether the file at `path` may be opened with the given access. On
    /// success, the path the engine is to use.
    pub fn check_open(&mut self, resolved: bool, read: bool, write: bool, path: &str, api_name: &str) -> (r: Result<String, PermissionDenied>)
        ensures
            r is Ok <==> verdict(old(self).policy, Capability::Open, Some(path@), read, write) is Allowed,
            r is Ok ==> r->Ok_0@ == path@,
            r is Err ==> denial_is(r->Err_0, Capability::Open, Some(path@)),
            counted(*old(self), *final(self)),
    {
        let req = scoped_request(Capability::Open, path, api_name, None, read, write, resolved);
        match self.check(req) {
            Ok(Some(p)) => Ok(p),
            Ok(None) => Ok(path.to_owned()),
            Err(e) => Err(e),
        }
    }

    /// Whether `path` may be read.
    pub fn check_read(&mut self, path: &str, api_name: &str) -> (r: Result<(), PermissionDenied>)
        ensures
            checked(r, *old(self), *final(self), Capability::Read, Some(path@)),
    {
        let req = scoped_request(Capability::Read, path, api_name, None, false, false, false);
        drop_path(self.check(req))
    }

    /// Whether everything may be read.
    pub fn check_read_all(&mut self, api_name: &str) -> (r: Result<(), PermissionDenied>)
        ensures
            checked(r, *old(self), *final(self), Capability::ReadAll, None),
    {
        let req = unscoped_request(Capability::ReadAll, api_name);
        drop_path(self.check(req))
    }

    /// Whether `path` may be read for an undisclosed purpose; `display` is
    /// the opaque detail, which the policy does not consult.
    pub fn check_read_blind(&mut self, path: &str, display: &str, api_name: &str) -> (r: Result<(), PermissionDenied>)
        ensures
            checked(r, *old(self), *final(self), Capability::ReadBlind, Some(path@)),
    {
        let req = scoped_request(Capability::ReadBlind, path, api_name, Some(display.to_owned()), false, false, false);
        drop_path(self.check(req))
    }

    /// Whether `path` may be written.
    pub fn check_write(&mut self, path: &str, api_name: &str) -> (r: Result<(), PermissionDenied>)
        ensures
            checked(r, *old(self), *final(self), Capability::Write, Some(path@)),
    {
        let req = scoped_request(Capability::Write, path, api_name, None, false, false, false);
        drop_path(self.check(req))
    }

    /// Whether `path` may be partly written.
    pub fn check_write_partial(&mut self, path: &str, api_name: &str) -> (r: Result<(), PermissionDenied>)
        ensures
            checked(r, *old(self), *final(self), Capability::WritePartial, Some(path@)),
    {
        let req = scoped_request(Capability::WritePartial, path, api_name, None, false, false, false);
        drop_path(self.check(req))
    }

    /// Whether everything may be written.
    pub fn check_write_all(&mut self, api_name: &str) -> (r: Result<(), PermissionDenied>)
        ensures
            checked(r, *old(self), *final(self), Capability::WriteAll, None),
    {
        let req = unscoped_request(Capability::WriteAll, api_name);
        drop_path(self.check(req))
    }

    /// Whether `path` may be written for an undisclosed purpose; `display`
    /// is the opaque detail, which the policy does not consult.
    pub fn check_write_blind(&mut self, path: &str, display: &str, api_name: &str) -> (r: Result<(), PermissionDenied>)
        ensures
            checked(r, *old(self), *final(self), Capability::WriteBlind, Some(path@)),
    {
        let req = scoped_request(Capability::WriteBlind, path, api_name, Some(display.to_owned()), false, false, false);
        drop_path(self.check(req))
    }
}

/// Identity law of the permissive broker: with everything granted, any
/// capability on any non-empty path (and an unscoped one with no path) is
/// allowed, and the decision that `decide` gives is `Allow(P)` with the
/// requested path `P` unchanged.
pub proof fn lemma_allow_all_echoes(p: Policy, req: PermissionRequest, d: PermissionDecision)
    requires
        p.read is Everything,
        p.write is Everything,
        needs_path(req.capability) ==> is_valid_path(opt_view(req.path)),
        decision_is(d, request_verdict(p, req), req),
    ensures
        request_verdict(p, req) is Allowed,
        d is Allow,
        opt_view(d->Allow_0) == opt_view(req.path),
{
}

/// Containment: a grant limited to roots allows no path with a ".."
/// component, whatever the roots, so no allowed path can step out of them;
/// and every path it allows lies under one of its roots.
pub proof fn lemma_roots_contain(roots: Vec<String>, path: Seq<char>)
    ensures
        steps_up(path) ==> !grant_allows_path(Grant::Under(roots), path),
        grant_allows_path(Grant::Under(roots), path) ==> exists|k: int|
            0 <= k < roots@.len() && is_under(path, #[trigger] roots@[k]@),
{
}

} // verus!
