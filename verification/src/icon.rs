//! Icon resolution and the process-wide identity binding.
//!
//! An optional [`IconSpec`] is turned into a concrete icon reference,
//! falling back to the default reference `"terminal"` whenever resolution
//! fails softly.  On platforms that require the process to impersonate a
//! registered application before posting notifications, resolving an
//! `AppIdentity` icon additionally asks for an identity binding; the
//! decisions around that binding (which identifier to request, how to
//! classify the platform's answer) live here, while the platform call
//! itself is made by unverified glue around this library.

use vstd::prelude::*;
use crate::request::{IconModel, IconSpec};
use crate::terminal_ref;

verus! {

/// The reference that icon resolution yields, as a function of the icon
/// specification and of whether a `FilePath` icon's path names an
/// existing file.
///
/// An absent specification, a `FilePath` whose path does not exist, and
/// an empty name all resolve softly to the default `"terminal"`; every
/// other specification resolves to its own name or path, unchanged.  The
/// result is therefore never empty.
pub open spec fn spec_resolve_icon(icon: Option<IconModel>, path_exists: bool) -> Seq<u8> {
    match icon {
        None => terminal_ref(),
        Some(IconModel::AppIdentity(n)) => if n.len() > 0 {
            n
        } else {
            terminal_ref()
        },
        Some(IconModel::FilePath(p)) => if path_exists && p.len() > 0 {
            p
        } else {
            terminal_ref()
        },
        Some(IconModel::ThemeName(n)) => if n.len() > 0 {
            n
        } else {
            terminal_ref()
        },
    }
}

/// The resolved icon reference is never empty: the builder can always
/// rely on a non-empty reference.
pub proof fn lemma_resolved_icon_nonempty(icon: Option<IconModel>, path_exists: bool)
    ensures
        spec_resolve_icon(icon, path_exists).len() > 0,
{
}

/// Copies a byte vector.
pub fn copy_bytes(v: &Vec<u8>) -> (r: Vec<u8>)
    ensures
        r@ == v@,
{
    let mut r: Vec<u8> = Vec::new();
    let mut i: usize = 0;
    while i < v.len()
        invariant
            i <= v.len(),
            r@ == v@.take(i as int),
        decreases v.len() - i,
    {
        r.push(v[i]);
        i = i + 1;
        proof {
            assert(r@ =~= v@.take(i as int));
        }
    }
    proof {
        assert(v@.take(v.len() as int) =~= v@);
    }
    r
}

/// Resolves an optional icon specification to a concrete icon reference.
///
/// `path_exists` is the answer, supplied by the caller, to whether the
/// path of a `FilePath` specification names an existing file; it is
/// ignored for every other specification.  A failed or empty resolution
/// falls back softly to `"terminal"`; no error is ever raised.
pub fn resolve_icon(icon: &Option<IconSpec>, path_exists: bool) -> (r: Vec<u8>)
    ensures
        r@ == spec_resolve_icon(crate::request::opt_icon_view(*icon), path_exists),
        r@.len() > 0,
{
    let r = match icon {
        None => crate::terminal_icon(),
        Some(IconSpec::AppIdentity(n)) => if n.len() > 0 {
            copy_bytes(n)
        } else {
            crate::terminal_icon()
        },
        Some(IconSpec::FilePath(p)) => if path_exists && p.len() > 0 {
            copy_bytes(p)
        } else {
            crate::terminal_icon()
        },
        Some(IconSpec::ThemeName(n)) => if n.len() > 0 {
            copy_bytes(n)
        } else {
            crate::terminal_icon()
        },
    };
    r
}

/// The deterministic fallback application identifier used when no
/// identifier is registered for the requested application name: the
/// bytes of `"com.apple.Terminal"`.
pub open spec fn default_bundle_identifier() -> Seq<u8> {
    seq![99u8, 111u8, 109u8, 46u8, 97u8, 112u8, 112u8, 108u8, 101u8, 46u8, 84u8, 101u8, 114u8,
        109u8, 105u8, 110u8, 97u8, 108u8]
}

/// Builds the fallback application identifier as a byte vector.
pub fn fallback_bundle_identifier() -> (r: Vec<u8>)
    ensures
        r@ == default_bundle_identifier(),
{
    let v: Vec<u8> = vec![99u8, 111u8, 109u8, 46u8, 97u8, 112u8, 112u8, 108u8, 101u8, 46u8, 84u8,
        101u8, 114u8, 109u8, 105u8, 110u8, 97u8, 108u8];
    proof {
        assert(v@ =~= default_bundle_identifier());
    }
    v
}

/// The platform's answer to one identity-binding attempt, as plain
/// values handed back by the glue that made the call.
pub enum BindingOutcome {
    /// The process is now bound to the requested identity.
    Bound,
    /// The process was already bound to this identity; re-asserting it
    /// is a no-op.
    AlreadyBound,
    /// The binding failed for another reason, with the platform's
    /// textual explanation.
    BindingFailed(Vec<u8>),
}

/// Mathematical model of a [`BindingOutcome`].
pub enum BindingOutcomeModel {
    Bound,
    AlreadyBound,
    BindingFailed(Seq<u8>),
}

impl View for BindingOutcome {
    type V = BindingOutcomeModel;

    open spec fn view(&self) -> BindingOutcomeModel {
        match self {
            BindingOutcome::Bound => BindingOutcomeModel::Bound,
            BindingOutcome::AlreadyBound => BindingOutcomeModel::AlreadyBound,
            BindingOutcome::BindingFailed(m) => BindingOutcomeModel::BindingFailed(m@),
        }
    }
}

/// The process-wide identity-binding state: the identity the process is
/// currently bound to, if any.
pub type BindingState = Option<Seq<u8>>;

/// One step of the identity-binding state machine: binding `id` in state
/// `state` yields the next state and the platform's answer.  An unbound
/// process becomes bound; re-binding the identity already held answers
/// `AlreadyBound`; binding a differing identity fails and leaves the
/// state unchanged.
pub open spec fn spec_bind_step(state: BindingState, id: Seq<u8>) -> (BindingState, BindingOutcomeModel) {
    match state {
        None => (Some(id), BindingOutcomeModel::Bound),
        Some(held) => if held == id {
            (Some(held), BindingOutcomeModel::AlreadyBound)
        } else {
            (Some(held), BindingOutcomeModel::BindingFailed(Seq::empty()))
        },
    }
}

/// What a binding outcome becomes for the caller: either nothing, or a
/// non-fatal diagnostic to be logged.
pub open spec fn spec_classify_binding(o: BindingOutcomeModel) -> Option<Seq<u8>> {
    match o {
        BindingOutcomeModel::Bound => None,
        BindingOutcomeModel::AlreadyBound => None,
        BindingOutcomeModel::BindingFailed(m) => Some(m),
    }
}

/// Classifies the platform's answer to an identity-binding attempt.
///
/// A fresh binding needs no report, an `AlreadyBound` answer is fully
/// suppressed, and any other failure becomes a diagnostic that the
/// caller may log.  No variant ever aborts the dispatch: the result
/// carries at most a diagnostic, never an error.
pub fn classify_binding(outcome: BindingOutcome) -> (r: Option<Vec<u8>>)
    ensures
        crate::request::opt_bytes_view(r) == spec_classify_binding(outcome@),
{
    match outcome {
        BindingOutcome::Bound => None,
        BindingOutcome::AlreadyBound => None,
        BindingOutcome::BindingFailed(m) => Some(m),
    }
}

/// Identity binding is idempotent: after a first successful binding to
/// `id`, binding `id` again answers `AlreadyBound`, which is fully
/// suppressed, and the resolved icon reference is still `id` itself; so
/// a second resolution of the same application identity never propagates
/// an error.
pub proof fn lemma_binding_idempotent(id: Seq<u8>)
    requires
        id.len() > 0,
    ensures
        ({
            let (st1, o1) = spec_bind_step(None, id);
            let (st2, o2) = spec_bind_step(st1, id);
            &&& o1 == BindingOutcomeModel::Bound
            &&& o2 == BindingOutcomeModel::AlreadyBound
            &&& spec_classify_binding(o1) is None
            &&& spec_classify_binding(o2) is None
            &&& st2 == st1
        }),
        spec_resolve_icon(Some(IconModel::AppIdentity(id)), false) == id,
        spec_resolve_icon(Some(IconModel::AppIdentity(id)), true) == id,
{
}

} // verus!
