//! Enabling the rights that acquisition needs on the calling process's own
//! token, as a state machine: the rights are enabled in order, and the first
//! one that cannot be enabled ends the attempt.
use vstd::prelude::*;

verus! {

/// The right to inspect and debug other processes.
pub const DEBUG_PRIVILEGE: &'static str = "SeDebugPrivilege";

/// The right to impersonate a client after authentication.
pub const IMPERSONATE_PRIVILEGE: &'static str = "SeImpersonatePrivilege";

/// The rights to enable, in the order in which they are enabled.
pub open spec fn required_spec() -> Seq<Seq<char>> {
    seq![DEBUG_PRIVILEGE@, IMPERSONATE_PRIVILEGE@]
}

/// The rights to enable, in the order in which they are enabled.
pub fn required_privileges() -> (r: Vec<String>)
    ensures
        r@.len() == required_spec().len(),
        forall|i: int| 0 <= i < r@.len() ==> #[trigger] r@[i]@ == required_spec()[i],
{
    vec![DEBUG_PRIVILEGE.to_owned(), IMPERSONATE_PRIVILEGE.to_owned()]
}

/// Why the rights could not be enabled.
#[derive(PartialEq, Eq, Structural, Clone, Copy, Debug)]
pub enum PrivilegeError {
    /// The process's own token could not be opened for adjustment.
    TokenUnavailable,
    /// The right at this position of the required list could not be enabled.
    NotEnabled(usize),
}

/// What the caller is to do next.
#[derive(PartialEq, Eq, Structural, Clone, Copy, Debug)]
pub enum PrivilegeAction {
    /// Open the process's own token for adjustment and query.
    OpenToken,
    /// Enable the right at this position of the required list.
    Enable(usize),
    /// Stop: all rights are enabled.
    Enabled,
    /// Stop, with this failure.
    Failed(PrivilegeError),
}

/// The result of performing an action, handed back to the machine.
#[derive(PartialEq, Eq, Structural, Clone, Copy, Debug)]
pub enum PrivilegeEvent {
    /// Whether the token was opened.
    TokenOpened(bool),
    /// Whether the right last named was enabled.
    Adjusted(bool),
}

/// The action after `e` when `last` was asked for, with `count` rights to enable.
/// Once the attempt has ended, or where the event is not the one awaited,
/// the last action stands.
pub open spec fn privilege_next(count: nat, last: PrivilegeAction, e: PrivilegeEvent) -> PrivilegeAction {
    match (last, e) {
        (PrivilegeAction::OpenToken, PrivilegeEvent::TokenOpened(ok)) => if !ok {
            PrivilegeAction::Failed(PrivilegeError::TokenUnavailable)
        } else if count == 0 {
            PrivilegeAction::Enabled
        } else {
            PrivilegeAction::Enable(0)
        },
        (PrivilegeAction::Enable(i), PrivilegeEvent::Adjusted(ok)) => if !ok {
            PrivilegeAction::Failed(PrivilegeError::NotEnabled(i))
        } else if i + 1 == count {
            PrivilegeAction::Enabled
        } else {
            PrivilegeAction::Enable((i + 1) as usize)
        },
        _ => last,
    }
}

/// The action after the events `es`, in order, from `last`.
pub open spec fn privilege_run(count: nat, last: PrivilegeAction, es: Seq<PrivilegeEvent>) -> PrivilegeAction
    decreases es.len(),
{
    if es.len() == 0 {
        last
    } else {
        privilege_run(count, privilege_next(count, last, es[0]), es.drop_first())
    }
}

/// The events of an attempt in which the token opens and each of `count`
/// rights is enabled.
pub open spec fn all_succeed(count: nat) -> Seq<PrivilegeEvent> {
    seq![PrivilegeEvent::TokenOpened(true)] + Seq::new(count, |i: int| PrivilegeEvent::Adjusted(true))
}

proof fn lemma_rest_succeed(count: nat, k: nat)
    requires
        k < count,
        count <= usize::MAX,
    ensures
        privilege_run(count, PrivilegeAction::Enable(k as usize), Seq::new((count - k) as nat, |i: int| PrivilegeEvent::Adjusted(true)))
            == PrivilegeAction::Enabled,
    decreases count - k,
{
    let es = Seq::new((count - k) as nat, |i: int| PrivilegeEvent::Adjusted(true));
    assert(es[0] == PrivilegeEvent::Adjusted(true));
    let nxt = privilege_next(count, PrivilegeAction::Enable(k as usize), es[0]);
    if k + 1 < count {
        assert(nxt == PrivilegeAction::Enable((k + 1) as usize));
        lemma_rest_succeed(count, k + 1);
        assert(es.drop_first() =~= Seq::new((count - (k + 1)) as nat, |i: int| PrivilegeEvent::Adjusted(true)));
    } else {
        assert(nxt == PrivilegeAction::Enabled);
        assert(es.drop_first().len() == 0);
    }
    assert(privilege_run(count, PrivilegeAction::Enable(k as usize), es) == privilege_run(count, nxt, es.drop_first()));
}

/// An attempt in which every right is enabled ends with all enabled. As the
/// result depends on the events alone, enabling rights that are already
/// enabled, which the system reports as success, succeeds again.
pub proof fn lemma_enabling_again_succeeds(count: nat)
    requires
        count <= usize::MAX,
    ensures
        privilege_run(count, PrivilegeAction::OpenToken, all_succeed(count)) == PrivilegeAction::Enabled,
{
    let es = all_succeed(count);
    assert(es[0] == PrivilegeEvent::TokenOpened(true));
    assert(privilege_run(count, PrivilegeAction::OpenToken, es)
        == privilege_run(count, privilege_next(count, PrivilegeAction::OpenToken, es[0]), es.drop_first()));
    if count == 0 {
        assert(es.drop_first().len() == 0);
    } else {
        lemma_rest_succeed(count, 0);
        assert(es.drop_first() =~= Seq::new(count, |i: int| PrivilegeEvent::Adjusted(true)));
    }
}

/// One attempt to enable `count` rights.
pub struct PrivilegeEnabler {
    pub count: usize,
    pub last: PrivilegeAction,
}

impl PrivilegeEnabler {
    /// The position asked for lies within the rights to enable.
    pub open spec fn wf(&self) -> bool {
        self.last matches PrivilegeAction::Enable(i) ==> i < self.count
    }

    /// An attempt that starts by opening the token.
    pub fn new(count: usize) -> (r: PrivilegeEnabler)
        ensures
            r.wf(),
            r.count == count,
            r.last == PrivilegeAction::OpenToken,
    {
        PrivilegeEnabler { count, last: PrivilegeAction::OpenToken }
    }

    /// Takes the result of the last action and decides the next one.
    pub fn step(&mut self, event: PrivilegeEvent) -> (r: PrivilegeAction)
        requires
            old(self).wf(),
        ensures
            final(self).wf(),
            final(self).count == old(self).count,
            final(self).last == r,
            r == privilege_next(old(self).count as nat, old(self).last, event),
    {
        match (self.last, event) {
            (PrivilegeAction::OpenToken, PrivilegeEvent::TokenOpened(ok)) => {
                self.last = if !ok {
                    PrivilegeAction::Failed(PrivilegeError::TokenUnavailable)
                } else if self.count == 0 {
                    PrivilegeAction::Enabled
                } else {
                    PrivilegeAction::Enable(0)
                };
            },
            (PrivilegeAction::Enable(i), PrivilegeEvent::Adjusted(ok)) => {
                self.last = if !ok {
                    PrivilegeAction::Failed(PrivilegeError::NotEnabled(i))
                } else if i + 1 == self.count {
                    PrivilegeAction::Enabled
                } else {
                    PrivilegeAction::Enable(i + 1)
                };
            },
            _ => {},
        }
        self.last
    }
}

} // verus!
