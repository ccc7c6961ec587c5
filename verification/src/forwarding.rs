//! The life cycle of the process-wide pointer hook.
//!
//! One hook serves every enrolled surface. It is asked for when the first
//! surface is enrolled and given up when the last one is withdrawn, and for
//! no other reason. The state kept here decides; installing and removing the
//! hook is the caller's part, and so is reporting a successful installation
//! back.

use crate::locator::{find_child_window, first_surface, ChildWindow};
use crate::registry::Registry;
use vstd::prelude::*;

verus! {

/// What the caller has to do to the pointer hook after a request.
#[derive(Clone, Copy, Debug, PartialEq, Eq, Structural)]
pub enum HookAction {
    /// Leave the hook as it is.
    Keep,
    /// Install the hook, and report its handle with
    /// [`Forwarding::hook_installed`] if that succeeds.
    Install,
    /// Remove the hook with this handle. It is no longer recorded.
    Uninstall(isize),
}

/// The forwarding state as a mathematical value: the enrolled surfaces and
/// the handle of the installed hook, if there is one.
#[verifier::ext_equal]
pub struct ForwardingView {
    pub targets: Set<isize>,
    pub hook: Option<isize>,
}

impl ForwardingView {
    /// No surface enrolled, no hook installed.
    pub open spec fn initial() -> ForwardingView {
        ForwardingView { targets: Set::empty(), hook: None }
    }

    /// A hook is never recorded while no surface is enrolled.
    pub open spec fn wf(self) -> bool {
        self.hook is Some ==> !self.targets.is_empty()
    }

    /// A hook is recorded exactly when some surface is enrolled.
    pub open spec fn consistent(self) -> bool {
        self.hook is Some <==> !self.targets.is_empty()
    }

    /// The state after `target` has been enrolled.
    pub open spec fn enable(self, target: isize) -> ForwardingView {
        ForwardingView { targets: self.targets.insert(target), hook: self.hook }
    }

    /// What enrolling a surface asks of the caller: a hook, when the surface
    /// is the first to be enrolled.
    pub open spec fn enable_action(self) -> HookAction {
        if self.targets.is_empty() {
            HookAction::Install
        } else {
            HookAction::Keep
        }
    }

    /// Withdrawing `target` leaves no surface enrolled while a hook is
    /// recorded.
    pub open spec fn releases(self, target: isize) -> bool {
        self.hook is Some && self.targets.remove(target).is_empty()
    }

    /// The state after `target` has been withdrawn.
    pub open spec fn disable(self, target: isize) -> ForwardingView {
        ForwardingView {
            targets: self.targets.remove(target),
            hook: if self.releases(target) {
                None
            } else {
                self.hook
            },
        }
    }

    /// What withdrawing `target` asks of the caller.
    pub open spec fn disable_action(self, target: isize) -> HookAction {
        if self.releases(target) {
            HookAction::Uninstall(self.hook->0)
        } else {
            HookAction::Keep
        }
    }

    /// A freshly installed hook is taken up: none is recorded yet and some
    /// surface still needs it.
    pub open spec fn accepts_hook(self) -> bool {
        self.hook is None && !self.targets.is_empty()
    }

    /// The state after the installation of `handle` has been reported.
    pub open spec fn hook_installed(self, handle: isize) -> ForwardingView {
        if self.accepts_hook() {
            ForwardingView { targets: self.targets, hook: Some(handle) }
        } else {
            self
        }
    }

    /// The state after a request to turn forwarding on or off for the
    /// surface that was located, if any was.
    pub open spec fn request(self, surface: Option<isize>, forward: bool) -> ForwardingView {
        match surface {
            None => self,
            Some(target) => if forward {
                self.enable(target)
            } else {
                self.disable(target)
            },
        }
    }

    /// What such a request asks of the caller; `None` when no surface was
    /// located.
    pub open spec fn request_action(self, surface: Option<isize>, forward: bool) -> Option<
        HookAction,
    > {
        match surface {
            None => None,
            Some(target) => if forward {
                Some(self.enable_action())
            } else {
                Some(self.disable_action(target))
            },
        }
    }

    /// The state after one complete call: the request, followed by the
    /// report of the installation where one was asked for and succeeded.
    pub open spec fn call(self, c: Call) -> ForwardingView {
        let next = self.request(c.surface, c.forward);
        if self.asks_install(c) && c.installed is Some {
            next.hook_installed(c.installed->0)
        } else {
            next
        }
    }

    /// The call makes the state ask for a hook.
    pub open spec fn asks_install(self, c: Call) -> bool {
        self.request_action(c.surface, c.forward) == Some(HookAction::Install)
    }

    /// The state after a sequence of complete calls.
    pub open spec fn run(self, calls: Seq<Call>) -> ForwardingView
        decreases calls.len(),
    {
        if calls.len() == 0 {
            self
        } else {
            self.run(calls.drop_last()).call(calls.last())
        }
    }

    /// Every installation that the sequence leads the state to ask for
    /// succeeds.
    pub open spec fn installs_succeed(self, calls: Seq<Call>) -> bool {
        forall|i: int|
            0 <= i < calls.len() && self.run(calls.take(i)).asks_install(#[trigger] calls[i])
                ==> calls[i].installed is Some
    }
}

/// One complete call as the application performs it: the surface that the
/// locator found, the direction of the request, and the handle that the
/// system returns if the call leads to an installation (`None` when the
/// system refuses).
pub struct Call {
    pub surface: Option<isize>,
    pub forward: bool,
    pub installed: Option<isize>,
}

/// The enrolled surfaces together with the record of the installed hook.
///
/// There is at most one hook, and none while no surface is enrolled. After
/// an installation that was asked for has succeeded and been reported, a
/// hook is recorded exactly when some surface is enrolled.
pub struct Forwarding {
    registry: Registry,
    hook: Option<isize>,
}

impl View for Forwarding {
    type V = ForwardingView;

    closed spec fn view(&self) -> ForwardingView {
        ForwardingView { targets: self.registry@, hook: self.hook }
    }
}

impl Forwarding {
    /// The invariant of the type. The initial state has it, enrolling and
    /// withdrawing establish it and reporting a hook keeps it, so it holds of
    /// every state that was reached through this module.
    pub open spec fn wf(&self) -> bool {
        self@.wf()
    }

    /// The initial state: nothing enrolled, no hook.
    pub fn new() -> (state: Self)
        ensures
            state@ == ForwardingView::initial(),
            state.wf(),
    {
        Forwarding { registry: Registry::new(), hook: None }
    }

    /// Enrols `target` and says whether the hook has to be installed: it has
    /// when no surface was enrolled before.
    pub fn enable(&mut self, target: isize) -> (action: HookAction)
        ensures
            final(self).wf(),
            final(self)@ == old(self)@.enable(target),
            action == old(self)@.enable_action(),
    {
        let was_empty = self.registry.enable(target);
        assert(self.registry@.contains(target));
        if was_empty {
            HookAction::Install
        } else {
            HookAction::Keep
        }
    }

    /// Withdraws `target`. When that leaves no surface enrolled the recorded
    /// hook, if any, is handed back for removal and forgotten.
    pub fn disable(&mut self, target: isize) -> (action: HookAction)
        ensures
            final(self).wf(),
            final(self)@ == old(self)@.disable(target),
            action == old(self)@.disable_action(target),
    {
        let now_empty = self.registry.disable(target);
        if now_empty {
            match self.hook.take() {
                Some(handle) => HookAction::Uninstall(handle),
                None => HookAction::Keep,
            }
        } else {
            HookAction::Keep
        }
    }

    /// Records the handle of a hook that the caller has just installed.
    ///
    /// The handle is kept when no hook is recorded and some surface is
    /// enrolled; the result is then `None`. Otherwise the state stays as it
    /// is and the handle comes back, for the caller to remove that hook.
    pub fn hook_installed(&mut self, handle: isize) -> (surplus: Option<isize>)
        ensures
            old(self).wf() ==> final(self).wf(),
            final(self)@ == old(self)@.hook_installed(handle),
            surplus == if old(self)@.accepts_hook() {
                None
            } else {
                Some(handle)
            },
    {
        if self.hook.is_none() && !self.registry.is_empty() {
            self.hook = Some(handle);
            None
        } else {
            Some(handle)
        }
    }

    /// The handle of the recorded hook.
    pub fn hook(&self) -> (handle: Option<isize>)
        ensures
            handle == self@.hook,
    {
        self.hook
    }

    /// Whether `target` is enrolled.
    pub fn is_forwarding(&self, target: isize) -> (enrolled: bool)
        ensures
            enrolled == self@.targets.contains(target),
    {
        self.registry.contains(target)
    }

    /// A copy of the enrolled handles, each exactly once, in no particular
    /// order.
    pub fn snapshot(&self) -> (members: Vec<isize>)
        ensures
            members@.no_duplicates(),
            members@.to_set() == self@.targets,
            members@.len() == self@.targets.len(),
    {
        self.registry.snapshot()
    }
}

/// Turns pointer forwarding on or off for the rendering surface among
/// `children`, the descendants of one top-level window.
///
/// When no descendant is the rendering surface the state is left untouched
/// and the result is `None`. Otherwise the surface is enrolled (`forward`) or
/// withdrawn (`!forward`), and the result says what to do to the hook.
pub fn set_forward_mouse_messages(
    state: &mut Forwarding,
    children: &Vec<ChildWindow>,
    forward: bool,
) -> (action: Option<HookAction>)
    ensures
        old(state).wf() || action is Some ==> final(state).wf(),
        final(state)@ == old(state)@.request(first_surface(children@), forward),
        action == old(state)@.request_action(first_surface(children@), forward),
        action is None <==> first_surface(children@) is None,
{
    match find_child_window(children) {
        None => None,
        Some(surface) => {
            if forward {
                Some(state.enable(surface))
            } else {
                Some(state.disable(surface))
            }
        },
    }
}

/// Applies a request to ignore pointer events on a window, as far as
/// forwarding goes.
///
/// Forwarding is wanted only for a window that ignores pointer events, so
/// the surface is enrolled when both `ignore` and `forward` are set and
/// withdrawn in every other case. Making the window itself click-through or
/// not, as `ignore` says, is left to the caller.
pub fn set_ignore_mouse_events(
    state: &mut Forwarding,
    children: &Vec<ChildWindow>,
    ignore: bool,
    forward: bool,
) -> (action: Option<HookAction>)
    ensures
        old(state).wf() || action is Some ==> final(state).wf(),
        final(state)@ == old(state)@.request(first_surface(children@), ignore && forward),
        action == old(state)@.request_action(first_surface(children@), ignore && forward),
        action is None <==> first_surface(children@) is None,
{
    set_forward_mouse_messages(state, children, ignore && forward)
}

/// There is never a hook without a surface that needs it: enrolling and
/// withdrawing lead to such a state from any state, and reporting a hook
/// stays within such states.
pub proof fn lemma_steps_keep_wf(v: ForwardingView, target: isize, handle: isize)
    ensures
        v.enable(target).wf(),
        v.disable(target).wf(),
        v.wf() ==> v.hook_installed(handle).wf(),
{
    assert(v.enable(target).targets.contains(target));
}

/// One complete call whose installation, if it asks for one, succeeds takes
/// a state in which the hook is present exactly when a surface is enrolled
/// to another such state.
pub proof fn lemma_call_keeps_hook_with_registry(v: ForwardingView, c: Call)
    requires
        v.consistent(),
        v.asks_install(c) ==> c.installed is Some,
    ensures
        v.call(c).consistent(),
{
    match c.surface {
        None => {},
        Some(target) => {
            if c.forward {
                assert(v.enable(target).targets.contains(target));
            }
        },
    }
}

proof fn lemma_prefix_installs_succeed(v: ForwardingView, calls: Seq<Call>, n: int)
    requires
        0 <= n <= calls.len(),
        v.installs_succeed(calls),
    ensures
        v.installs_succeed(calls.take(n)),
{
    let prefix = calls.take(n);
    assert forall|i: int|
        0 <= i < prefix.len() && v.run(prefix.take(i)).asks_install(
            #[trigger] prefix[i],
        ) implies prefix[i].installed is Some by {
        assert(prefix.take(i) == calls.take(i));
        assert(prefix[i] == calls[i]);
    }
}

proof fn lemma_run_keeps_hook_with_registry(v: ForwardingView, calls: Seq<Call>)
    requires
        v.consistent(),
        v.installs_succeed(calls),
    ensures
        v.run(calls).consistent(),
    decreases calls.len(),
{
    if calls.len() > 0 {
        let shorter = calls.drop_last();
        assert(shorter == calls.take(calls.len() - 1));
        lemma_prefix_installs_succeed(v, calls, calls.len() - 1);
        lemma_run_keeps_hook_with_registry(v, shorter);
        assert(calls[calls.len() - 1] == calls.last());
        lemma_call_keeps_hook_with_registry(v.run(shorter), calls.last());
    }
}

/// For every sequence of calls whose installations succeed, started in a
/// state in which the hook is present exactly when a surface is enrolled,
/// the same holds after each call of the sequence.
pub proof fn lemma_hook_present_iff_enrolled(v: ForwardingView, calls: Seq<Call>)
    requires
        v.consistent(),
        v.installs_succeed(calls),
    ensures
        forall|n: int| 0 <= n <= calls.len() ==> (#[trigger] v.run(calls.take(n))).consistent(),
{
    assert forall|n: int| 0 <= n <= calls.len() implies (#[trigger] v.run(
        calls.take(n),
    )).consistent() by {
        lemma_prefix_installs_succeed(v, calls, n);
        lemma_run_keeps_hook_with_registry(v, calls.take(n));
    }
}

/// Enrolling a surface that is already enrolled changes nothing and asks
/// for no hook: the surface is enrolled once, and the hook that its first
/// enrolment may have asked for is the only one.
pub proof fn lemma_enable_twice(v: ForwardingView, target: isize, handle: isize)
    ensures
        v.enable(target).enable(target) == v.enable(target),
        v.enable(target).enable_action() == HookAction::Keep,
        ({
            let once = v.enable(target).hook_installed(handle);
            once.enable(target) == once && once.enable_action() == HookAction::Keep
        }),
{
    let enrolled = v.enable(target);
    assert(enrolled.targets.contains(target));
    assert(enrolled.targets.insert(target) =~= enrolled.targets);
    let once = enrolled.hook_installed(handle);
    assert(once.targets.insert(target) =~= once.targets);
}

/// Withdrawing a surface that is not enrolled changes nothing and asks for
/// nothing: a hook that other surfaces still need stays.
pub proof fn lemma_disable_not_enrolled(v: ForwardingView, target: isize)
    requires
        v.wf(),
        !v.targets.contains(target),
    ensures
        v.disable(target) == v,
        v.disable_action(target) == HookAction::Keep,
{
    assert(v.targets.remove(target) =~= v.targets);
}

/// The hook is asked for on the step from no surface to one and handed back
/// on the step from one surface to none, and on no other: a hook is never
/// asked for while one is recorded, and while the hook is present exactly
/// when a surface is enrolled, withdrawing the last surface is what releases
/// it.
pub proof fn lemma_actions_follow_emptiness(v: ForwardingView, target: isize)
    requires
        v.wf(),
    ensures
        v.enable_action() == HookAction::Install <==> v.targets.is_empty(),
        v.enable_action() == HookAction::Install ==> v.hook is None,
        v.disable_action(target) != HookAction::Keep ==> v.targets.contains(target)
            && v.disable(target).targets.is_empty(),
        v.consistent() && v.targets.contains(target) && v.disable(target).targets.is_empty()
            ==> v.disable_action(target) == HookAction::Uninstall(v.hook->0),
{
    if !v.targets.contains(target) {
        assert(v.targets.remove(target) =~= v.targets);
    }
}

} // verus!
