use win_transparency::forwarding::{
    set_forward_mouse_messages, set_ignore_mouse_events, Forwarding, HookAction,
};
use win_transparency::locator::ChildWindow;

const A: isize = 0x1001;
const B: isize = 0x2002;
const HOOK: isize = 0x7700;

fn sorted(state: &Forwarding) -> Vec<isize> {
    let mut members = state.snapshot();
    members.sort();
    members
}

/// The descendants of a window whose rendering surface has this handle.
fn window(surface: isize) -> Vec<ChildWindow> {
    let class = |name: &str| name.encode_utf16().chain(std::iter::repeat(0)).take(256).collect();
    vec![
        ChildWindow { handle: surface + 1, class_name: class("Chrome_WidgetWin_0") },
        ChildWindow { handle: surface, class_name: class("Chrome_RenderWidgetHostHWND") },
        ChildWindow { handle: surface + 2, class_name: class("Intermediate D3D Window") },
    ]
}

/// Carries out what the state asks for, with a system that never refuses,
/// and checks that a hook is installed exactly while a surface is enrolled.
struct System {
    state: Forwarding,
    installed: Option<isize>,
    installs: usize,
    removals: usize,
}

impl System {
    fn new() -> System {
        System { state: Forwarding::new(), installed: None, installs: 0, removals: 0 }
    }

    fn perform(&mut self, action: HookAction) {
        match action {
            HookAction::Keep => {}
            HookAction::Install => {
                assert_eq!(self.installed, None);
                let handle = HOOK + self.installs as isize;
                self.installs += 1;
                self.installed = Some(handle);
                assert_eq!(self.state.hook_installed(handle), None);
            }
            HookAction::Uninstall(handle) => {
                assert_eq!(self.installed, Some(handle));
                self.installed = None;
                self.removals += 1;
            }
        }
        assert_eq!(self.state.hook(), self.installed);
        assert_eq!(self.state.hook().is_some(), !self.state.snapshot().is_empty());
    }

    fn enable(&mut self, target: isize) -> HookAction {
        let action = self.state.enable(target);
        self.perform(action);
        action
    }

    fn disable(&mut self, target: isize) -> HookAction {
        let action = self.state.disable(target);
        self.perform(action);
        action
    }
}

#[test]
fn a_new_state_has_no_surface_and_no_hook() {
    let state = Forwarding::new();
    assert_eq!(state.snapshot(), vec![]);
    assert_eq!(state.hook(), None);
    assert!(!state.is_forwarding(A));
}

#[test]
fn hook_follows_the_registry_through_two_targets() {
    let mut state = Forwarding::new();

    assert_eq!(state.enable(A), HookAction::Install);
    assert_eq!(state.hook_installed(HOOK), None);
    assert_eq!(state.hook(), Some(HOOK));
    assert_eq!(sorted(&state), vec![A]);

    assert_eq!(state.enable(B), HookAction::Keep);
    assert_eq!(state.hook(), Some(HOOK));
    assert_eq!(sorted(&state), vec![A, B]);

    assert_eq!(state.disable(A), HookAction::Keep);
    assert_eq!(state.hook(), Some(HOOK));
    assert_eq!(sorted(&state), vec![B]);

    assert_eq!(state.disable(B), HookAction::Uninstall(HOOK));
    assert_eq!(state.hook(), None);
    assert_eq!(sorted(&state), vec![]);
}

#[test]
fn enabling_twice_enrols_once_and_installs_once() {
    let mut system = System::new();
    assert_eq!(system.enable(A), HookAction::Install);
    assert_eq!(system.enable(A), HookAction::Keep);
    assert_eq!(system.state.snapshot(), vec![A]);
    assert_eq!(system.state.hook(), Some(HOOK));
    assert_eq!(system.installs, 1);
    assert_eq!(system.removals, 0);
    assert_eq!(system.disable(A), HookAction::Uninstall(HOOK));
    assert_eq!(system.state.snapshot(), vec![]);
}

#[test]
fn disabling_a_target_that_is_not_enrolled_keeps_the_hook() {
    let mut system = System::new();
    assert_eq!(system.disable(B), HookAction::Keep);
    assert_eq!(system.state.snapshot(), vec![]);

    system.enable(A);
    assert_eq!(system.disable(B), HookAction::Keep);
    assert_eq!(system.state.snapshot(), vec![A]);
    assert_eq!(system.state.hook(), Some(HOOK));
    assert_eq!(system.removals, 0);
    assert!(system.state.is_forwarding(A));
    assert!(!system.state.is_forwarding(B));
}

#[test]
fn hook_is_present_exactly_while_a_target_is_enrolled() {
    let mut system = System::new();
    let steps: [(bool, isize); 14] = [
        (false, 1),
        (true, 1),
        (true, 2),
        (true, 1),
        (false, 3),
        (false, 1),
        (false, 1),
        (false, 2),
        (false, 2),
        (true, 3),
        (true, 3),
        (false, 3),
        (true, 1),
        (false, 1),
    ];
    for (forward, target) in steps {
        if forward {
            system.enable(target);
        } else {
            system.disable(target);
        }
    }
    assert_eq!(system.installs, 3);
    assert_eq!(system.removals, 3);
    assert_eq!(system.state.hook(), None);
}

#[test]
fn the_hook_is_asked_for_with_the_first_target_only() {
    let mut state = Forwarding::new();
    assert_eq!(state.enable(A), HookAction::Install);
    // The system refused: nothing is reported, so no hook is recorded.
    assert_eq!(state.hook(), None);
    assert_eq!(state.snapshot(), vec![A]);
    // The target stays enrolled, and later targets do not ask again.
    assert_eq!(state.enable(B), HookAction::Keep);
    assert_eq!(state.enable(A), HookAction::Keep);
    assert_eq!(state.hook(), None);
    // Nothing to remove when the registry empties.
    assert_eq!(state.disable(A), HookAction::Keep);
    assert_eq!(state.disable(B), HookAction::Keep);
    assert_eq!(state.snapshot(), vec![]);
    // The next first target asks again.
    assert_eq!(state.enable(B), HookAction::Install);
    assert_eq!(state.hook_installed(HOOK), None);
    assert_eq!(state.hook(), Some(HOOK));
}

#[test]
fn a_hook_that_cannot_be_kept_comes_back() {
    let mut state = Forwarding::new();
    // No surface is enrolled.
    assert_eq!(state.hook_installed(HOOK), Some(HOOK));
    assert_eq!(state.hook(), None);

    state.enable(A);
    assert_eq!(state.hook_installed(HOOK), None);
    // One is recorded already.
    assert_eq!(state.hook_installed(HOOK + 1), Some(HOOK + 1));
    assert_eq!(state.hook(), Some(HOOK));
    assert_eq!(state.disable(A), HookAction::Uninstall(HOOK));
}

#[test]
fn a_late_report_serves_the_targets_that_are_enrolled() {
    let mut state = Forwarding::new();
    assert_eq!(state.enable(A), HookAction::Install);
    assert_eq!(state.enable(B), HookAction::Keep);
    assert_eq!(state.disable(A), HookAction::Keep);
    assert_eq!(state.hook_installed(HOOK), None);
    assert_eq!(state.hook(), Some(HOOK));
    assert_eq!(state.disable(B), HookAction::Uninstall(HOOK));
}

#[test]
fn forwarding_is_requested_for_the_surface_of_the_window() {
    let mut state = Forwarding::new();
    assert_eq!(set_forward_mouse_messages(&mut state, &window(A), true), Some(HookAction::Install));
    assert_eq!(state.hook_installed(HOOK), None);
    assert_eq!(sorted(&state), vec![A]);

    assert_eq!(set_forward_mouse_messages(&mut state, &window(B), true), Some(HookAction::Keep));
    assert_eq!(sorted(&state), vec![A, B]);

    assert_eq!(set_forward_mouse_messages(&mut state, &window(A), false), Some(HookAction::Keep));
    assert_eq!(sorted(&state), vec![B]);

    assert_eq!(
        set_forward_mouse_messages(&mut state, &window(B), false),
        Some(HookAction::Uninstall(HOOK))
    );
    assert_eq!(sorted(&state), vec![]);
    assert_eq!(state.hook(), None);
}

#[test]
fn forwarding_needs_a_window_that_ignores_pointer_events() {
    let mut state = Forwarding::new();
    assert_eq!(
        set_ignore_mouse_events(&mut state, &window(A), true, true),
        Some(HookAction::Install)
    );
    assert_eq!(state.hook_installed(HOOK), None);
    assert!(state.is_forwarding(A));

    // Click-through without forwarding.
    assert_eq!(
        set_ignore_mouse_events(&mut state, &window(A), true, false),
        Some(HookAction::Uninstall(HOOK))
    );
    assert!(!state.is_forwarding(A));

    // Not click-through: forwarding is off whatever `forward` says.
    assert_eq!(
        set_ignore_mouse_events(&mut state, &window(A), true, true),
        Some(HookAction::Install)
    );
    assert_eq!(state.hook_installed(HOOK), None);
    assert_eq!(
        set_ignore_mouse_events(&mut state, &window(A), false, true),
        Some(HookAction::Uninstall(HOOK))
    );
    assert!(!state.is_forwarding(A));
    assert_eq!(set_ignore_mouse_events(&mut state, &window(A), false, true), Some(HookAction::Keep));
    assert_eq!(set_ignore_mouse_events(&mut state, &window(A), false, false), Some(HookAction::Keep));
    assert_eq!(state.snapshot(), vec![]);
    assert_eq!(state.hook(), None);
}

#[test]
fn a_request_without_a_surface_is_reported_as_such() {
    let mut state = Forwarding::new();
    assert_eq!(set_ignore_mouse_events(&mut state, &vec![], true, true), None);
    assert_eq!(set_ignore_mouse_events(&mut state, &vec![], false, false), None);
    assert_eq!(state.snapshot(), vec![]);
    assert_eq!(state.hook(), None);
}
