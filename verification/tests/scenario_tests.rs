//! End-to-end navigation scenarios, driving the library as the surrounding
//! application would: resolve, realize (here: hand out fresh handle
//! numbers), and apply directives to the navigation stack.

use menu_nav::dispatch::Directive;
use menu_nav::dispatch::ElementState;
use menu_nav::dispatch::InteractionSignal;
use menu_nav::dispatch::dispatch;
use menu_nav::menus::main_menu_template;
use menu_nav::resolve::DiscoveredItem;
use menu_nav::resolve::EnumerationSource;
use menu_nav::resolve::resolve;
use menu_nav::stack::NavStack;
use menu_nav::stack::PopOutcome;
use menu_nav::template::Action;
use menu_nav::template::ButtonGroupSpec;
use menu_nav::template::ButtonSpec;
use menu_nav::template::MenuTemplate;
use menu_nav::template::Screen;
use menu_nav::template::TitleEmphasis;
use menu_nav::template::TitleSpec;

fn empty_source() -> EnumerationSource {
    EnumerationSource::new(None, None)
}

fn sub_template(title: &str) -> MenuTemplate {
    MenuTemplate {
        title: TitleSpec { text: title.to_string(), emphasis: TitleEmphasis::Secondary },
        groups: vec![],
    }
}

fn root_template(sub: MenuTemplate) -> MenuTemplate {
    MenuTemplate {
        title: TitleSpec { text: "Root".to_string(), emphasis: TitleEmphasis::Primary },
        groups: vec![ButtonGroupSpec::Fixed(vec![ButtonSpec {
            text: "Play".to_string(),
            action: Action::OpenMenu(sub),
        }])],
    }
}

/// A tiny presentation stand-in: realized screens by handle, handles never
/// reused.
struct Presenter {
    next: u64,
    alive: Vec<(u64, Screen)>,
}

impl Presenter {
    fn new() -> Presenter {
        Presenter { next: 1, alive: Vec::new() }
    }

    fn realize(&mut self, screen: Screen) -> u64 {
        let h = self.next;
        self.next += 1;
        self.alive.push((h, screen));
        h
    }

    fn destroy(&mut self, h: u64) {
        let before = self.alive.len();
        self.alive.retain(|(k, _)| *k != h);
        assert_eq!(self.alive.len() + 1, before, "destroyed a handle that was not alive");
    }

    fn is_alive(&self, h: u64) -> bool {
        self.alive.iter().any(|(k, _)| *k == h)
    }
}

#[test]
fn scenario_enter_then_open_submenu() {
    // Enter with a root holding one play button that opens a submenu, then
    // press that button: depth 2, submenu on top, root hidden not
    // destroyed.
    let mut presenter = Presenter::new();
    let root = root_template(sub_template("Sub"));
    let screen = resolve(root, &mut empty_source());
    let root_handle = presenter.realize(screen);
    let mut stack = NavStack::enter(root_handle);

    // The pressed button's action, as bound on the realized screen.
    let (_, fired) = ElementState::new().observe(InteractionSignal::Pressed);
    assert!(fired);
    let pressed = {
        let (_, screen) = &presenter.alive[0];
        screen.rows[0][0].action.duplicate()
    };
    let directives = dispatch(pressed);
    assert_eq!(directives.len(), 1);
    match directives.into_iter().next().unwrap() {
        Directive::OpenMenu(t) => {
            assert_eq!(t.title.text, "Sub");
            let sub_screen = resolve(t, &mut empty_source());
            let sub_handle = presenter.realize(sub_screen);
            let hidden = stack.push(sub_handle);
            assert_eq!(hidden, root_handle);
        }
        _ => panic!("expected an open-menu directive"),
    }

    assert_eq!(stack.depth(), 2);
    let entries = stack.entries();
    assert_eq!(entries[0].handle, root_handle);
    assert!(!entries[0].visible, "the root screen must be hidden");
    assert!(entries[1].visible, "the submenu must be visible");
    assert!(presenter.is_alive(root_handle), "the root screen must not be destroyed");
}

#[test]
fn scenario_back_from_depth_two() {
    // From depth 2, press a back button: depth 1, the submenu's handle
    // destroyed, the root re-shown.
    let mut presenter = Presenter::new();
    let root_handle = presenter.realize(resolve(sub_template("Root"), &mut empty_source()));
    let mut stack = NavStack::enter(root_handle);
    let sub_handle = presenter.realize(resolve(sub_template("Sub"), &mut empty_source()));
    stack.push(sub_handle);

    let directives = dispatch(Action::Back);
    assert!(matches!(directives[0], Directive::Back));
    match stack.pop() {
        PopOutcome::Revealed { destroyed, revealed, stack } => {
            assert_eq!(destroyed, sub_handle);
            presenter.destroy(destroyed);
            assert_eq!(revealed, root_handle);
            assert_eq!(stack.depth(), 1);
            assert!(stack.entries()[0].visible, "the root must be re-shown");
        }
        PopOutcome::Emptied { .. } => panic!("the root should remain"),
    }
    assert!(!presenter.is_alive(sub_handle));
    assert!(presenter.is_alive(root_handle));
}

#[test]
fn scenario_open_target_tears_the_whole_stack_down() {
    // Pressing an open-target button from depth 3: all three handles
    // destroyed, the payload handed to the domain, the subsystem empty.
    let mut presenter = Presenter::new();
    let h1 = presenter.realize(resolve(sub_template("A"), &mut empty_source()));
    let mut stack = NavStack::enter(h1);
    let h2 = presenter.realize(resolve(sub_template("B"), &mut empty_source()));
    stack.push(h2);
    let h3 = presenter.realize(resolve(sub_template("C"), &mut empty_source()));
    stack.push(h3);
    assert_eq!(stack.depth(), 3);

    let directives = dispatch(Action::OpenTarget("worlds/alpha".to_string()));
    let mut stack = Some(stack);
    let mut domain_payload: Option<String> = None;
    for d in directives {
        match d {
            Directive::OpenTarget(p) => {
                domain_payload = Some(p);
                if let Some(s) = stack.take() {
                    for h in s.tear_down() {
                        presenter.destroy(h);
                    }
                }
            }
            _ => panic!("expected only the open-target directive"),
        }
    }
    assert_eq!(domain_payload.as_deref(), Some("worlds/alpha"));
    assert!(stack.is_none(), "the subsystem must be empty");
    assert!(!presenter.is_alive(h1));
    assert!(!presenter.is_alive(h2));
    assert!(!presenter.is_alive(h3));
}

#[test]
fn main_menu_matches_the_shipped_tree() {
    let t = main_menu_template();
    assert_eq!(t.title.text, "voxmod");
    assert!(matches!(t.title.emphasis, TitleEmphasis::Primary));
    assert_eq!(t.groups.len(), 3);
    let play = match &t.groups[0] {
        ButtonGroupSpec::Fixed(buttons) => {
            assert_eq!(buttons.len(), 1);
            assert_eq!(buttons[0].text, "Play");
            &buttons[0].action
        }
        _ => panic!("the first group is fixed"),
    };
    let choose = match play {
        Action::OpenMenu(t) => t,
        _ => panic!("play opens a submenu"),
    };
    assert_eq!(choose.title.text, "Choose a world");
    assert_eq!(choose.groups.len(), 2);
    match &choose.groups[1] {
        ButtonGroupSpec::Fixed(buttons) => {
            assert_eq!(buttons[0].text, "Back");
            assert!(matches!(buttons[0].action, Action::Back));
            assert_eq!(buttons[1].text, "New world");
            match &buttons[1].action {
                Action::OpenMenu(new_world) => {
                    assert_eq!(new_world.title.text, "New world");
                    match &new_world.groups[1] {
                        ButtonGroupSpec::Fixed(buttons) => match &buttons[1].action {
                            Action::Batch(steps) => {
                                assert_eq!(steps.len(), 2);
                                assert!(matches!(steps[0], Action::ImportExternalContent));
                                assert!(matches!(steps[1], Action::Rebuild));
                            }
                            _ => panic!("import is a batch"),
                        },
                        _ => panic!("the second group is fixed"),
                    }
                }
                _ => panic!("new world opens a submenu"),
            }
        }
        _ => panic!("the second group is fixed"),
    }
}

#[test]
fn main_menu_resolves_against_discovered_worlds() {
    let t = main_menu_template();
    let play = match t.groups.into_iter().next().unwrap() {
        ButtonGroupSpec::Fixed(buttons) => buttons.into_iter().next().unwrap().action,
        _ => panic!("the first group is fixed"),
    };
    let choose = match play {
        Action::OpenMenu(t) => t,
        _ => panic!("play opens a submenu"),
    };
    let mut source = EnumerationSource::new(
        None,
        Some(vec![DiscoveredItem { name: "alpha".to_string(), path: "worlds/alpha".to_string() }]),
    );
    let screen = resolve(choose, &mut source);
    // One generated row for the world, then the fixed back row.
    assert_eq!(screen.rows.len(), 2);
    assert_eq!(screen.rows[0][0].text, "alpha");
    match &screen.rows[0][0].action {
        Action::OpenTarget(p) => assert_eq!(p, "worlds/alpha"),
        _ => panic!("worlds open targets"),
    }
    assert_eq!(screen.rows[1][0].text, "Back");
}
