use menu_nav::resolve::DiscoveredItem;
use menu_nav::resolve::EnumerationSource;
use menu_nav::resolve::join_path;
use menu_nav::resolve::resolve;
use menu_nav::template::Action;
use menu_nav::template::ButtonGroupSpec;
use menu_nav::template::ButtonSpec;
use menu_nav::template::DomainActionKind;
use menu_nav::template::EnumerationKind;
use menu_nav::template::GeneratorSpec;
use menu_nav::template::MenuTemplate;
use menu_nav::template::TitleEmphasis;
use menu_nav::template::TitleSpec;

fn title(text: &str) -> TitleSpec {
    TitleSpec { text: text.to_string(), emphasis: TitleEmphasis::Secondary }
}

fn button(text: &str, action: Action) -> ButtonSpec {
    ButtonSpec { text: text.to_string(), action }
}

fn item(name: &str, path: &str) -> DiscoveredItem {
    DiscoveredItem { name: name.to_string(), path: path.to_string() }
}

fn failing_source() -> EnumerationSource {
    EnumerationSource::new(None, None)
}

#[test]
fn fixed_groups_mirror_template_rows() {
    // Only fixed groups: the screen mirrors the template, whatever the
    // source would list.
    let t = MenuTemplate {
        title: title("Root"),
        groups: vec![
            ButtonGroupSpec::Fixed(vec![button("A", Action::Back), button("B", Action::Rebuild)]),
            ButtonGroupSpec::Fixed(vec![button("C", Action::ImportExternalContent)]),
        ],
    };
    let mut source = EnumerationSource::new(
        Some(vec![item("g", "games/g")]),
        Some(vec![item("w", "worlds/w")]),
    );
    let screen = resolve(t, &mut source);
    assert_eq!(screen.title.text, "Root");
    assert_eq!(screen.rows.len(), 2);
    assert_eq!(screen.rows[0].len(), 2);
    assert_eq!(screen.rows[0][0].text, "A");
    assert_eq!(screen.rows[0][1].text, "B");
    assert_eq!(screen.rows[1].len(), 1);
    assert_eq!(screen.rows[1][0].text, "C");
}

#[test]
fn empty_template_resolves_to_no_rows() {
    let t = MenuTemplate { title: title("Empty"), groups: vec![] };
    let screen = resolve(t, &mut failing_source());
    assert_eq!(screen.rows.len(), 0);
}

#[test]
fn empty_fixed_group_is_one_empty_row() {
    let t = MenuTemplate { title: title("T"), groups: vec![ButtonGroupSpec::Fixed(vec![])] };
    let screen = resolve(t, &mut failing_source());
    assert_eq!(screen.rows.len(), 1);
    assert_eq!(screen.rows[0].len(), 0);
}

#[test]
fn generated_group_yields_one_row_per_item() {
    // A generated group over the worlds collection with two discovered
    // items: two single-button rows, each opening the joined path.
    let t = MenuTemplate {
        title: title("Choose"),
        groups: vec![ButtonGroupSpec::Generated(GeneratorSpec {
            kind: EnumerationKind::Worlds,
            action_kind: DomainActionKind::OpenTarget,
            base_path: "worlds".to_string(),
        })],
    };
    let mut source = EnumerationSource::new(
        None,
        Some(vec![item("alpha", "worlds/alpha"), item("beta", "worlds/beta")]),
    );
    let screen = resolve(t, &mut source);
    assert_eq!(screen.rows.len(), 2);
    assert_eq!(screen.rows[0].len(), 1);
    assert_eq!(screen.rows[0][0].text, "alpha");
    match &screen.rows[0][0].action {
        Action::OpenTarget(p) => assert_eq!(p, "worlds/alpha"),
        _ => panic!("expected an open-target action"),
    }
    assert_eq!(screen.rows[1][0].text, "beta");
    match &screen.rows[1][0].action {
        Action::OpenTarget(p) => assert_eq!(p, "worlds/beta"),
        _ => panic!("expected an open-target action"),
    }
}

#[test]
fn generated_group_attaches_create_action() {
    let t = MenuTemplate {
        title: title("New"),
        groups: vec![ButtonGroupSpec::Generated(GeneratorSpec {
            kind: EnumerationKind::Games,
            action_kind: DomainActionKind::CreateFromPath,
            base_path: "games".to_string(),
        })],
    };
    let mut source = EnumerationSource::new(Some(vec![item("base", "games/base")]), None);
    let screen = resolve(t, &mut source);
    assert_eq!(screen.rows.len(), 1);
    assert_eq!(screen.rows[0][0].text, "base");
    match &screen.rows[0][0].action {
        Action::CreateFromPath(p) => assert_eq!(p, "games/base"),
        _ => panic!("expected a create action"),
    }
}

#[test]
fn failed_listing_contributes_zero_rows_and_siblings_survive() {
    // The generated group's listing is unavailable: it contributes no rows
    // and no error, and both fixed siblings contribute as usual.
    let t = MenuTemplate {
        title: title("T"),
        groups: vec![
            ButtonGroupSpec::Fixed(vec![button("Before", Action::Back)]),
            ButtonGroupSpec::Generated(GeneratorSpec {
                kind: EnumerationKind::Worlds,
                action_kind: DomainActionKind::OpenTarget,
                base_path: "worlds".to_string(),
            }),
            ButtonGroupSpec::Fixed(vec![button("After", Action::Rebuild)]),
        ],
    };
    let screen = resolve(t, &mut failing_source());
    assert_eq!(screen.rows.len(), 2);
    assert_eq!(screen.rows[0][0].text, "Before");
    assert_eq!(screen.rows[1][0].text, "After");
}

#[test]
fn empty_listing_contributes_zero_rows() {
    let t = MenuTemplate {
        title: title("T"),
        groups: vec![ButtonGroupSpec::Generated(GeneratorSpec {
            kind: EnumerationKind::Games,
            action_kind: DomainActionKind::CreateFromPath,
            base_path: "games".to_string(),
        })],
    };
    let mut source = EnumerationSource::new(Some(vec![]), None);
    let screen = resolve(t, &mut source);
    assert_eq!(screen.rows.len(), 0);
}

#[test]
fn list_succeeds_exactly_when_snapshot_has_the_kind() {
    let mut source = EnumerationSource::new(Some(vec![item("g", "games/g")]), None);
    assert!(source.list(EnumerationKind::Games).is_ok());
    assert!(source.list(EnumerationKind::Worlds).is_err());
}

#[test]
fn join_path_inserts_separator() {
    let joined = join_path(&"worlds".to_string(), &"alpha".to_string());
    assert_eq!(joined, "worlds/alpha");
}

#[test]
fn join_path_with_empty_base_is_the_name() {
    let joined = join_path(&"".to_string(), &"alpha".to_string());
    assert_eq!(joined, "alpha");
}

#[test]
fn assets_path_names_the_conventional_directories() {
    assert_eq!(DomainActionKind::CreateFromPath.assets_path(), "games");
    assert_eq!(DomainActionKind::OpenTarget.assets_path(), "worlds");
}

#[test]
fn action_wraps_the_path_with_the_kind() {
    match DomainActionKind::CreateFromPath.action("games/x".to_string()) {
        Action::CreateFromPath(p) => assert_eq!(p, "games/x"),
        _ => panic!("expected a create action"),
    }
    match DomainActionKind::OpenTarget.action("worlds/y".to_string()) {
        Action::OpenTarget(p) => assert_eq!(p, "worlds/y"),
        _ => panic!("expected an open-target action"),
    }
}
