//! The menu tree the application ships: the main menu and its submenus.
//!
//! Templates are constructed fresh for every navigation event that needs a
//! new screen, so the enumeration source is re-queried each time a submenu
//! becomes current.

use vstd::prelude::*;
use vstd::string::StringExecFns;

use crate::template::Action;
use crate::template::ActionModel;
use crate::template::ButtonModel;
use crate::template::ButtonSpec;
use crate::template::ButtonGroupSpec;
use crate::template::DomainActionKind;
use crate::template::EnumerationKind;
use crate::template::GeneratorModel;
use crate::template::GeneratorSpec;
use crate::template::GroupModel;
use crate::template::MenuTemplate;
use crate::template::TemplateModel;
use crate::template::TitleEmphasis;
use crate::template::TitleModel;
use crate::template::TitleSpec;
use crate::template::buttons_model;
use crate::template::groups_model;
use crate::template::lemma_buttons_model;
use crate::template::lemma_groups_model;

verus! {

/// Model of the new-world menu: a group generated from the games
/// collection, creating from each discovered path, then a fixed row with
/// back and an import batch.
pub open spec fn new_world_model() -> TemplateModel {
    TemplateModel {
        title: TitleModel { text: "New world"@, emphasis: TitleEmphasis::Secondary },
        groups: seq![
            GroupModel::Generated(
                GeneratorModel {
                    kind: EnumerationKind::Games,
                    action_kind: DomainActionKind::CreateFromPath,
                    base_path: "games"@,
                },
            ),
            GroupModel::Fixed(
                seq![
                    ButtonModel { text: "Back"@, action: ActionModel::Back },
                    ButtonModel {
                        text: "Import game"@,
                        action: ActionModel::Batch(
                            seq![ActionModel::ImportExternalContent, ActionModel::Rebuild],
                        ),
                    },
                ],
            ),
        ],
    }
}

/// Model of the world-choosing menu: a group generated from the worlds
/// collection, opening each discovered path, then a fixed row with back and
/// the new-world submenu.
pub open spec fn choose_world_model() -> TemplateModel {
    TemplateModel {
        title: TitleModel { text: "Choose a world"@, emphasis: TitleEmphasis::Secondary },
        groups: seq![
            GroupModel::Generated(
                GeneratorModel {
                    kind: EnumerationKind::Worlds,
                    action_kind: DomainActionKind::OpenTarget,
                    base_path: "worlds"@,
                },
            ),
            GroupModel::Fixed(
                seq![
                    ButtonModel { text: "Back"@, action: ActionModel::Back },
                    ButtonModel {
                        text: "New world"@,
                        action: ActionModel::OpenMenu(new_world_model()),
                    },
                ],
            ),
        ],
    }
}

/// Model of the main menu: the primary title and three fixed single-button
/// rows — play, edit and quit.
pub open spec fn main_menu_model() -> TemplateModel {
    TemplateModel {
        title: TitleModel { text: "voxmod"@, emphasis: TitleEmphasis::Primary },
        groups: seq![
            GroupModel::Fixed(
                seq![
                    ButtonModel {
                        text: "Play"@,
                        action: ActionModel::OpenMenu(choose_world_model()),
                    },
                ],
            ),
            GroupModel::Fixed(seq![ButtonModel { text: "Edit"@, action: ActionModel::Back }]),
            GroupModel::Fixed(seq![ButtonModel { text: "Quit"@, action: ActionModel::Back }]),
        ],
    }
}

/// A fixed group holding exactly one button.
fn single_button_group(text: &str, action: Action) -> (g: ButtonGroupSpec)
    ensures
        g.model() == GroupModel::Fixed(
            seq![ButtonModel { text: text@, action: action.model() }],
        ),
{
    let mut buttons: Vec<ButtonSpec> = Vec::new();
    let ghost action_model = action.model();
    buttons.push(ButtonSpec { text: String::from_str(text), action });
    proof {
        lemma_buttons_model(buttons@);
        assert(buttons@[0].model() == ButtonModel { text: text@, action: action_model });
        assert(buttons_model(buttons@) =~= seq![
            ButtonModel { text: text@, action: action_model },
        ]);
    }
    ButtonGroupSpec::Fixed(buttons)
}

/// The new-world menu.
pub fn new_world_menu() -> (t: MenuTemplate)
    ensures
        t.model() == new_world_model(),
{
    let generated = ButtonGroupSpec::Generated(
        GeneratorSpec {
            kind: EnumerationKind::Games,
            action_kind: DomainActionKind::CreateFromPath,
            base_path: String::from_str("games"),
        },
    );
    let mut batch: Vec<Action> = Vec::new();
    batch.push(Action::ImportExternalContent);
    batch.push(Action::Rebuild);
    proof {
        crate::template::lemma_actions_model(batch@);
        assert(batch@[0].model() == ActionModel::ImportExternalContent);
        assert(batch@[1].model() == ActionModel::Rebuild);
        assert(crate::template::actions_model(batch@) =~= seq![
            ActionModel::ImportExternalContent,
            ActionModel::Rebuild,
        ]);
    }
    let mut buttons: Vec<ButtonSpec> = Vec::new();
    buttons.push(ButtonSpec { text: String::from_str("Back"), action: Action::Back });
    buttons.push(
        ButtonSpec { text: String::from_str("Import game"), action: Action::Batch(batch) },
    );
    proof {
        lemma_buttons_model(buttons@);
        assert(buttons@[0].model() == ButtonModel { text: "Back"@, action: ActionModel::Back });
        assert(buttons@[1].model() == new_world_model().groups[1]->Fixed_0[1]);
        assert(buttons_model(buttons@) =~= new_world_model().groups[1]->Fixed_0);
    }
    let mut groups: Vec<ButtonGroupSpec> = Vec::new();
    groups.push(generated);
    groups.push(ButtonGroupSpec::Fixed(buttons));
    proof {
        lemma_groups_model(groups@);
        assert(groups@[0].model() == new_world_model().groups[0]);
        assert(groups@[1].model() == new_world_model().groups[1]);
        assert(groups_model(groups@) =~= new_world_model().groups);
    }
    let t = MenuTemplate {
        title: TitleSpec { text: String::from_str("New world"), emphasis: TitleEmphasis::Secondary },
        groups,
    };
    proof {
        assert(t.model() =~= new_world_model());
    }
    t
}

/// The world-choosing menu.
pub fn choose_world_menu() -> (t: MenuTemplate)
    ensures
        t.model() == choose_world_model(),
{
    let generated = ButtonGroupSpec::Generated(
        GeneratorSpec {
            kind: EnumerationKind::Worlds,
            action_kind: DomainActionKind::OpenTarget,
            base_path: String::from_str("worlds"),
        },
    );
    let mut buttons: Vec<ButtonSpec> = Vec::new();
    buttons.push(ButtonSpec { text: String::from_str("Back"), action: Action::Back });
    buttons.push(
        ButtonSpec {
            text: String::from_str("New world"),
            action: Action::OpenMenu(new_world_menu()),
        },
    );
    proof {
        lemma_buttons_model(buttons@);
        assert(buttons@[0].model() == ButtonModel { text: "Back"@, action: ActionModel::Back });
        assert(buttons@[1].model() == choose_world_model().groups[1]->Fixed_0[1]);
        assert(buttons_model(buttons@) =~= choose_world_model().groups[1]->Fixed_0);
    }
    let mut groups: Vec<ButtonGroupSpec> = Vec::new();
    groups.push(generated);
    groups.push(ButtonGroupSpec::Fixed(buttons));
    proof {
        lemma_groups_model(groups@);
        assert(groups@[0].model() == choose_world_model().groups[0]);
        assert(groups@[1].model() == choose_world_model().groups[1]);
        assert(groups_model(groups@) =~= choose_world_model().groups);
    }
    let t = MenuTemplate {
        title: TitleSpec {
            text: String::from_str("Choose a world"),
            emphasis: TitleEmphasis::Secondary,
        },
        groups,
    };
    proof {
        assert(t.model() =~= choose_world_model());
    }
    t
}

/// The main menu the application enters the menu subsystem with.
pub fn main_menu_template() -> (t: MenuTemplate)
    ensures
        t.model() == main_menu_model(),
{
    let mut groups: Vec<ButtonGroupSpec> = Vec::new();
    groups.push(single_button_group("Play", Action::OpenMenu(choose_world_menu())));
    groups.push(single_button_group("Edit", Action::Back));
    groups.push(single_button_group("Quit", Action::Back));
    proof {
        lemma_groups_model(groups@);
        assert(groups@[0].model() == main_menu_model().groups[0]);
        assert(groups@[1].model() == main_menu_model().groups[1]);
        assert(groups@[2].model() == main_menu_model().groups[2]);
        assert(groups_model(groups@) =~= main_menu_model().groups);
    }
    let t = MenuTemplate {
        title: TitleSpec { text: String::from_str("voxmod"), emphasis: TitleEmphasis::Primary },
        groups,
    };
    proof {
        assert(t.model() =~= main_menu_model());
    }
    t
}

} // verus!
