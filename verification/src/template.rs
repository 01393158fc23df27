//! Declarative menu data model: actions, templates, and resolved screens.
//!
//! A `MenuTemplate` describes a screen as a title plus an ordered list of
//! button groups; a group is either a literal list of buttons or a generator
//! to be resolved against an enumeration source. An `Action` is the effect
//! bound to a button; it may embed a whole submenu template, so templates and
//! actions are mutually recursive trees.

use vstd::prelude::*;

verus! {

/// Display emphasis of a screen title; governs display size only.
#[derive(Debug, Clone, Copy, PartialEq, Eq)]
pub enum TitleEmphasis {
    Primary,
    Secondary,
}

/// Title of a screen.
#[derive(Debug, Clone, PartialEq, Eq)]
pub struct TitleSpec {
    pub text: String,
    pub emphasis: TitleEmphasis,
}

/// Which logical collection an enumeration source should list.
#[derive(Debug, Clone, Copy, PartialEq, Eq)]
pub enum EnumerationKind {
    Games,
    Worlds,
}

/// Which domain action a generated button carries for its discovered path.
#[derive(Debug, Clone, Copy, PartialEq, Eq)]
pub enum DomainActionKind {
    CreateFromPath,
    OpenTarget,
}

/// Description of a generated button group: what to enumerate, which domain
/// action to attach to each discovered item, and the base path to join with
/// each discovered name.
#[derive(Debug, Clone, PartialEq, Eq)]
pub struct GeneratorSpec {
    pub kind: EnumerationKind,
    pub action_kind: DomainActionKind,
    pub base_path: String,
}

/// Effect bound to a button. Immutable once bound to an element.
#[derive(Debug)]
pub enum Action {
    /// Descend into a submenu described by the embedded template.
    OpenMenu(MenuTemplate),
    /// Pop the current screen.
    Back,
    /// Signal a domain rebuild (opaque to this crate).
    Rebuild,
    /// Signal an import operation (opaque to this crate).
    ImportExternalContent,
    /// Domain action parameterized by a resolved path.
    CreateFromPath(String),
    /// Domain action to activate a resolved path and leave the menu.
    OpenTarget(String),
    /// Execute the contained actions in order.
    Batch(Vec<Action>),
}

/// A single button: its label and the action it triggers.
#[derive(Debug)]
pub struct ButtonSpec {
    pub text: String,
    pub action: Action,
}

/// One group of buttons in a template.
#[derive(Debug)]
pub enum ButtonGroupSpec {
    /// A literal row of buttons.
    Fixed(Vec<ButtonSpec>),
    /// One single-button row per item discovered by the enumeration source.
    Generated(GeneratorSpec),
}

/// Declarative, unresolved description of a screen.
#[derive(Debug)]
pub struct MenuTemplate {
    pub title: TitleSpec,
    pub groups: Vec<ButtonGroupSpec>,
}

/// Fully resolved, presentation-ready screen: a title and concrete rows of
/// buttons.
#[derive(Debug)]
pub struct Screen {
    pub title: TitleSpec,
    pub rows: Vec<Vec<ButtonSpec>>,
}

/// Mathematical model of a title.
#[verifier::ext_equal]
pub struct TitleModel {
    pub text: Seq<char>,
    pub emphasis: TitleEmphasis,
}

/// Mathematical model of a generator description.
#[verifier::ext_equal]
pub struct GeneratorModel {
    pub kind: EnumerationKind,
    pub action_kind: DomainActionKind,
    pub base_path: Seq<char>,
}

/// Mathematical model of an action.
#[verifier::ext_equal]
pub enum ActionModel {
    OpenMenu(TemplateModel),
    Back,
    Rebuild,
    ImportExternalContent,
    CreateFromPath(Seq<char>),
    OpenTarget(Seq<char>),
    Batch(Seq<ActionModel>),
}

/// Mathematical model of a button.
#[verifier::ext_equal]
pub struct ButtonModel {
    pub text: Seq<char>,
    pub action: ActionModel,
}

/// Mathematical model of a button group.
#[verifier::ext_equal]
pub enum GroupModel {
    Fixed(Seq<ButtonModel>),
    Generated(GeneratorModel),
}

/// Mathematical model of a template.
#[verifier::ext_equal]
pub struct TemplateModel {
    pub title: TitleModel,
    pub groups: Seq<GroupModel>,
}

/// Mathematical model of a resolved screen.
#[verifier::ext_equal]
pub struct ScreenModel {
    pub title: TitleModel,
    pub rows: Seq<Seq<ButtonModel>>,
}

impl TitleSpec {
    /// Model of this title.
    pub open spec fn model(self) -> TitleModel {
        TitleModel { text: self.text@, emphasis: self.emphasis }
    }
}

impl GeneratorSpec {
    /// Model of this generator description.
    pub open spec fn model(self) -> GeneratorModel {
        GeneratorModel {
            kind: self.kind,
            action_kind: self.action_kind,
            base_path: self.base_path@,
        }
    }
}

impl Action {
    /// Model of this action, deep through embedded templates.
    pub open spec fn model(self) -> ActionModel
        decreases self,
    {
        match self {
            Action::OpenMenu(t) => ActionModel::OpenMenu(t.model()),
            Action::Back => ActionModel::Back,
            Action::Rebuild => ActionModel::Rebuild,
            Action::ImportExternalContent => ActionModel::ImportExternalContent,
            Action::CreateFromPath(p) => ActionModel::CreateFromPath(p@),
            Action::OpenTarget(p) => ActionModel::OpenTarget(p@),
            Action::Batch(actions) => ActionModel::Batch(actions_model(actions@)),
        }
    }
}

/// Model of a sequence of actions, element by element.
pub open spec fn actions_model(actions: Seq<Action>) -> Seq<ActionModel>
    decreases actions,
{
    if actions.len() == 0 {
        Seq::empty()
    } else {
        actions_model(actions.drop_last()).push(actions.last().model())
    }
}

impl ButtonSpec {
    /// Model of this button.
    pub open spec fn model(self) -> ButtonModel
        decreases self,
    {
        ButtonModel { text: self.text@, action: self.action.model() }
    }
}

/// Model of a sequence of buttons, element by element.
pub open spec fn buttons_model(buttons: Seq<ButtonSpec>) -> Seq<ButtonModel>
    decreases buttons,
{
    if buttons.len() == 0 {
        Seq::empty()
    } else {
        buttons_model(buttons.drop_last()).push(buttons.last().model())
    }
}

impl ButtonGroupSpec {
    /// Model of this button group.
    pub open spec fn model(self) -> GroupModel
        decreases self,
    {
        match self {
            ButtonGroupSpec::Fixed(buttons) => GroupModel::Fixed(buttons_model(buttons@)),
            ButtonGroupSpec::Generated(g) => GroupModel::Generated(g.model()),
        }
    }
}

/// Model of a sequence of button groups, element by element.
pub open spec fn groups_model(groups: Seq<ButtonGroupSpec>) -> Seq<GroupModel>
    decreases groups,
{
    if groups.len() == 0 {
        Seq::empty()
    } else {
        groups_model(groups.drop_last()).push(groups.last().model())
    }
}

impl MenuTemplate {
    /// Model of this template, deep through all groups and buttons.
    pub open spec fn model(self) -> TemplateModel
        decreases self,
    {
        TemplateModel { title: self.title.model(), groups: groups_model(self.groups@) }
    }
}

/// Model of a sequence of button rows, element by element.
pub open spec fn rows_model(rows: Seq<Vec<ButtonSpec>>) -> Seq<Seq<ButtonModel>>
    decreases rows,
{
    if rows.len() == 0 {
        Seq::empty()
    } else {
        rows_model(rows.drop_last()).push(buttons_model(rows.last()@))
    }
}

impl Screen {
    /// Model of this screen, deep through all rows.
    pub open spec fn model(self) -> ScreenModel
        decreases self,
    {
        ScreenModel { title: self.title.model(), rows: rows_model(self.rows@) }
    }
}

/// The model of a sequence of actions has the same length and is the
/// element-wise model.
pub proof fn lemma_actions_model(actions: Seq<Action>)
    ensures
        actions_model(actions).len() == actions.len(),
        forall|i: int|
            0 <= i < actions.len() ==> actions_model(actions)[i] == #[trigger] actions[i].model(),
    decreases actions,
{
    if actions.len() > 0 {
        lemma_actions_model(actions.drop_last());
        assert forall|i: int| 0 <= i < actions.len() implies actions_model(actions)[i] == #[trigger] actions[i].model() by {
            if i < actions.len() - 1 {
                assert(actions.drop_last()[i] == actions[i]);
            } else {
                assert(actions.last() == actions[i]);
            }
        }
    }
}

/// The model of a sequence of buttons has the same length and is the
/// element-wise model.
pub proof fn lemma_buttons_model(buttons: Seq<ButtonSpec>)
    ensures
        buttons_model(buttons).len() == buttons.len(),
        forall|i: int|
            0 <= i < buttons.len() ==> buttons_model(buttons)[i] == #[trigger] buttons[i].model(),
    decreases buttons,
{
    if buttons.len() > 0 {
        lemma_buttons_model(buttons.drop_last());
        assert forall|i: int| 0 <= i < buttons.len() implies buttons_model(buttons)[i] == #[trigger] buttons[i].model() by {
            if i < buttons.len() - 1 {
                assert(buttons.drop_last()[i] == buttons[i]);
            } else {
                assert(buttons.last() == buttons[i]);
            }
        }
    }
}

/// The model of a sequence of groups has the same length and is the
/// element-wise model.
pub proof fn lemma_groups_model(groups: Seq<ButtonGroupSpec>)
    ensures
        groups_model(groups).len() == groups.len(),
        forall|i: int|
            0 <= i < groups.len() ==> groups_model(groups)[i] == #[trigger] groups[i].model(),
    decreases groups,
{
    if groups.len() > 0 {
        lemma_groups_model(groups.drop_last());
        assert forall|i: int| 0 <= i < groups.len() implies groups_model(groups)[i] == #[trigger] groups[i].model() by {
            if i < groups.len() - 1 {
                assert(groups.drop_last()[i] == groups[i]);
            } else {
                assert(groups.last() == groups[i]);
            }
        }
    }
}

/// Appending an action appends its model.
pub proof fn lemma_actions_model_push(actions: Seq<Action>, a: Action)
    ensures
        actions_model(actions.push(a)) == actions_model(actions).push(a.model()),
{
    assert(actions.push(a).drop_last() =~= actions);
}

/// Appending a button appends its model.
pub proof fn lemma_buttons_model_push(buttons: Seq<ButtonSpec>, b: ButtonSpec)
    ensures
        buttons_model(buttons.push(b)) == buttons_model(buttons).push(b.model()),
{
    assert(buttons.push(b).drop_last() =~= buttons);
}

/// Appending a group appends its model.
pub proof fn lemma_groups_model_push(groups: Seq<ButtonGroupSpec>, g: ButtonGroupSpec)
    ensures
        groups_model(groups.push(g)) == groups_model(groups).push(g.model()),
{
    assert(groups.push(g).drop_last() =~= groups);
}

/// Appending a row appends its model.
pub proof fn lemma_rows_model_push(rows: Seq<Vec<ButtonSpec>>, row: Vec<ButtonSpec>)
    ensures
        rows_model(rows.push(row)) == rows_model(rows).push(buttons_model(row@)),
{
    assert(rows.push(row).drop_last() =~= rows);
}

impl TitleSpec {
    /// A copy with the same model.
    pub fn duplicate(&self) -> (r: TitleSpec)
        ensures
            r.model() == self.model(),
    {
        TitleSpec { text: self.text.clone(), emphasis: self.emphasis }
    }
}

impl Action {
    /// A deep copy: embedded templates and batches are copied recursively,
    /// so the copy's model is the original's.
    pub fn duplicate(&self) -> (r: Action)
        ensures
            r.model() == self.model(),
        decreases self,
    {
        match self {
            Action::OpenMenu(t) => Action::OpenMenu(t.duplicate()),
            Action::Back => Action::Back,
            Action::Rebuild => Action::Rebuild,
            Action::ImportExternalContent => Action::ImportExternalContent,
            Action::CreateFromPath(p) => Action::CreateFromPath(p.clone()),
            Action::OpenTarget(p) => Action::OpenTarget(p.clone()),
            Action::Batch(actions) => Action::Batch(duplicate_actions(actions)),
        }
    }
}

/// An element-wise deep copy of a sequence of actions.
fn duplicate_actions(actions: &Vec<Action>) -> (r: Vec<Action>)
    ensures
        actions_model(r@) == actions_model(actions@),
    decreases actions,
{
    let mut r: Vec<Action> = Vec::new();
    let n = actions.len();
    let mut i: usize = 0;
    while i < n
        invariant
            n == actions@.len(),
            i <= n,
            actions_model(r@) == actions_model(actions@.subrange(0, i as int)),
        decreases n - i,
    {
        let ghost r_before = r@;
        proof {
            assert(decreases_to!(actions => actions@[i as int]));
        }
        r.push(actions[i].duplicate());
        proof {
            lemma_actions_model_push(r_before, r@.last());
            lemma_actions_model_push(actions@.subrange(0, i as int), actions@[i as int]);
            assert(actions@.subrange(0, i as int).push(actions@[i as int]) =~= actions@.subrange(
                0,
                i + 1,
            ));
        }
        i = i + 1;
    }
    proof {
        assert(actions@.subrange(0, n as int) =~= actions@);
    }
    r
}

impl ButtonSpec {
    /// A deep copy with the same model.
    pub fn duplicate(&self) -> (r: ButtonSpec)
        ensures
            r.model() == self.model(),
        decreases self,
    {
        ButtonSpec { text: self.text.clone(), action: self.action.duplicate() }
    }
}

/// An element-wise deep copy of a sequence of buttons.
fn duplicate_buttons(buttons: &Vec<ButtonSpec>) -> (r: Vec<ButtonSpec>)
    ensures
        buttons_model(r@) == buttons_model(buttons@),
    decreases buttons,
{
    let mut r: Vec<ButtonSpec> = Vec::new();
    let n = buttons.len();
    let mut i: usize = 0;
    while i < n
        invariant
            n == buttons@.len(),
            i <= n,
            buttons_model(r@) == buttons_model(buttons@.subrange(0, i as int)),
        decreases n - i,
    {
        let ghost r_before = r@;
        proof {
            assert(decreases_to!(buttons => buttons@[i as int]));
        }
        r.push(buttons[i].duplicate());
        proof {
            lemma_buttons_model_push(r_before, r@.last());
            lemma_buttons_model_push(buttons@.subrange(0, i as int), buttons@[i as int]);
            assert(buttons@.subrange(0, i as int).push(buttons@[i as int]) =~= buttons@.subrange(
                0,
                i + 1,
            ));
        }
        i = i + 1;
    }
    proof {
        assert(buttons@.subrange(0, n as int) =~= buttons@);
    }
    r
}

impl ButtonGroupSpec {
    /// A deep copy with the same model.
    pub fn duplicate(&self) -> (r: ButtonGroupSpec)
        ensures
            r.model() == self.model(),
        decreases self,
    {
        match self {
            ButtonGroupSpec::Fixed(buttons) => ButtonGroupSpec::Fixed(duplicate_buttons(buttons)),
            ButtonGroupSpec::Generated(g) => ButtonGroupSpec::Generated(
                GeneratorSpec {
                    kind: g.kind,
                    action_kind: g.action_kind,
                    base_path: g.base_path.clone(),
                },
            ),
        }
    }
}

impl MenuTemplate {
    /// A deep copy with the same model.
    pub fn duplicate(&self) -> (r: MenuTemplate)
        ensures
            r.model() == self.model(),
        decreases self,
    {
        let mut groups: Vec<ButtonGroupSpec> = Vec::new();
        let n = self.groups.len();
        let mut i: usize = 0;
        while i < n
            invariant
                n == self.groups@.len(),
                i <= n,
                groups_model(groups@) == groups_model(self.groups@.subrange(0, i as int)),
            decreases n - i,
        {
            let ghost g_before = groups@;
            proof {
                assert(decreases_to!(self => self.groups@[i as int]));
            }
            groups.push(self.groups[i].duplicate());
            proof {
                lemma_groups_model_push(g_before, groups@.last());
                lemma_groups_model_push(self.groups@.subrange(0, i as int), self.groups@[i as int]);
                assert(self.groups@.subrange(0, i as int).push(self.groups@[i as int])
                    =~= self.groups@.subrange(0, i + 1));
            }
            i = i + 1;
        }
        proof {
            assert(self.groups@.subrange(0, n as int) =~= self.groups@);
        }
        MenuTemplate { title: self.title.duplicate(), groups }
    }
}

} // verus!
