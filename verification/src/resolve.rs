//! Template resolution: turning a `MenuTemplate` into a concrete `Screen`
//! against an enumeration source.
//!
//! A `Fixed` group yields exactly one row holding its buttons; a `Generated`
//! group asks the enumeration source for the items of its kind and yields one
//! single-button row per discovered item, or zero rows when the listing is
//! unavailable. Listing failure is absorbed, never propagated: a missing
//! directory is a normal, recoverable condition.

use vstd::prelude::*;
use vstd::string::StringExecFns;

use crate::template::Action;
use crate::template::ActionModel;
use crate::template::ButtonModel;
use crate::template::ButtonSpec;
use crate::template::ButtonGroupSpec;
use crate::template::DomainActionKind;
use crate::template::EnumerationKind;
use crate::template::GeneratorModel;
use crate::template::GeneratorSpec;
use crate::template::GroupModel;
use crate::template::MenuTemplate;
use crate::template::Screen;
use crate::template::buttons_model;
use crate::template::groups_model;
use crate::template::lemma_buttons_model;
use crate::template::rows_model;

verus! {

/// Error of an enumeration source whose listing cannot be performed, for
/// example because the directory is absent.
#[derive(Debug, Clone, Copy, PartialEq, Eq)]
pub struct EnumerationUnavailable;

/// An item discovered by an enumeration source: its display name and the
/// path the source found it under.
#[derive(Debug, Clone, PartialEq, Eq)]
pub struct DiscoveredItem {
    pub name: String,
    pub path: String,
}

/// Mathematical model of a discovered item.
#[verifier::ext_equal]
pub struct ItemModel {
    pub name: Seq<char>,
    pub path: Seq<char>,
}

impl DiscoveredItem {
    /// Model of this item.
    pub open spec fn model(self) -> ItemModel {
        ItemModel { name: self.name@, path: self.path@ }
    }
}

/// Model of a sequence of discovered items, element by element.
pub open spec fn items_model(items: Seq<DiscoveredItem>) -> Seq<ItemModel>
    decreases items,
{
    if items.len() == 0 {
        Seq::empty()
    } else {
        items_model(items.drop_last()).push(items.last().model())
    }
}


/// Model of what an enumeration source would list right now, per kind.
/// `None` stands for a listing that fails with `EnumerationUnavailable`.
#[verifier::ext_equal]
pub struct ListingModel {
    pub games: Option<Seq<ItemModel>>,
    pub worlds: Option<Seq<ItemModel>>,
}

impl ListingModel {
    /// The listing for one enumeration kind.
    pub open spec fn get(self, kind: EnumerationKind) -> Option<Seq<ItemModel>> {
        match kind {
            EnumerationKind::Games => self.games,
            EnumerationKind::Worlds => self.worlds,
        }
    }
}

/// An enumeration source holding a snapshot of what each kind lists. The
/// caller that owns the surrounding I/O fills it; resolution only reads it.
/// The number of listing calls made against the source is tracked so that
/// contracts can state when the source is consulted at all.
pub struct EnumerationSource {
    games: Option<Vec<DiscoveredItem>>,
    worlds: Option<Vec<DiscoveredItem>>,
    calls: Ghost<nat>,
}

/// Model of one stored listing.
pub open spec fn stored_listing(stored: Option<Vec<DiscoveredItem>>) -> Option<Seq<ItemModel>> {
    match stored {
        Option::None => Option::None,
        Option::Some(items) => Option::Some(items_model(items@)),
    }
}

impl EnumerationSource {
    /// What this source lists, per kind.
    pub closed spec fn listing(self) -> ListingModel {
        ListingModel {
            games: stored_listing(self.games),
            worlds: stored_listing(self.worlds),
        }
    }

    /// How many times `list` has been called on this source.
    pub closed spec fn calls(self) -> nat {
        self.calls@
    }

    /// A source from one snapshot per kind; `None` marks a kind whose
    /// listing fails.
    pub fn new(games: Option<Vec<DiscoveredItem>>, worlds: Option<Vec<DiscoveredItem>>) -> (s:
        Self)
        ensures
            s.listing() == (ListingModel {
                games: stored_listing(games),
                worlds: stored_listing(worlds),
            }),
            s.calls() == 0,
    {
        EnumerationSource { games, worlds, calls: Ghost(0) }
    }

    /// List the items of one kind, or fail with `EnumerationUnavailable`.
    /// Succeeds exactly when the snapshot holds a listing for the kind.
    pub fn list(&mut self, kind: EnumerationKind) -> (r: Result<
        Vec<DiscoveredItem>,
        EnumerationUnavailable,
    >)
        ensures
            final(self).listing() == old(self).listing(),
            final(self).calls() == old(self).calls() + 1,
            match r {
                Result::Ok(items) => old(self).listing().get(kind) == Option::Some(
                    items_model(items@),
                ),
                Result::Err(_) => old(self).listing().get(kind) is None,
            },
    {
        proof {
            self.calls@ = self.calls@ + 1;
        }
        let stored: &Option<Vec<DiscoveredItem>> = match kind {
            EnumerationKind::Games => &self.games,
            EnumerationKind::Worlds => &self.worlds,
        };
        match stored {
            Option::None => Result::Err(EnumerationUnavailable),
            Option::Some(items) => Result::Ok(copy_items(items)),
        }
    }
}

/// An element-wise copy of a vector of discovered items.
fn copy_items(items: &Vec<DiscoveredItem>) -> (r: Vec<DiscoveredItem>)
    ensures
        r@ == items@,
{
    let mut r: Vec<DiscoveredItem> = Vec::new();
    let n = items.len();
    for i in 0..n
        invariant
            n == items@.len(),
            r@ == items@.subrange(0, i as int),
    {
        let item = DiscoveredItem { name: items[i].name.clone(), path: items[i].path.clone() };
        assert(item == items@[i as int]);
        r.push(item);
        assert(r@ =~= items@.subrange(0, i + 1));
    }
    assert(r@ =~= items@);
    r
}

/// The path a discovered name resolves to: the base path, a separator, and
/// the name; just the name when the base path is empty.
pub open spec fn joined_path(base: Seq<char>, name: Seq<char>) -> Seq<char> {
    if base.len() == 0 {
        name
    } else {
        base + seq!['/'] + name
    }
}

/// Join a base path with a discovered name.
pub fn join_path(base: &String, name: &String) -> (r: String)
    ensures
        r@ == joined_path(base@, name@),
{
    if base.as_str().is_empty() {
        name.clone()
    } else {
        let mut r = base.clone();
        r.append("/");
        r.append(name.as_str());
        proof {
            reveal_strlit("/");
            assert(r@ =~= joined_path(base@, name@));
        }
        r
    }
}

/// The domain action of the given kind carrying the given path.
pub open spec fn domain_action_model(kind: DomainActionKind, path: Seq<char>) -> ActionModel {
    match kind {
        DomainActionKind::CreateFromPath => ActionModel::CreateFromPath(path),
        DomainActionKind::OpenTarget => ActionModel::OpenTarget(path),
    }
}

impl DomainActionKind {
    /// The directory conventionally enumerated for this action kind.
    pub fn assets_path(&self) -> (r: String)
        ensures
            r@ == match *self {
                DomainActionKind::CreateFromPath => "games"@,
                DomainActionKind::OpenTarget => "worlds"@,
            },
    {
        match self {
            DomainActionKind::CreateFromPath => String::from_str("games"),
            DomainActionKind::OpenTarget => String::from_str("worlds"),
        }
    }

    /// The action of this kind attached to a resolved path.
    pub fn action(&self, path: String) -> (a: Action)
        ensures
            a.model() == domain_action_model(*self, path@),
    {
        match self {
            DomainActionKind::CreateFromPath => Action::CreateFromPath(path),
            DomainActionKind::OpenTarget => Action::OpenTarget(path),
        }
    }
}

/// The rows a generated group contributes for the discovered items: one
/// single-button row per item, the button text the item's name, its action
/// the group's domain action applied to the base path joined with the name.
pub open spec fn generated_rows(g: GeneratorModel, items: Seq<ItemModel>) -> Seq<Seq<ButtonModel>>
    decreases items,
{
    if items.len() == 0 {
        Seq::empty()
    } else {
        generated_rows(g, items.drop_last()).push(
            seq![
                ButtonModel {
                    text: items.last().name,
                    action: domain_action_model(
                        g.action_kind,
                        joined_path(g.base_path, items.last().name),
                    ),
                },
            ],
        )
    }
}

/// The rows one group contributes to a resolved screen.
pub open spec fn group_rows(g: GroupModel, listing: ListingModel) -> Seq<Seq<ButtonModel>> {
    match g {
        GroupModel::Fixed(buttons) => seq![buttons],
        GroupModel::Generated(gen) => match listing.get(gen.kind) {
            Option::None => Seq::empty(),
            Option::Some(items) => generated_rows(gen, items),
        },
    }
}

/// The rows of a resolved screen: each group's rows, in template order.
pub open spec fn resolved_rows(groups: Seq<GroupModel>, listing: ListingModel) -> Seq<
    Seq<ButtonModel>,
>
    decreases groups,
{
    if groups.len() == 0 {
        Seq::empty()
    } else {
        resolved_rows(groups.drop_last(), listing) + group_rows(groups.last(), listing)
    }
}

/// How many groups of a template are generated, and hence how often the
/// enumeration source is consulted during resolution.
pub open spec fn generated_count(groups: Seq<GroupModel>) -> nat
    decreases groups,
{
    if groups.len() == 0 {
        0
    } else {
        generated_count(groups.drop_last()) + match groups.last() {
            GroupModel::Fixed(_) => 0nat,
            GroupModel::Generated(_) => 1nat,
        }
    }
}

/// Appending an item appends its model.
pub proof fn lemma_items_model_push(items: Seq<DiscoveredItem>, it: DiscoveredItem)
    ensures
        items_model(items.push(it)) == items_model(items).push(it.model()),
{
    assert(items.push(it).drop_last() =~= items);
}

/// Resolving one more group appends that group's rows.
pub proof fn lemma_resolved_rows_push(groups: Seq<GroupModel>, g: GroupModel, listing: ListingModel)
    ensures
        resolved_rows(groups.push(g), listing) == resolved_rows(groups, listing) + group_rows(
            g,
            listing,
        ),
{
    assert(groups.push(g).drop_last() =~= groups);
}

/// One more group adds its own enumeration calls.
pub proof fn lemma_generated_count_push(groups: Seq<GroupModel>, g: GroupModel)
    ensures
        generated_count(groups.push(g)) == generated_count(groups) + match g {
            GroupModel::Fixed(_) => 0nat,
            GroupModel::Generated(_) => 1nat,
        },
{
    assert(groups.push(g).drop_last() =~= groups);
}

/// One more discovered item appends its single-button row.
pub proof fn lemma_generated_rows_push(g: GeneratorModel, items: Seq<ItemModel>, it: ItemModel)
    ensures
        generated_rows(g, items.push(it)) == generated_rows(g, items).push(
            seq![
                ButtonModel {
                    text: it.name,
                    action: domain_action_model(g.action_kind, joined_path(g.base_path, it.name)),
                },
            ],
        ),
{
    assert(items.push(it).drop_last() =~= items);
}

/// Resolve a template into a concrete screen against an enumeration source.
///
/// The screen keeps the template's title; its rows are each group's rows in
/// template order. The source is consulted exactly once per generated group
/// and never for a fixed group; a failed listing contributes zero rows and
/// never an error.
pub fn resolve(t: MenuTemplate, source: &mut EnumerationSource) -> (s: Screen)
    ensures
        s.model().title == t.model().title,
        s.model().rows == resolved_rows(t.model().groups, old(source).listing()),
        final(source).listing() == old(source).listing(),
        final(source).calls() == old(source).calls() + generated_count(t.model().groups),
{
    let MenuTemplate { title, groups } = t;
    let mut groups = groups;
    let ghost all_groups = groups@;
    let ghost listing = source.listing();
    let mut rows: Vec<Vec<ButtonSpec>> = Vec::new();
    let ghost done: Seq<ButtonGroupSpec> = Seq::empty();
    while groups.len() > 0
        invariant
            done + groups@ == all_groups,
            rows_model(rows@) == resolved_rows(groups_model(done), source.listing()),
            source.listing() == listing,
            source.calls() == old(source).calls() + generated_count(groups_model(done)),
        decreases groups@.len(),
    {
        let g = groups.remove(0);
        let ghost rows_before = rows@;
        proof {
            assert(done.push(g) + groups@ =~= all_groups);
            crate::template::lemma_groups_model_push(done, g);
            lemma_resolved_rows_push(groups_model(done), g.model(), listing);
            lemma_generated_count_push(groups_model(done), g.model());
        }
        match g {
            ButtonGroupSpec::Fixed(buttons) => {
                rows.push(buttons);
                proof {
                    crate::template::lemma_rows_model_push(rows_before, buttons);
                    assert(rows_model(rows@) =~= rows_model(rows_before) + group_rows(
                        g.model(),
                        listing,
                    ));
                }
            },
            ButtonGroupSpec::Generated(gen) => {
                match source.list(gen.kind) {
                    Result::Err(_) => {
                        proof {
                            assert(group_rows(g.model(), listing) =~= Seq::<Seq<ButtonModel>>::empty());
                            assert(rows_model(rows@) =~= rows_model(rows_before) + group_rows(
                                g.model(),
                                listing,
                            ));
                        }
                    },
                    Result::Ok(items) => {
                        append_generated_rows(&mut rows, &gen, items);
                    },
                }
            },
        }
        proof {
            done = done.push(g);
        }
    }
    proof {
        assert(done =~= all_groups);
    }
    Screen { title, rows }
}

/// Append one single-button row per discovered item to the rows built so
/// far.
fn append_generated_rows(
    rows: &mut Vec<Vec<ButtonSpec>>,
    gen: &GeneratorSpec,
    items: Vec<DiscoveredItem>,
)
    ensures
        rows_model(final(rows)@) == rows_model(old(rows)@) + generated_rows(
            gen.model(),
            items_model(items@),
        ),
{
    let mut items = items;
    let ghost all_items = items@;
    let ghost done: Seq<DiscoveredItem> = Seq::empty();
    while items.len() > 0
        invariant
            done + items@ == all_items,
            rows_model(rows@) == rows_model(old(rows)@) + generated_rows(
                gen.model(),
                items_model(done),
            ),
        decreases items@.len(),
    {
        let item = items.remove(0);
        let ghost rows_before = rows@;
        proof {
            assert(done.push(item) + items@ =~= all_items);
            lemma_items_model_push(done, item);
            lemma_generated_rows_push(gen.model(), items_model(done), item.model());
        }
        let text = item.name.clone();
        let path = join_path(&gen.base_path, &item.name);
        let action = gen.action_kind.action(path);
        let mut row: Vec<ButtonSpec> = Vec::new();
        row.push(ButtonSpec { text, action });
        rows.push(row);
        proof {
            crate::template::lemma_rows_model_push(rows_before, row);
            lemma_buttons_model(row@);
            assert(row@.len() == 1);
            assert(buttons_model(row@)[0] == row@[0].model());
            assert(row@[0].model() == ButtonModel {
                text: item.name@,
                action: domain_action_model(
                    gen.model().action_kind,
                    joined_path(gen.model().base_path, item.name@),
                ),
            });
            assert(buttons_model(row@) =~= seq![
                ButtonModel {
                    text: item.name@,
                    action: domain_action_model(
                        gen.model().action_kind,
                        joined_path(gen.model().base_path, item.name@),
                    ),
                },
            ]);
            done = done.push(item);
            assert(rows_model(rows@) =~= rows_model(old(rows)@) + generated_rows(
                gen.model(),
                items_model(done),
            ));
        }
    }
    proof {
        assert(done =~= all_items);
    }
}

/// Whether every group is fixed.
pub open spec fn fixed_only(groups: Seq<GroupModel>) -> bool {
    forall|i: int| 0 <= i < groups.len() ==> (#[trigger] groups[i]) is Fixed
}

/// The rows that mirror a sequence of fixed groups: one row per group,
/// holding that group's buttons in order.
pub open spec fn fixed_rows(groups: Seq<GroupModel>) -> Seq<Seq<ButtonModel>>
    decreases groups,
{
    if groups.len() == 0 {
        Seq::empty()
    } else {
        fixed_rows(groups.drop_last()).push(groups.last()->Fixed_0)
    }
}

/// A template with only fixed groups resolves to rows that mirror its
/// groups and buttons exactly, whatever any enumeration source would list,
/// and the source is never consulted: no group asks for an enumeration.
pub proof fn lemma_fixed_only_resolution(groups: Seq<GroupModel>, listing: ListingModel)
    requires
        fixed_only(groups),
    ensures
        resolved_rows(groups, listing) == fixed_rows(groups),
        generated_count(groups) == 0,
    decreases groups,
{
    if groups.len() > 0 {
        assert forall|i: int| 0 <= i < groups.drop_last().len() implies (#[trigger] groups.drop_last()[i]) is Fixed by {
            assert(groups.drop_last()[i] == groups[i]);
        }
        lemma_fixed_only_resolution(groups.drop_last(), listing);
        assert(groups.last() is Fixed);
        assert(resolved_rows(groups, listing) =~= fixed_rows(groups));
    }
}

/// Splitting a group sequence splits its resolved rows.
pub proof fn lemma_resolved_rows_concat(
    g1: Seq<GroupModel>,
    g2: Seq<GroupModel>,
    listing: ListingModel,
)
    ensures
        resolved_rows(g1 + g2, listing) == resolved_rows(g1, listing) + resolved_rows(g2, listing),
    decreases g2,
{
    if g2.len() == 0 {
        assert(g1 + g2 =~= g1);
        assert(resolved_rows(g2, listing) =~= Seq::<Seq<ButtonModel>>::empty());
        assert(resolved_rows(g1 + g2, listing) =~= resolved_rows(g1, listing) + resolved_rows(
            g2,
            listing,
        ));
    } else {
        lemma_resolved_rows_concat(g1, g2.drop_last(), listing);
        assert((g1 + g2).drop_last() =~= g1 + g2.drop_last());
        assert((g1 + g2).last() == g2.last());
        assert(resolved_rows(g1 + g2, listing) =~= resolved_rows(g1, listing) + resolved_rows(
            g2,
            listing,
        ));
    }
}

/// A generated group whose listing is unavailable contributes zero rows,
/// while resolution still succeeds and every sibling group contributes
/// exactly the rows it would contribute on its own.
pub proof fn lemma_unavailable_generated_group(
    groups: Seq<GroupModel>,
    listing: ListingModel,
    i: int,
)
    requires
        0 <= i < groups.len(),
        groups[i] matches GroupModel::Generated(g) && listing.get(g.kind) is None,
    ensures
        group_rows(groups[i], listing) == Seq::<Seq<ButtonModel>>::empty(),
        resolved_rows(groups, listing) == resolved_rows(groups.subrange(0, i), listing)
            + resolved_rows(groups.subrange(i + 1, groups.len() as int), listing),
{
    let pre = groups.subrange(0, i);
    let mid = seq![groups[i]];
    let post = groups.subrange(i + 1, groups.len() as int);
    assert(groups =~= (pre + mid) + post);
    lemma_resolved_rows_concat(pre + mid, post, listing);
    lemma_resolved_rows_concat(pre, mid, listing);
    assert(mid.drop_last() =~= Seq::<GroupModel>::empty());
    assert(resolved_rows(Seq::<GroupModel>::empty(), listing) == Seq::<Seq<ButtonModel>>::empty());
    assert(group_rows(mid.last(), listing) =~= Seq::<Seq<ButtonModel>>::empty());
    assert(resolved_rows(mid, listing) =~= Seq::<Seq<ButtonModel>>::empty());
    assert(resolved_rows(pre + mid, listing) =~= resolved_rows(pre, listing));
}

} // verus!
