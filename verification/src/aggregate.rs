//! Rebuilds the nested view (configuration, its groups, their environment
//! variables) from the flat rows that the store's joins return.
//!
//! Every relation is read once. Groups and environments are found through an
//! index of identifiers, so the work is linear in the number of rows.

use crate::models::{
    Configuration, ConfigurationView, Environment, EnvironmentView, Executable, ExecutableView,
    GroupConfigLink, GroupEnvsLink, GroupedEnvironment, GroupedEnvironmentView,
    LinkedConfiguration, LinkedConfigurationView, LinkedGroups, LinkedGroupsView,
};
use crate::index::IdIndex;
use crate::seqs::{distinct, lemma_push_contains};
use vstd::prelude::*;

verus! {

/// A configuration joined to the executable that it references; `None`
/// where no such executable exists.
pub type ConfigurationRow = (Configuration, Option<Executable>);

/// A group-to-configuration link joined to its group; `None` where the group
/// row no longer exists.
pub type GroupLinkRow = (GroupConfigLink, Option<GroupedEnvironment>);

/// A group-to-environment link joined to its environment; `None` where the
/// environment row no longer exists.
pub type EnvLinkRow = (GroupEnvsLink, Option<Environment>);

/// A configuration with the groups that its links name.
pub type GroupedConfiguration = (Configuration, Vec<GroupedEnvironment>);

pub type ConfigurationRowView = (ConfigurationView, Option<ExecutableView>);

pub type GroupLinkRowView = (GroupConfigLink, Option<GroupedEnvironmentView>);

pub type EnvLinkRowView = (GroupEnvsLink, Option<EnvironmentView>);

pub type GroupedConfigurationView = (ConfigurationView, Seq<GroupedEnvironmentView>);

/// A link row, seen from the side that owns it: a configuration owns its
/// group links, a group owns its environment links.
pub trait OwnedLink: Sized {
    /// The identifier of the owner.
    spec fn owner_id(&self) -> i32;

    /// The identifier of the owner.
    fn owner(&self) -> (r: i32)
        ensures
            r == self.owner_id(),
    ;
}

impl OwnedLink for GroupConfigLink {
    open spec fn owner_id(&self) -> i32 {
        self.config_id
    }

    fn owner(&self) -> (r: i32) {
        self.config_id
    }
}

impl OwnedLink for GroupEnvsLink {
    open spec fn owner_id(&self) -> i32 {
        self.group_id
    }

    fn owner(&self) -> (r: i32) {
        self.group_id
    }
}

/// What a joined link row gives the owner `owner`: the row at the far end of
/// the link where the link names the owner and that row still exists, and
/// nothing otherwise.
pub open spec fn owned_by<L: OwnedLink, V>(owner: i32) -> spec_fn((L, Option<V>)) -> Option<V> {
    |row: (L, Option<V>)|
        if row.0.owner_id() == owner {
            row.1
        } else {
            None
        }
}

/// The members of `owner`: what the rows give it, in row order.
pub open spec fn members_of<L: OwnedLink, V>(rows: Seq<(L, Option<V>)>, owner: i32) -> Seq<V> {
    rows.filter_map(owned_by(owner))
}

/// The groups of configuration `config_id`: those of the link rows that name
/// it and whose group still exists, in row order. A link whose group is gone
/// contributes nothing.
pub open spec fn groups_of(links: Seq<GroupLinkRowView>, config_id: i32) -> Seq<
    GroupedEnvironmentView,
> {
    members_of(links, config_id)
}

/// The environment variables of group `group_id`: those of the link rows that
/// name it and whose environment still exists, in row order.
pub open spec fn environments_of(env_links: Seq<EnvLinkRowView>, group_id: i32) -> Seq<
    EnvironmentView,
> {
    members_of(env_links, group_id)
}

/// A group with the environment variables that `env_links` gives it.
pub open spec fn linked_group(
    group: GroupedEnvironmentView,
    env_links: Seq<EnvLinkRowView>,
) -> LinkedGroupsView {
    LinkedGroupsView { group, environments: environments_of(env_links, group.id) }
}

/// Each configuration paired with its groups.
pub open spec fn grouped(cfgs: Seq<ConfigurationView>, links: Seq<GroupLinkRowView>) -> Seq<
    GroupedConfigurationView,
> {
    cfgs.map_values(|c: ConfigurationView| (c, groups_of(links, c.id)))
}

/// The nested view of one configuration whose groups are known.
pub open spec fn linked_configuration(
    entry: GroupedConfigurationView,
    env_links: Seq<EnvLinkRowView>,
) -> LinkedConfigurationView {
    LinkedConfigurationView {
        configuration: entry.0,
        groups: entry.1.map_values(|g: GroupedEnvironmentView| linked_group(g, env_links)),
    }
}

/// The nested view of every configuration whose groups are known.
pub open spec fn assembled(
    entries: Seq<GroupedConfigurationView>,
    env_links: Seq<EnvLinkRowView>,
) -> Seq<LinkedConfigurationView> {
    entries.map_values(|e: GroupedConfigurationView| linked_configuration(e, env_links))
}

/// The aggregate of a set of root configurations: one entry per
/// configuration, in order, each with its groups and their environments.
pub open spec fn aggregate(
    cfgs: Seq<ConfigurationView>,
    links: Seq<GroupLinkRowView>,
    env_links: Seq<EnvLinkRowView>,
) -> Seq<LinkedConfigurationView> {
    assembled(grouped(cfgs, links), env_links)
}

/// Whether a joined row pairs the configuration with the executable that it
/// references.
pub open spec fn sound(row: ConfigurationRowView) -> bool {
    row.1 matches Some(executable) && executable.id == row.0.executable_id
}

/// The place of the first row of `rows[from..]` that is not sound, if any.
pub open spec fn first_unsound(rows: Seq<ConfigurationRowView>, from: int) -> Option<int>
    decreases rows.len() - from,
{
    if from < 0 || from >= rows.len() {
        None
    } else if !sound(rows[from]) {
        Some(from)
    } else {
        first_unsound(rows, from + 1)
    }
}

/// A configuration references an executable that does not exist, or came
/// joined to another one: the store is corrupt.
#[derive(Clone, Copy, PartialEq, Eq, Structural, Debug)]
pub struct IntegrityError {
    /// The configuration of the offending row.
    pub configuration: i32,
    /// The executable that it references.
    pub executable_id: i32,
    /// The executable that it came with, if any.
    pub found: Option<i32>,
}

/// The identifier of the executable of a joined row, if it has one.
pub open spec fn found_executable(row: ConfigurationRowView) -> Option<i32> {
    match row.1 {
        Some(executable) => Some(executable.id),
        None => None,
    }
}

/// What the first unsound row of `rows` is reported as, if there is one.
pub open spec fn integrity(rows: Seq<ConfigurationRowView>) -> Option<IntegrityError> {
    match first_unsound(rows, 0) {
        Some(k) => Some(
            IntegrityError {
                configuration: rows[k].0.id,
                executable_id: rows[k].0.executable_id,
                found: found_executable(rows[k]),
            },
        ),
        None => None,
    }
}

/// The identifier of every group of every entry, entry by entry, with
/// repetitions.
pub open spec fn group_ids(entries: Seq<GroupedConfigurationView>) -> Seq<i32> {
    entries.map_values(|e: GroupedConfigurationView| entry_group_ids(e)).flatten()
}

/// The identifiers of the groups of one entry, in order.
pub open spec fn entry_group_ids(entry: GroupedConfigurationView) -> Seq<i32> {
    entry.1.map_values(|g: GroupedEnvironmentView| g.id)
}

/// The identifiers up to and including entry `i` are those before it followed
/// by its own.
proof fn lemma_group_ids_step(entries: Seq<GroupedConfigurationView>, i: int)
    requires
        0 <= i < entries.len(),
    ensures
        group_ids(entries.take(i + 1)) == group_ids(entries.take(i)) + entry_group_ids(entries[i]),
{
    let f = |e: GroupedConfigurationView| entry_group_ids(e);
    assert(entries.take(i + 1).map_values(f) =~= entries.take(i).map_values(f).push(
        entry_group_ids(entries[i]),
    ));
    entries.take(i).map_values(f).lemma_flatten_push(entry_group_ids(entries[i]));
}

/// One more row gives the owner that it names one more member, where the
/// member still exists, and changes nothing for the others.
proof fn lemma_members_step<L: OwnedLink, V>(rows: Seq<(L, Option<V>)>, k: int, owner: i32)
    requires
        0 <= k < rows.len(),
    ensures
        members_of(rows.take(k + 1), owner) == if rows[k].0.owner_id() == owner && rows[k].1 is Some {
            members_of(rows.take(k), owner).push(rows[k].1->0)
        } else {
            members_of(rows.take(k), owner)
        },
{
    rows.lemma_filter_map_take_succ(owned_by::<L, V>(owner), k);
}

/// Joined link rows with the far end of each link as its view.
spec fn row_views<L, T: DeepView>(rows: Seq<(L, Option<T>)>) -> Seq<(L, Option<T::V>)> {
    rows.map_values(|row: (L, Option<T>)| (row.0, row.1.deep_view()))
}

/// Hands each row to the owner that it names: one list of members for each
/// indexed owner, in row order. Rows of owners that are not indexed, and
/// rows whose member is gone, are dropped.
fn members_by_owner<L: OwnedLink, T: Clone + DeepView>(
    index: &IdIndex,
    rows: &Vec<(L, Option<T>)>,
) -> (buckets: Vec<Vec<T>>)
    requires
        index.wf(),
        forall|a: T, b: T| cloned::<T>(a, b) ==> a.deep_view() == b.deep_view(),
    ensures
        buckets.len() == index.ids.len(),
        forall|j: int|
            0 <= j < buckets.len() ==> (#[trigger] buckets[j]).deep_view() == members_of(
                row_views(rows@),
                index.ids@[j],
            ),
{
    let ghost views = row_views(rows@);
    let mut buckets: Vec<Vec<T>> = Vec::new();
    let mut b: usize = 0;
    while b < index.ids.len()
        invariant
            b <= index.ids.len(),
            buckets.len() == b,
            forall|j: int| 0 <= j < b ==> (#[trigger] buckets[j]).deep_view() == Seq::<T::V>::empty(),
        decreases index.ids.len() - b,
    {
        let empty: Vec<T> = Vec::new();
        buckets.push(empty);
        b += 1;
    }
    let mut k: usize = 0;
    while k < rows.len()
        invariant
            k <= rows.len(),
            index.wf(),
            forall|a: T, b: T| cloned::<T>(a, b) ==> a.deep_view() == b.deep_view(),
            views == row_views(rows@),
            buckets.len() == index.ids.len(),
            forall|j: int|
                0 <= j < buckets.len() ==> (#[trigger] buckets[j]).deep_view() == members_of(
                    views.take(k as int),
                    index.ids@[j],
                ),
        decreases rows.len() - k,
    {
        match &rows[k].1 {
            Some(member) => {
                match index.find(rows[k].0.owner()) {
                    Some(place) => {
                        let copy = member.clone();
                        assert(cloned::<T>(*member, copy));
                        buckets[place].push(copy);
                    },
                    None => {},
                }
            },
            None => {},
        }
        proof {
            assert forall|j: int| 0 <= j < buckets.len() implies (#[trigger] buckets[j]).deep_view()
                == members_of(views.take(k as int + 1), index.ids@[j]) by {
                let id = index.ids@[j];
                lemma_members_step(views, k as int, id);
            }
        }
        k += 1;
    }
    assert(views.take(rows.len() as int) =~= views);
    buckets
}

/// Reports the first row whose configuration came without the executable
/// that it references. A configuration whose executable is missing is never
/// passed over.
pub fn check_integrity(rows: &Vec<ConfigurationRow>) -> (r: Result<(), IntegrityError>)
    ensures
        match integrity(rows.deep_view()) {
            Some(e) => r == Err::<(), IntegrityError>(e),
            None => r is Ok,
        },
{
    let ghost views = rows.deep_view();
    let mut i: usize = 0;
    while i < rows.len()
        invariant
            i <= rows.len(),
            views == rows.deep_view(),
            first_unsound(views, 0) == first_unsound(views, i as int),
        decreases rows.len() - i,
    {
        let found = match &rows[i].1 {
            Some(executable) => Some(executable.id),
            None => None,
        };
        if found != Some(rows[i].0.executable_id) {
            return Err(
                IntegrityError {
                    configuration: rows[i].0.id,
                    executable_id: rows[i].0.executable_id,
                    found,
                },
            );
        }
        i += 1;
    }
    Ok(())
}

/// The root configurations of the joined rows, in row order.
pub fn configurations_of(rows: &Vec<ConfigurationRow>) -> (cfgs: Vec<Configuration>)
    ensures
        cfgs.deep_view() == roots(rows.deep_view()),
{
    let mut cfgs: Vec<Configuration> = Vec::new();
    let mut i: usize = 0;
    while i < rows.len()
        invariant
            i <= rows.len(),
            cfgs.len() == i,
            forall|k: int| 0 <= k < i ==> cfgs[k]@ == #[trigger] rows[k].0@,
        decreases rows.len() - i,
    {
        cfgs.push(rows[i].0.clone());
        i += 1;
    }
    cfgs
}

/// The identifiers of `cfgs`, in order: the filter of the query for their
/// group links.
pub fn configuration_ids(cfgs: &Vec<Configuration>) -> (ids: Vec<i32>)
    ensures
        ids@ == cfgs.deep_view().map_values(|c: ConfigurationView| c.id),
{
    let mut ids: Vec<i32> = Vec::new();
    let mut i: usize = 0;
    while i < cfgs.len()
        invariant
            i <= cfgs.len(),
            ids.len() == i,
            forall|k: int| 0 <= k < i ==> ids[k] == #[trigger] cfgs[k].id,
        decreases cfgs.len() - i,
    {
        ids.push(cfgs[i].id);
        i += 1;
    }
    ids
}

/// Pairs each configuration with the groups that `links` gives it. Link rows
/// of other configurations, and rows whose group is gone, are dropped.
pub fn group_by_configuration(cfgs: &Vec<Configuration>, links: &Vec<GroupLinkRow>) -> (r: Vec<
    GroupedConfiguration,
>)
    ensures
        r.deep_view() == grouped(cfgs.deep_view(), links.deep_view()),
{
    let mut index = IdIndex::new();
    let mut i: usize = 0;
    while i < cfgs.len()
        invariant
            i <= cfgs.len(),
            index.wf(),
            forall|k: int| 0 <= k < i ==> index.ids@.contains(#[trigger] cfgs[k].id),
        decreases cfgs.len() - i,
    {
        let ghost before = index.ids@;
        index.record(cfgs[i].id);
        proof {
            assert forall|k: int| 0 <= k <= i implies index.ids@.contains(
                #[trigger] cfgs[k].id,
            ) by {
                lemma_push_contains(before, cfgs[i as int].id, cfgs[k].id);
            }
        }
        i += 1;
    }
    let ghost rows = links.deep_view();
    let buckets = members_by_owner(&index, links);
    assert(row_views(links@) =~= rows);
    let mut r: Vec<GroupedConfiguration> = Vec::new();
    let mut i: usize = 0;
    while i < cfgs.len()
        invariant
            i <= cfgs.len(),
            index.wf(),
            r.len() == i,
            buckets.len() == index.ids.len(),
            forall|k: int| 0 <= k < cfgs.len() ==> index.ids@.contains(#[trigger] cfgs[k].id),
            forall|j: int|
                0 <= j < buckets.len() ==> (#[trigger] buckets[j]).deep_view() == groups_of(
                    rows,
                    index.ids@[j],
                ),
            forall|k: int|
                0 <= k < i ==> (#[trigger] r[k]).deep_view() == (
                    cfgs[k]@,
                    groups_of(rows, cfgs[k].id),
                ),
        decreases cfgs.len() - i,
    {
        // Every configuration was recorded above, so that it is found here.
        let groups = match index.find(cfgs[i].id) {
            Some(place) => buckets[place].clone(),
            None => Vec::new(),
        };
        r.push((cfgs[i].clone(), groups));
        i += 1;
    }
    r
}

/// Indexes the groups of all entries at once, each group once however many
/// configurations share it.
fn index_groups(entries: &Vec<GroupedConfiguration>) -> (index: IdIndex)
    ensures
        index.wf(),
        index.ids@ == distinct(group_ids(entries.deep_view())),
        forall|i: int, j: int|
            0 <= i < entries.len() && 0 <= j < entries[i].1.len() ==> index.ids@.contains(
                (#[trigger] entries[i].1[j]).id,
            ),
{
    let ghost views = entries.deep_view();
    let mut index = IdIndex::new();
    let ghost mut seen: Seq<i32> = Seq::empty();
    let mut i: usize = 0;
    while i < entries.len()
        invariant
            i <= entries.len(),
            views == entries.deep_view(),
            index.wf(),
            seen == group_ids(views.take(i as int)),
            index.ids@ == distinct(seen),
            forall|a: int, b: int|
                0 <= a < i && 0 <= b < entries[a].1.len() ==> index.ids@.contains(
                    (#[trigger] entries[a].1[b]).id,
                ),
        decreases entries.len() - i,
    {
        let groups = &entries[i].1;
        let ghost start = seen;
        let mut j: usize = 0;
        while j < groups.len()
            invariant
                j <= groups.len(),
                i < entries.len(),
                groups == &entries[i as int].1,
                views == entries.deep_view(),
                index.wf(),
                seen == start + entry_group_ids(views[i as int]).take(j as int),
                index.ids@ == distinct(seen),
                forall|a: int, b: int|
                    0 <= a < i && 0 <= b < entries[a].1.len() ==> index.ids@.contains(
                        (#[trigger] entries[a].1[b]).id,
                    ),
                forall|b: int| 0 <= b < j ==> index.ids@.contains((#[trigger] groups[b]).id),
            decreases groups.len() - j,
        {
            let id = groups[j].id;
            let ghost before = index.ids@;
            index.record(id);
            proof {
                let grown = seen.push(id);
                assert(grown.drop_last() =~= seen);
                seen = grown;
                assert forall|wanted: i32|
                    before.contains(wanted) || wanted == id implies index.ids@.contains(
                    wanted,
                ) by {
                    lemma_push_contains(before, id, wanted);
                }
            }
            j += 1;
        }
        proof {
            lemma_group_ids_step(views, i as int);
        }
        i += 1;
    }
    assert(views.take(entries.len() as int) =~= views);
    index
}

/// The identifiers of the groups of all entries, each once, in order of first
/// appearance: the filter of the query for their environment links.
pub fn distinct_group_ids(entries: &Vec<GroupedConfiguration>) -> (ids: Vec<i32>)
    ensures
        ids@ == distinct(group_ids(entries.deep_view())),
{
    let index = index_groups(entries);
    index.ids
}

/// Gives every group of every entry its environment variables. A group that
/// several configurations share is expanded once and gets the same
/// environments wherever it appears; a group without links gets none.
pub fn assemble(entries: &Vec<GroupedConfiguration>, env_links: &Vec<EnvLinkRow>) -> (r: Vec<
    LinkedConfiguration,
>)
    ensures
        r.deep_view() == assembled(entries.deep_view(), env_links.deep_view()),
{
    let index = index_groups(entries);
    let buckets = members_by_owner(&index, env_links);
    let ghost rows = env_links.deep_view();
    assert(row_views(env_links@) =~= rows);
    let mut r: Vec<LinkedConfiguration> = Vec::new();
    let mut i: usize = 0;
    while i < entries.len()
        invariant
            i <= entries.len(),
            r.len() == i,
            index.wf(),
            rows == env_links.deep_view(),
            buckets.len() == index.ids.len(),
            forall|j: int|
                0 <= j < buckets.len() ==> (#[trigger] buckets[j]).deep_view() == environments_of(
                    rows,
                    index.ids@[j],
                ),
            forall|a: int, b: int|
                0 <= a < entries.len() && 0 <= b < entries[a].1.len() ==> index.ids@.contains(
                    (#[trigger] entries[a].1[b]).id,
                ),
            forall|k: int|
                0 <= k < i ==> (#[trigger] r[k])@ == linked_configuration(
                    entries.deep_view()[k],
                    rows,
                ),
        decreases entries.len() - i,
    {
        let members = &entries[i].1;
        let mut groups: Vec<LinkedGroups> = Vec::new();
        let mut j: usize = 0;
        while j < members.len()
            invariant
                j <= members.len(),
                i < entries.len(),
                members == &entries[i as int].1,
                groups.len() == j,
                index.wf(),
                buckets.len() == index.ids.len(),
                forall|j: int|
                    0 <= j < buckets.len() ==> (#[trigger] buckets[j]).deep_view()
                        == environments_of(rows, index.ids@[j]),
                forall|b: int| 0 <= b < members.len() ==> index.ids@.contains((#[trigger] members[b]).id),
                forall|b: int| 0 <= b < j ==> (#[trigger] groups[b])@ == linked_group(members[b]@, rows),
            decreases members.len() - j,
        {
            let group = &members[j];
            // Every group was indexed above, so that it is found here.
            let environments = match index.find(group.id) {
                Some(place) => buckets[place].clone(),
                None => Vec::new(),
            };
            groups.push(LinkedGroups { group: group.clone(), environments });
            j += 1;
        }
        let linked = LinkedConfiguration { configuration: entries[i].0.clone(), groups };
        assert(linked@.groups =~= linked_configuration(entries.deep_view()[i as int], rows).groups);
        r.push(linked);
        i += 1;
    }
    r
}

/// The configurations of joined rows.
pub open spec fn roots(rows: Seq<ConfigurationRowView>) -> Seq<ConfigurationView> {
    rows.map_values(|row: ConfigurationRowView| row.0)
}

/// Builds the aggregate from the rows of the three joins: one entry per root
/// configuration, in row order, each with the groups that its links name and
/// the environment variables that their links name. It fails exactly where a
/// root row lacks the executable that its configuration references, and
/// reports the first such row. No root rows give an empty aggregate.
pub fn build(
    rows: &Vec<ConfigurationRow>,
    links: &Vec<GroupLinkRow>,
    env_links: &Vec<EnvLinkRow>,
) -> (r: Result<Vec<LinkedConfiguration>, IntegrityError>)
    ensures
        match integrity(rows.deep_view()) {
            Some(e) => r == Err::<Vec<LinkedConfiguration>, IntegrityError>(e),
            None => r is Ok && r->Ok_0.deep_view() == aggregate(
                roots(rows.deep_view()),
                links.deep_view(),
                env_links.deep_view(),
            ),
        },
{
    match check_integrity(rows) {
        Err(e) => Err(e),
        Ok(()) => {
            let cfgs = configurations_of(rows);
            let entries = group_by_configuration(&cfgs, links);
            Ok(assemble(&entries, env_links))
        },
    }
}

/// Whether a group link still has its group.
pub open spec fn group_present(row: GroupLinkRowView) -> bool {
    row.1 is Some
}

/// Whether an environment link still has its environment.
pub open spec fn environment_present(row: EnvLinkRowView) -> bool {
    row.1 is Some
}

/// Completeness of the aggregate. It has one entry per root configuration,
/// in order. The groups of an entry are exactly those that the link rows
/// give its configuration, as many and in the same order, and the
/// environments of each group are exactly those that the environment link
/// rows give that group.
pub proof fn lemma_aggregate_complete(
    cfgs: Seq<ConfigurationView>,
    links: Seq<GroupLinkRowView>,
    env_links: Seq<EnvLinkRowView>,
)
    ensures
        aggregate(cfgs, links, env_links).len() == cfgs.len(),
        forall|i: int|
            #![trigger aggregate(cfgs, links, env_links)[i]]
            0 <= i < cfgs.len() ==> {
                let entry = aggregate(cfgs, links, env_links)[i];
                &&& entry.configuration == cfgs[i]
                &&& entry.groups.len() == groups_of(links, cfgs[i].id).len()
                &&& forall|k: int|
                    #![trigger entry.groups[k]]
                    0 <= k < entry.groups.len() ==> {
                        &&& entry.groups[k].group == groups_of(links, cfgs[i].id)[k]
                        &&& entry.groups[k].environments == environments_of(
                            env_links,
                            entry.groups[k].group.id,
                        )
                    }
            },
{
}

/// Sharing. Wherever one group appears in an aggregate, under one
/// configuration or under several, it has the same environments.
pub proof fn lemma_aggregate_shares_groups(
    cfgs: Seq<ConfigurationView>,
    links: Seq<GroupLinkRowView>,
    env_links: Seq<EnvLinkRowView>,
    i: int,
    k: int,
    j: int,
    l: int,
)
    requires
        0 <= i < cfgs.len(),
        0 <= j < cfgs.len(),
        0 <= k < aggregate(cfgs, links, env_links)[i].groups.len(),
        0 <= l < aggregate(cfgs, links, env_links)[j].groups.len(),
        aggregate(cfgs, links, env_links)[i].groups[k].group.id == aggregate(
            cfgs,
            links,
            env_links,
        )[j].groups[l].group.id,
    ensures
        aggregate(cfgs, links, env_links)[i].groups[k].environments == aggregate(
            cfgs,
            links,
            env_links,
        )[j].groups[l].environments,
{
}

/// Rows that `pick` maps to nothing can be dropped before it is applied.
proof fn lemma_filter_map_ignores<A, B>(
    s: Seq<A>,
    pick: spec_fn(A) -> Option<B>,
    keep: spec_fn(A) -> bool,
)
    requires
        forall|a: A| !keep(a) ==> #[trigger] pick(a) is None,
    ensures
        s.filter(keep).filter_map(pick) == s.filter_map(pick),
    decreases s.len(),
{
    reveal(Seq::filter);
    if s.len() > 0 {
        lemma_filter_map_ignores(s.drop_last(), pick, keep);
        if keep(s.last()) {
            assert(s.filter(keep).drop_last() =~= s.drop_last().filter(keep));
        }
    }
}

/// Every group of a configuration comes from a link row that names the
/// configuration and whose group still exists.
pub proof fn lemma_groups_come_from_links(
    links: Seq<GroupLinkRowView>,
    config_id: i32,
    k: int,
) -> (n: int)
    requires
        0 <= k < groups_of(links, config_id).len(),
    ensures
        0 <= n < links.len(),
        links[n].0.config_id == config_id,
        links[n].1 == Some(groups_of(links, config_id)[k]),
{
    let pick = owned_by::<GroupConfigLink, GroupedEnvironmentView>(config_id);
    let group = groups_of(links, config_id)[k];
    links.lemma_filter_map_contains(pick, group);
    let row = choose|row: GroupLinkRowView| #[trigger] links.contains(row) && pick(row) == Some(group);
    let n = choose|n: int| 0 <= n < links.len() && links[n] == row;
    n
}

/// Dangling links are dropped. A link whose group or whose environment no
/// longer exists leaves no trace: the aggregate is the one that the rows give
/// without such links.
pub proof fn lemma_dangling_links_dropped(
    cfgs: Seq<ConfigurationView>,
    links: Seq<GroupLinkRowView>,
    env_links: Seq<EnvLinkRowView>,
)
    ensures
        aggregate(cfgs, links, env_links) == aggregate(
            cfgs,
            links.filter(|row: GroupLinkRowView| group_present(row)),
            env_links.filter(|row: EnvLinkRowView| environment_present(row)),
        ),
{
    let present_links = links.filter(|row: GroupLinkRowView| group_present(row));
    let present_envs = env_links.filter(|row: EnvLinkRowView| environment_present(row));
    assert forall|id: i32| groups_of(present_links, id) == #[trigger] groups_of(links, id) by {
        lemma_filter_map_ignores(
            links,
            owned_by::<GroupConfigLink, GroupedEnvironmentView>(id),
            |row: GroupLinkRowView| group_present(row),
        );
    }
    assert forall|id: i32| environments_of(present_envs, id) == #[trigger] environments_of(
        env_links,
        id,
    ) by {
        lemma_filter_map_ignores(
            env_links,
            owned_by::<GroupEnvsLink, EnvironmentView>(id),
            |row: EnvLinkRowView| environment_present(row),
        );
    }
    let a = aggregate(cfgs, links, env_links);
    let b = aggregate(cfgs, present_links, present_envs);
    assert forall|i: int| 0 <= i < a.len() implies a[i] == b[i] by {
        assert(a[i].groups =~= b[i].groups);
    }
}

/// A filter that no configuration passes gives an empty aggregate, whatever
/// the link rows are.
pub proof fn lemma_no_roots_no_entries(
    links: Seq<GroupLinkRowView>,
    env_links: Seq<EnvLinkRowView>,
)
    ensures
        integrity(Seq::<ConfigurationRowView>::empty()) is None,
        aggregate(roots(Seq::<ConfigurationRowView>::empty()), links, env_links) == Seq::<
            LinkedConfigurationView,
        >::empty(),
{
}

} // verus!
