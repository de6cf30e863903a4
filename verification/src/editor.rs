//! What the editing forms decide, apart from any window toolkit: which boxes
//! are checked, whether a form is complete, and which rows a save stores,
//! changes and deletes.
//!
//! A save changes memberships by reconciliation: links are inserted for what
//! was checked since, and deleted for what was unchecked since, and every
//! delete names the owner, so that a group keeps its place in other
//! configurations.

use crate::models::{DbObject, GroupCfgLinkInsert, GroupEnvLinkInsert, LinkedGroups};
use crate::reconcile::{absent_from, hashset_comparison, identities, referents};
use crate::seqs::{lemma_push_contains, lemma_take_contains};
use std::collections::HashMap;
use vstd::prelude::*;

verus! {

broadcast use vstd::std_specs::hash::group_hash_axioms;

/// Boxes for the given identifiers, none checked.
pub fn unchecked(ids: &[i32]) -> (boxes: HashMap<i32, bool>)
    ensures
        forall|id: i32| #[trigger] boxes@.contains_key(id) <==> ids@.contains(id),
        forall|id: i32| #[trigger] boxes@.contains_key(id) ==> !boxes@[id],
{
    let mut boxes: HashMap<i32, bool> = HashMap::new();
    let mut i: usize = 0;
    while i < ids.len()
        invariant
            i <= ids.len(),
            forall|id: i32| #[trigger]
                boxes@.contains_key(id) <==> ids@.take(i as int).contains(id),
            forall|id: i32| #[trigger] boxes@.contains_key(id) ==> !boxes@[id],
        decreases ids.len() - i,
    {
        boxes.insert(ids[i], false);
        proof {
            assert forall|id: i32| #[trigger]
                boxes@.contains_key(id) <==> ids@.take(i as int + 1).contains(id) by {
                lemma_take_contains(ids@, i as int, id);
            }
        }
        i += 1;
    }
    assert(ids@.take(ids.len() as int) =~= ids@);
    boxes
}

/// Boxes for the identifiers of `all` and of `members`, those of `members`
/// checked and no others.
pub fn checked_members(all: &[i32], members: &[i32]) -> (boxes: HashMap<i32, bool>)
    ensures
        forall|id: i32| #[trigger]
            boxes@.contains_key(id) <==> all@.contains(id) || members@.contains(id),
        forall|id: i32| #[trigger] boxes@.contains_key(id) ==> boxes@[id] == members@.contains(id),
{
    let mut boxes = unchecked(all);
    let mut i: usize = 0;
    while i < members.len()
        invariant
            i <= members.len(),
            forall|id: i32| #[trigger]
                boxes@.contains_key(id) <==> all@.contains(id) || members@.take(i as int).contains(
                    id,
                ),
            forall|id: i32| #[trigger]
                boxes@.contains_key(id) ==> boxes@[id] == members@.take(i as int).contains(id),
        decreases members.len() - i,
    {
        boxes.insert(members[i], true);
        proof {
            assert forall|id: i32| #[trigger]
                boxes@.contains_key(id) <==> all@.contains(id) || members@.take(
                    i as int + 1,
                ).contains(id) by {
                lemma_take_contains(members@, i as int, id);
            }
            assert forall|id: i32| #[trigger] boxes@.contains_key(id) implies boxes@[id]
                == members@.take(i as int + 1).contains(id) by {
                lemma_take_contains(members@, i as int, id);
            }
        }
        i += 1;
    }
    assert(members@.take(members.len() as int) =~= members@);
    boxes
}

/// Adds an unchecked box for each identifier that has none yet. Boxes that
/// exist stay as they are.
pub fn add_unchecked(boxes: &mut HashMap<i32, bool>, ids: &[i32])
    ensures
        forall|id: i32| #[trigger]
            final(boxes)@.contains_key(id) <==> old(boxes)@.contains_key(id) || ids@.contains(id),
        forall|id: i32|
            old(boxes)@.contains_key(id) ==> #[trigger] final(boxes)@[id] == old(boxes)@[id],
        forall|id: i32|
            ids@.contains(id) && !old(boxes)@.contains_key(id) ==> !#[trigger] final(boxes)@[id],
{
    let mut i: usize = 0;
    while i < ids.len()
        invariant
            i <= ids.len(),
            forall|id: i32| #[trigger]
                boxes@.contains_key(id) <==> old(boxes)@.contains_key(id) || ids@.take(
                    i as int,
                ).contains(id),
            forall|id: i32| old(boxes)@.contains_key(id) ==> #[trigger] boxes@[id] == old(boxes)@[id],
            forall|id: i32|
                ids@.take(i as int).contains(id) && !old(boxes)@.contains_key(id) ==> !#[trigger] boxes@[id],
        decreases ids.len() - i,
    {
        if !boxes.contains_key(&ids[i]) {
            boxes.insert(ids[i], false);
        }
        proof {
            assert forall|id: i32| #[trigger]
                boxes@.contains_key(id) <==> old(boxes)@.contains_key(id) || ids@.take(
                    i as int + 1,
                ).contains(id) by {
                lemma_take_contains(ids@, i as int, id);
            }
            assert forall|id: i32|
                ids@.take(i as int + 1).contains(id) && !old(boxes)@.contains_key(
                    id,
                ) implies !#[trigger] boxes@[id] by {
                lemma_take_contains(ids@, i as int, id);
            }
        }
        i += 1;
    }
    assert(ids@.take(ids.len() as int) =~= ids@);
}

/// Checks the boxes of `ids`. Where one of them has no box, nothing is
/// changed and the first such identifier is returned: the list of boxes and
/// the list of rows are out of step.
pub fn check(boxes: &mut HashMap<i32, bool>, ids: &[i32]) -> (r: Result<(), i32>)
    ensures
        match r {
            Ok(()) => {
                &&& forall|id: i32| #[trigger] ids@.contains(id) ==> old(boxes)@.contains_key(id)
                &&& final(boxes)@.dom() == old(boxes)@.dom()
                &&& forall|id: i32|
                    old(boxes)@.contains_key(id) ==> #[trigger] final(boxes)@[id] == (old(
                        boxes,
                    )@[id] || ids@.contains(id))
            },
            Err(missing) => {
                &&& ids@.contains(missing)
                &&& !old(boxes)@.contains_key(missing)
                &&& final(boxes)@ == old(boxes)@
            },
        },
{
    let mut i: usize = 0;
    while i < ids.len()
        invariant
            i <= ids.len(),
            boxes@ == old(boxes)@,
            forall|id: i32| ids@.take(i as int).contains(id) ==> boxes@.contains_key(id),
        decreases ids.len() - i,
    {
        if !boxes.contains_key(&ids[i]) {
            return Err(ids[i]);
        }
        proof {
            assert forall|id: i32| ids@.take(i as int + 1).contains(id) implies boxes@.contains_key(
                id,
            ) by {
                lemma_take_contains(ids@, i as int, id);
            }
        }
        i += 1;
    }
    assert(ids@.take(ids.len() as int) =~= ids@);
    let mut i: usize = 0;
    while i < ids.len()
        invariant
            i <= ids.len(),
            forall|id: i32| ids@.contains(id) ==> old(boxes)@.contains_key(id),
            boxes@.dom() == old(boxes)@.dom(),
            forall|id: i32|
                old(boxes)@.contains_key(id) ==> boxes@[id] == (old(boxes)@[id] || ids@.take(
                    i as int,
                ).contains(id)),
        decreases ids.len() - i,
    {
        boxes.insert(ids[i], true);
        proof {
            assert(ids@.contains(ids[i as int]));
            assert forall|id: i32| old(boxes)@.contains_key(id) implies boxes@[id] == (old(
                boxes,
            )@[id] || ids@.take(i as int + 1).contains(id)) by {
                lemma_take_contains(ids@, i as int, id);
            }
        }
        i += 1;
    }
    Ok(())
}

/// The identifiers whose box is checked, each once, in no particular order.
pub fn checked_ids(boxes: &HashMap<i32, bool>) -> (ids: Vec<i32>)
    ensures
        ids@.no_duplicates(),
        forall|id: i32| #[trigger] ids@.contains(id) <==> boxes@.contains_key(id) && boxes@[id],
{
    let mut ids: Vec<i32> = Vec::new();
    for entry in it: boxes.iter()
        invariant
            it.seq().no_duplicates(),
            forall|k: int|
                0 <= k < it.seq().len() ==> boxes@.contains_key(*(#[trigger] it.seq()[k]).0)
                    && boxes@[*it.seq()[k].0] == *it.seq()[k].1,
            forall|id: i32| #[trigger]
                boxes@.contains_key(id) ==> it.seq().contains((&id, &boxes@[id])),
            ids@.no_duplicates(),
            forall|id: i32|
                ids@.contains(id) ==> boxes@.contains_key(id) && boxes@[id] && exists|k: int|
                    0 <= k < it.index() && *(#[trigger] it.seq()[k]).0 == id,
            forall|id: i32|
                boxes@.contains_key(id) && boxes@[id] ==> ids@.contains(id) || exists|k: int|
                    it.index() <= k < it.seq().len() && *(#[trigger] it.seq()[k]).0 == id,
    {
        let (id, checked) = entry;
        let ghost before = ids@;
        let ghost at = it.index();
        if *checked {
            ids.push(*id);
        }
        proof {
            assert forall|other: i32| ids@.contains(other) implies boxes@.contains_key(other)
                && boxes@[other] && exists|k: int|
                0 <= k < at + 1 && *(#[trigger] it.seq()[k]).0 == other by {
                if *checked {
                    lemma_push_contains(before, *id, other);
                }
            }
            assert forall|other: i32| boxes@.contains_key(other) && boxes@[other] implies ids@.contains(
                other,
            ) || exists|k: int|
                at + 1 <= k < it.seq().len() && *(#[trigger] it.seq()[k]).0 == other by {
                if *checked {
                    lemma_push_contains(before, *id, other);
                }
            }
        }
    }
    ids
}

/// The configuration that a form was opened on.
#[derive(PartialEq, Debug)]
pub struct EditedConfiguration {
    pub id: i32,
    pub name: String,
    pub groups: Vec<LinkedGroups>,
    pub executable_id: i32,
}

/// The group that a form was opened on, with the identifiers of its
/// environment variables.
#[derive(PartialEq, Debug)]
pub struct EditedGroup {
    pub id: i32,
    pub name: String,
    pub environments: Vec<i32>,
}

/// What saving the configuration form does.
#[derive(Debug)]
pub enum ConfigurationSave<'a> {
    /// The form lacks a name or an executable: nothing is stored.
    Incomplete,
    /// A configuration is created; the checked groups are linked to it once
    /// the store has given it an identifier.
    Create { name: String, executable_id: i32 },
    /// The configuration `id` is changed: its row where `update` says so,
    /// then the links of the groups in `remove` are deleted from it, and the
    /// links in `add` are inserted.
    Edit {
        id: i32,
        update: Option<(String, i32)>,
        remove: Vec<i32>,
        add: Vec<GroupCfgLinkInsert<'a>>,
    },
}

/// What saving the group form does.
#[derive(Debug)]
pub enum GroupSave<'a> {
    /// The form lacks a name: nothing is stored.
    Incomplete,
    /// A group is created; the checked environments are linked to it once
    /// the store has given it an identifier.
    Create { name: String },
    /// The group `id` is changed: renamed where `rename` says so, then the
    /// links in `add` are inserted, and the links of the environments in
    /// `remove` are deleted from it.
    Edit { id: i32, rename: Option<String>, add: Vec<GroupEnvLinkInsert<'a>>, remove: Vec<i32> },
}

/// What saving the executable form does.
#[derive(PartialEq, Debug)]
pub enum ExecutableSave {
    /// The form lacks a name or a command: nothing is stored.
    Incomplete,
    /// An executable is created.
    Create { name: String, executable: String },
    /// The executable `id` gets this name and command.
    Update { id: i32, name: String, executable: String },
    /// The form says what is stored: nothing is stored.
    Unchanged,
}

/// What saving the environment form does.
#[derive(PartialEq, Debug)]
pub enum EnvironmentSave {
    /// The form lacks a name or a value: nothing is stored.
    Incomplete,
    /// An environment variable is created.
    Create { name: String, value: String },
    /// The environment variable `id` gets this name and value.
    Update { id: i32, name: String, value: String },
}

/// A link to `config_id` for each of `group_ids`, in order.
pub fn group_links<'a>(group_ids: &[&'a i32], config_id: &'a i32) -> (links: Vec<
    GroupCfgLinkInsert<'a>,
>)
    ensures
        links.deep_view() == referents(group_ids@).map_values(|g: i32| (g, *config_id)),
{
    let mut links: Vec<GroupCfgLinkInsert<'a>> = Vec::new();
    let mut i: usize = 0;
    while i < group_ids.len()
        invariant
            i <= group_ids.len(),
            links.len() == i,
            forall|k: int|
                0 <= k < i ==> (#[trigger] links[k]).deep_view() == (*group_ids[k], *config_id),
        decreases group_ids.len() - i,
    {
        links.push(GroupCfgLinkInsert { group_id: group_ids[i], config_id });
        i += 1;
    }
    links
}

/// A link to `group_id` for each of `env_ids`, in order.
pub fn environment_links<'a>(env_ids: &[&'a i32], group_id: &'a i32) -> (links: Vec<
    GroupEnvLinkInsert<'a>,
>)
    ensures
        links.deep_view() == referents(env_ids@).map_values(|e: i32| (e, *group_id)),
{
    let mut links: Vec<GroupEnvLinkInsert<'a>> = Vec::new();
    let mut i: usize = 0;
    while i < env_ids.len()
        invariant
            i <= env_ids.len(),
            links.len() == i,
            forall|k: int|
                0 <= k < i ==> (#[trigger] links[k]).deep_view() == (*env_ids[k], *group_id),
        decreases env_ids.len() - i,
    {
        links.push(GroupEnvLinkInsert { group_id, env_id: env_ids[i] });
        i += 1;
    }
    links
}

/// The identifiers of `items`, in order.
fn ids_of<T: DbObject>(items: &Vec<&T>) -> (ids: Vec<i32>)
    ensures
        ids@ == identities(referents(items@)),
{
    let mut ids: Vec<i32> = Vec::new();
    let mut i: usize = 0;
    while i < items.len()
        invariant
            i <= items.len(),
            ids.len() == i,
            forall|k: int| 0 <= k < i ==> ids[k] == (#[trigger] items[k]).identity(),
        decreases items.len() - i,
    {
        ids.push(items[i].id());
        i += 1;
    }
    ids
}

/// What the configuration form stores when it is saved with the given name,
/// executable and checked groups. `previous` is the configuration that the
/// form was opened on, if it edits one.
///
/// A form without a name, or without an executable (identifier 0), is
/// incomplete. Editing rewrites the row only where the name or the
/// executable changed, removes the links of the groups that are no longer
/// checked, and adds links for the groups that are newly checked; groups
/// that stay are left alone.
pub fn save_configuration<'a>(
    previous: Option<&'a EditedConfiguration>,
    name: &str,
    executable_id: i32,
    checked: &'a [i32],
) -> (r: ConfigurationSave<'a>)
    ensures
        name@.len() == 0 || executable_id == 0 ==> r is Incomplete,
        name@.len() > 0 && executable_id != 0 ==> match previous {
            None => r matches ConfigurationSave::Create { name: n, executable_id: e } && n@
                == name@ && e == executable_id,
            Some(p) => r matches ConfigurationSave::Edit { id, update, remove, add } && {
                &&& id == p.id
                &&& update.deep_view() == if p.name@ != name@ || p.executable_id
                    != executable_id {
                    Some((name@, executable_id))
                } else {
                    None
                }
                &&& remove@ == identities(absent_from(p.groups@, checked@))
                &&& add.deep_view() == absent_from(checked@, identities(p.groups@)).map_values(
                    |g: i32| (g, p.id),
                )
            },
        },
{
    if name.is_empty() || executable_id == 0 {
        return ConfigurationSave::Incomplete;
    }
    let name = name.to_owned();
    match previous {
        None => ConfigurationSave::Create { name, executable_id },
        Some(p) => {
            let update = if p.name != name || p.executable_id != executable_id {
                Some((name, executable_id))
            } else {
                None
            };
            let (added, removed) = hashset_comparison(p.groups.as_slice(), checked);
            assert(identities(checked@) =~= checked@);
            let remove = ids_of(&removed);
            let add = group_links(added.as_slice(), &p.id);
            ConfigurationSave::Edit { id: p.id, update, remove, add }
        },
    }
}

/// What the group form stores when it is saved with the given name and
/// checked environments. `previous` is the group that the form was opened
/// on, if it edits one.
///
/// A form without a name is incomplete. Editing renames the group only where
/// the name changed, adds links for the environments that are newly checked,
/// and removes the links of those that are no longer checked.
pub fn save_group<'a>(previous: Option<&'a EditedGroup>, name: &str, checked: &'a [i32]) -> (r:
    GroupSave<'a>)
    ensures
        name@.len() == 0 ==> r is Incomplete,
        name@.len() > 0 ==> match previous {
            None => r matches GroupSave::Create { name: n } && n@ == name@,
            Some(p) => r matches GroupSave::Edit { id, rename, add, remove } && {
                &&& id == p.id
                &&& rename.deep_view() == if p.name@ != name@ {
                    Some(name@)
                } else {
                    None
                }
                &&& add.deep_view() == absent_from(checked@, p.environments@).map_values(
                    |e: i32| (e, p.id),
                )
                &&& remove@ == absent_from(p.environments@, checked@)
            },
        },
{
    if name.is_empty() {
        return GroupSave::Incomplete;
    }
    let name = name.to_owned();
    match previous {
        None => GroupSave::Create { name },
        Some(p) => {
            let rename = if p.name != name {
                Some(name)
            } else {
                None
            };
            let (added, removed) = hashset_comparison(p.environments.as_slice(), checked);
            assert(identities(checked@) =~= checked@);
            assert(identities(p.environments@) =~= p.environments@);
            let remove = ids_of(&removed);
            let add = environment_links(added.as_slice(), &p.id);
            GroupSave::Edit { id: p.id, rename, add, remove }
        },
    }
}

/// What the executable form stores when it is saved with the given name and
/// command. `previous` is the identifier, name and command that the form was
/// opened on, if it edits an executable.
pub fn save_executable(previous: Option<&(i32, String, String)>, name: &str, executable: &str) -> (r:
    ExecutableSave)
    ensures
        name@.len() == 0 || executable@.len() == 0 ==> r is Incomplete,
        name@.len() > 0 && executable@.len() > 0 ==> match previous {
            None => r matches ExecutableSave::Create { name: n, executable: e } && n@ == name@
                && e@ == executable@,
            Some(p) => if p.1@ != name@ || p.2@ != executable@ {
                r matches ExecutableSave::Update { id, name: n, executable: e } && id == p.0
                    && n@ == name@ && e@ == executable@
            } else {
                r is Unchanged
            },
        },
{
    if name.is_empty() || executable.is_empty() {
        return ExecutableSave::Incomplete;
    }
    let name = name.to_owned();
    let executable = executable.to_owned();
    match previous {
        None => ExecutableSave::Create { name, executable },
        Some(p) => {
            if p.1 != name || p.2 != executable {
                ExecutableSave::Update { id: p.0, name, executable }
            } else {
                ExecutableSave::Unchanged
            }
        },
    }
}

/// What the environment form stores when it is saved with the given name and
/// value. `previous` is the identifier of the variable that the form was
/// opened on, if it edits one.
pub fn save_environment(previous: Option<i32>, name: &str, value: &str) -> (r: EnvironmentSave)
    ensures
        name@.len() == 0 || value@.len() == 0 ==> r is Incomplete,
        name@.len() > 0 && value@.len() > 0 ==> match previous {
            None => r matches EnvironmentSave::Create { name: n, value: v } && n@ == name@ && v@
                == value@,
            Some(p) => r matches EnvironmentSave::Update { id, name: n, value: v } && id == p
                && n@ == name@ && v@ == value@,
        },
{
    if name.is_empty() || value.is_empty() {
        return EnvironmentSave::Incomplete;
    }
    let name = name.to_owned();
    let value = value.to_owned();
    match previous {
        None => EnvironmentSave::Create { name, value },
        Some(id) => EnvironmentSave::Update { id, name, value },
    }
}

} // verus!
