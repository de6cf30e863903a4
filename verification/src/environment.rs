//! The effective environment of a configuration: the union of the
//! environment variables of its groups, as a mapping from name to value.
//!
//! Where a name is defined more than once, the last definition wins: groups
//! count in the order in which they are listed, and the variables of a group
//! in the order in which they are listed.

use crate::models::{EnvironmentView, LinkedConfiguration, LinkedConfigurationView, LinkedGroupsView};
use crate::seqs::{distinct, lemma_distinct};
use vstd::hash_map::StringHashMap;
use vstd::prelude::*;

verus! {

/// The name-to-value mapping that a sequence of environment variables
/// defines: each name maps to the value of its last occurrence.
pub open spec fn effective_environment(envs: Seq<EnvironmentView>) -> Map<Seq<char>, Seq<char>> {
    envs.fold_left(
        Map::<Seq<char>, Seq<char>>::empty(),
        |m: Map<Seq<char>, Seq<char>>, e: EnvironmentView| m.insert(e.name, e.value),
    )
}

/// Precedence in the effective environment. A name is defined exactly if
/// some variable carries it, and its value is that of the last variable that
/// carries it.
pub proof fn lemma_last_definition_wins(envs: Seq<EnvironmentView>)
    ensures
        forall|name: Seq<char>| #[trigger]
            effective_environment(envs).contains_key(name) <==> exists|i: int|
                0 <= i < envs.len() && envs[i].name == name,
        forall|i: int|
            0 <= i < envs.len() && (forall|j: int| i < j < envs.len() ==> envs[j].name
                != envs[i].name) ==> effective_environment(envs).contains_pair(
                (#[trigger] envs[i]).name,
                envs[i].value,
            ),
    decreases envs.len(),
{
    if envs.len() > 0 {
        let rest = envs.drop_last();
        let last = envs.last();
        lemma_last_definition_wins(rest);
        assert(effective_environment(envs) == effective_environment(rest).insert(
            last.name,
            last.value,
        ));
        assert forall|name: Seq<char>| #[trigger]
            effective_environment(envs).contains_key(name) <==> exists|i: int|
                0 <= i < envs.len() && envs[i].name == name by {
            if effective_environment(envs).contains_key(name) {
                if name == last.name {
                    assert(envs[envs.len() - 1].name == name);
                } else {
                    assert(effective_environment(rest).contains_key(name));
                    let i = choose|i: int| 0 <= i < rest.len() && rest[i].name == name;
                    assert(envs[i].name == name);
                }
            }
            if exists|i: int| 0 <= i < envs.len() && envs[i].name == name {
                let i = choose|i: int| 0 <= i < envs.len() && envs[i].name == name;
                if i < rest.len() {
                    assert(rest[i].name == name);
                    assert(effective_environment(rest).contains_key(name));
                }
            }
        }
        assert forall|i: int|
            0 <= i < envs.len() && (forall|j: int| i < j < envs.len() ==> envs[j].name
                != envs[i].name) implies effective_environment(envs).contains_pair(
            (#[trigger] envs[i]).name,
            envs[i].value,
        ) by {
            if i < rest.len() {
                assert(rest[i] == envs[i]);
                assert(envs[envs.len() - 1].name != envs[i].name);
                assert forall|j: int| i < j < rest.len() implies rest[j].name != rest[i].name by {
                    assert(envs[j].name != envs[i].name);
                }
                assert(effective_environment(rest).contains_pair(rest[i].name, rest[i].value));
            }
        }
    }
}

impl LinkedConfigurationView {
    /// The environment variables of each group, group by group.
    pub open spec fn by_group(self) -> Seq<Seq<EnvironmentView>> {
        self.groups.map_values(|g: LinkedGroupsView| g.environments)
    }

    /// The environment variables of all groups, group after group.
    pub open spec fn environments(self) -> Seq<EnvironmentView> {
        self.by_group().flatten()
    }

    /// The effective environment: the union of the environments of all
    /// groups, where a later definition of a name replaces an earlier one.
    pub open spec fn effective(self) -> Map<Seq<char>, Seq<char>> {
        effective_environment(self.environments())
    }
}

/// Whether `pairs` lists the entries of `m`, each name once.
pub open spec fn lists_mapping(
    pairs: Seq<(Seq<char>, Seq<char>)>,
    m: Map<Seq<char>, Seq<char>>,
) -> bool {
    &&& forall|i: int, j: int| 0 <= i < j < pairs.len() ==> pairs[i].0 != pairs[j].0
    &&& forall|i: int| 0 <= i < pairs.len() ==> m.contains_pair(#[trigger] pairs[i].0, pairs[i].1)
    &&& forall|name: Seq<char>| #[trigger]
        m.contains_key(name) ==> exists|i: int| 0 <= i < pairs.len() && pairs[i].0 == name
}

/// The names of a sequence of environment variables, element by element.
pub open spec fn names(envs: Seq<EnvironmentView>) -> Seq<Seq<char>> {
    envs.map_values(|e: EnvironmentView| e.name)
}

/// The effective environment as a list: each name once, in order of first
/// definition, with the value that the mapping gives it.
pub open spec fn listing(envs: Seq<EnvironmentView>) -> Seq<(Seq<char>, Seq<char>)> {
    distinct(names(envs)).map_values(|n: Seq<char>| (n, effective_environment(envs)[n]))
}

/// The listing of a sequence of environment variables lists the mapping that
/// they define: every name of the mapping once, with its value, and nothing
/// else.
pub proof fn lemma_listing_lists_mapping(envs: Seq<EnvironmentView>)
    ensures
        lists_mapping(listing(envs), effective_environment(envs)),
{
    let d = distinct(names(envs));
    let m = effective_environment(envs);
    let l = listing(envs);
    lemma_distinct(names(envs));
    lemma_last_definition_wins(envs);
    assert forall|i: int| 0 <= i < l.len() implies m.contains_pair(#[trigger] l[i].0, l[i].1) by {
        assert(d.contains(d[i]));
    }
    assert forall|name: Seq<char>| #[trigger] m.contains_key(name) implies exists|i: int|
        0 <= i < l.len() && l[i].0 == name by {
        let k = choose|k: int| 0 <= k < envs.len() && envs[k].name == name;
        assert(names(envs)[k] == name);
        assert(names(envs).contains(name));
        let i = choose|i: int| 0 <= i < d.len() && d[i] == name;
        assert(l[i].0 == name);
    }
}

/// One more environment variable changes the listing in one place: it
/// replaces the value of its name where the name is listed, and is appended
/// where it is not.
proof fn lemma_listing_step(seen: Seq<EnvironmentView>, e: EnvironmentView)
    ensures
        effective_environment(seen.push(e)) == effective_environment(seen).insert(e.name, e.value),
        forall|k: int|
            0 <= k < listing(seen).len() && (#[trigger] listing(seen)[k]).0 == e.name ==> listing(
                seen.push(e),
            ) == listing(seen).update(k, (e.name, e.value)),
        !effective_environment(seen).contains_key(e.name) ==> listing(seen.push(e)) == listing(
            seen,
        ).push((e.name, e.value)),
{
    let grown = seen.push(e);
    let d = distinct(names(seen));
    let m = effective_environment(seen);
    assert(grown.drop_last() =~= seen);
    assert(names(grown).drop_last() =~= names(seen));
    lemma_distinct(names(seen));
    lemma_last_definition_wins(seen);
    assert(m.contains_key(e.name) <==> names(seen).contains(e.name)) by {
        if m.contains_key(e.name) {
            let k = choose|k: int| 0 <= k < seen.len() && seen[k].name == e.name;
            assert(names(seen)[k] == e.name);
        }
    }
}

impl LinkedConfiguration {
    /// The effective environment of the configuration as a list of
    /// name/value pairs: each name once, in order of first definition, with
    /// the value of its last definition.
    pub fn get_environments(&self) -> (r: Vec<(String, String)>)
        ensures
            r.deep_view() == listing(self@.environments()),
    {
        let mut r: Vec<(String, String)> = Vec::new();
        let mut place: StringHashMap<usize> = StringHashMap::new();
        let ghost mut seen: Seq<EnvironmentView> = Seq::empty();
        let ghost parts = self@.by_group();
        let mut i: usize = 0;
        while i < self.groups.len()
            invariant
                i <= self.groups.len(),
                parts == self@.by_group(),
                seen == parts.take(i as int).flatten(),
                r.deep_view() == listing(seen),
                forall|name: Seq<char>| #[trigger]
                    place@.contains_key(name) <==> effective_environment(seen).contains_key(name),
                forall|name: Seq<char>| #[trigger]
                    place@.contains_key(name) ==> place@[name] < r.len() && r[place@[name] as int].0@
                        == name,
            decreases self.groups.len() - i,
        {
            let environments = &self.groups[i].environments;
            let ghost start = seen;
            let mut j: usize = 0;
            while j < environments.len()
                invariant
                    j <= environments.len(),
                    seen == start + environments.deep_view().take(j as int),
                    r.deep_view() == listing(seen),
                    forall|name: Seq<char>| #[trigger]
                        place@.contains_key(name) <==> effective_environment(seen).contains_key(
                            name,
                        ),
                    forall|name: Seq<char>| #[trigger]
                        place@.contains_key(name) ==> place@[name] < r.len() && r[place@[name] as int].0@
                            == name,
                decreases environments.len() - j,
            {
                let environment = &environments[j];
                let ghost before = r.deep_view();
                let ghost grown = seen.push(environment@);
                proof {
                    lemma_listing_step(seen, environment@);
                }
                match place.get(environment.name.as_str()) {
                    Some(k) => {
                        let k = *k;
                        r.set(k, (environment.name.clone(), environment.value.clone()));
                        proof {
                            assert(before[k as int].0 == environment@.name);
                        }
                    },
                    None => {
                        let k = r.len();
                        place.insert(environment.name.clone(), k);
                        r.push((environment.name.clone(), environment.value.clone()));
                    },
                }
                proof {
                    seen = grown;
                }
                j += 1;
            }
            proof {
                assert(parts.take(i as int + 1) =~= parts.take(i as int).push(
                    environments.deep_view(),
                ));
                parts.take(i as int).lemma_flatten_push(environments.deep_view());
            }
            i += 1;
        }
        assert(parts.take(self.groups.len() as int) =~= parts);
        r
    }
}

} // verus!
