//! The conversation with the store that reads an aggregate: which
//! configurations to start from, which rows to ask for next, and what to make
//! of the answers.
//!
//! Nothing here touches a store. Each step takes the answer to the previous
//! query and gives the next query or the result; whoever owns the connection
//! runs the queries. Every relation is asked for once, with the identifiers of
//! interest as the filter.

use crate::aggregate::{
    assemble, assembled, check_integrity, configuration_ids, configurations_of,
    distinct_group_ids, group_by_configuration, group_ids, grouped, integrity, roots,
    ConfigurationRow, EnvLinkRow, GroupLinkRow, GroupedConfiguration, GroupedConfigurationView,
    IntegrityError,
};
use crate::marker::{analyze_file, says, Warning};
use crate::models::{Configuration, ConfigurationView, LinkedConfiguration};
use crate::seqs::distinct;
use vstd::prelude::*;
use vstd::string::StringExecFns;

verus! {

/// Which configurations an aggregate starts from.
#[derive(PartialEq, Debug)]
pub enum Filter {
    /// Every configuration.
    All,
    /// The configuration with this identifier.
    Id(i32),
    /// The configurations whose name contains this fragment.
    NameContains(String),
}

/// What a [`Filter`] says.
pub enum FilterView {
    All,
    Id(i32),
    NameContains(Seq<char>),
}

impl View for Filter {
    type V = FilterView;

    open spec fn view(&self) -> FilterView {
        match self {
            Filter::All => FilterView::All,
            Filter::Id(id) => FilterView::Id(*id),
            Filter::NameContains(fragment) => FilterView::NameContains(fragment@),
        }
    }
}

/// A failure that the store reported, in its own words.
#[derive(PartialEq, Debug)]
pub struct StoreError {
    pub message: String,
}

/// Why no aggregate was built.
#[derive(PartialEq, Debug)]
pub enum AggregateError {
    /// The store failed to answer a query.
    Store(StoreError),
    /// The store answered with a row that cannot be.
    Integrity(IntegrityError),
}

/// Why no configuration could be selected.
#[derive(PartialEq, Debug)]
pub enum ResolutionError {
    /// Neither an identifier nor a name was given, and there is no marker
    /// file to take them from.
    NoSelector,
    /// The marker file sets neither an identifier nor a name.
    EmptyMarker { warnings: Vec<Warning> },
}

/// What a [`ResolutionError`] says.
pub enum ResolutionErrorView {
    NoSelector,
    EmptyMarker { warnings: Seq<Warning> },
}

impl View for ResolutionError {
    type V = ResolutionErrorView;

    open spec fn view(&self) -> ResolutionErrorView {
        match self {
            ResolutionError::NoSelector => ResolutionErrorView::NoSelector,
            ResolutionError::EmptyMarker { warnings } => ResolutionErrorView::EmptyMarker {
                warnings: warnings@,
            },
        }
    }
}

/// The first step of a read: the store is to be asked for the configurations
/// that pass the filter, each joined to its executable. The join keeps a
/// configuration whose executable is missing.
pub struct AwaitConfigurations {}

/// The second step of a read: the store is to be asked for the group links of
/// the root configurations, each joined to its group.
pub struct AwaitGroupLinks {
    cfgs: Vec<Configuration>,
}

/// The third step of a read: the store is to be asked for the environment
/// links of the groups found, each joined to its environment.
pub struct AwaitEnvLinks {
    entries: Vec<GroupedConfiguration>,
}

/// The start of a read: the filter of the first query, what to tell the user,
/// and the step that takes the answer.
pub struct Lookup {
    pub filter: Filter,
    pub warnings: Vec<Warning>,
    pub next: AwaitConfigurations,
}

/// The filter and the warnings that a selector resolves to. An identifier
/// given outright wins over a name given outright, and both win over the
/// marker file; within the marker file the identifier wins over the name.
pub open spec fn resolution(
    id: Option<i32>,
    name: Option<Seq<char>>,
    marker: Option<Seq<char>>,
) -> Result<(FilterView, Seq<Warning>), ResolutionErrorView> {
    if let Some(id) = id {
        Ok((FilterView::Id(id), Seq::empty()))
    } else if let Some(name) = name {
        Ok((FilterView::NameContains(name), Seq::empty()))
    } else if let Some(text) = marker {
        let file = says(text);
        if let Some(id) = file.id {
            Ok((FilterView::Id(id), file.warnings))
        } else if let Some(name) = file.name {
            Ok((FilterView::NameContains(name), file.warnings))
        } else {
            Err(ResolutionErrorView::EmptyMarker { warnings: file.warnings })
        }
    } else {
        Err(ResolutionErrorView::NoSelector)
    }
}

/// Precedence of selectors. An identifier given outright decides alone: the
/// name and the marker file are not looked at, and nothing is warned of.
pub proof fn lemma_explicit_id_wins(id: i32, name: Option<Seq<char>>, marker: Option<Seq<char>>)
    ensures
        resolution(Some(id), name, marker) == Ok::<
            (FilterView, Seq<Warning>),
            ResolutionErrorView,
        >((FilterView::Id(id), Seq::empty())),
{
}

/// Whether the marker file has to be looked for: neither an identifier nor a
/// name was given.
pub fn needs_marker(id: &Option<i32>, name: &Option<String>) -> (r: bool)
    ensures
        r == (id is None && name is None),
{
    id.is_none() && name.is_none()
}

/// Starts a read of all configurations.
pub fn get_all() -> (r: Lookup)
    ensures
        r.filter@ == FilterView::All,
        r.warnings@ == Seq::<Warning>::empty(),
{
    Lookup { filter: Filter::All, warnings: Vec::new(), next: AwaitConfigurations {  } }
}

/// Starts a read of the configurations that a selector names. `marker` is the
/// text of the marker file of the working directory, if there is one; it is
/// looked at only where neither `id` nor `name` is given.
pub fn get_config(id: Option<i32>, name: Option<String>, marker: Option<&str>) -> (r: Result<
    Lookup,
    ResolutionError,
>)
    ensures
        match resolution(id, name.deep_view(), marker.deep_view()) {
            Ok((filter, warnings)) => r is Ok && r->Ok_0.filter@ == filter && r->Ok_0.warnings@
                == warnings,
            Err(e) => r is Err && r->Err_0@ == e,
        },
{
    if let Some(id) = id {
        return Ok(Lookup { filter: Filter::Id(id), warnings: Vec::new(), next: AwaitConfigurations {  } });
    }
    if let Some(name) = name {
        return Ok(
            Lookup {
                filter: Filter::NameContains(name),
                warnings: Vec::new(),
                next: AwaitConfigurations {  },
            },
        );
    }
    match marker {
        None => Err(ResolutionError::NoSelector),
        Some(text) => {
            let file = analyze_file(text);
            if let Some(id) = file.id {
                Ok(
                    Lookup {
                        filter: Filter::Id(id),
                        warnings: file.warnings,
                        next: AwaitConfigurations {  },
                    },
                )
            } else if let Some(name) = file.name {
                Ok(
                    Lookup {
                        filter: Filter::NameContains(name),
                        warnings: file.warnings,
                        next: AwaitConfigurations {  },
                    },
                )
            } else {
                Err(ResolutionError::EmptyMarker { warnings: file.warnings })
            }
        },
    }
}

impl AwaitConfigurations {
    /// Takes the answer to the first query. A failure of the store is handed
    /// on, and so is the first row whose configuration came without the
    /// executable that it references. Otherwise the next step comes with the
    /// identifiers whose group links are to be asked for: those of the rows,
    /// in order.
    pub fn configurations(self, reply: Result<Vec<ConfigurationRow>, StoreError>) -> (r: Result<
        (AwaitGroupLinks, Vec<i32>),
        AggregateError,
    >)
        ensures
            match reply {
                Err(e) => r matches Err(AggregateError::Store(x)) && x == e,
                Ok(rows) => match integrity(rows.deep_view()) {
                    Some(e) => r matches Err(AggregateError::Integrity(x)) && x == e,
                    None => r matches Ok((next, ids)) && next.roots() == roots(rows.deep_view())
                        && ids@ == next.roots().map_values(|c: ConfigurationView| c.id),
                },
            },
    {
        match reply {
            Err(e) => Err(AggregateError::Store(e)),
            Ok(rows) => match check_integrity(&rows) {
                Err(e) => Err(AggregateError::Integrity(e)),
                Ok(()) => {
                    let cfgs = configurations_of(&rows);
                    let ids = configuration_ids(&cfgs);
                    Ok((AwaitGroupLinks { cfgs }, ids))
                },
            },
        }
    }
}

impl AwaitGroupLinks {
    /// The root configurations of the read.
    pub closed spec fn roots(&self) -> Seq<ConfigurationView> {
        self.cfgs.deep_view()
    }

    /// Takes the answer to the second query. A failure of the store is
    /// handed on. Otherwise the next step comes with the identifiers whose
    /// environment links are to be asked for: those of the groups found. A
    /// group that several configurations share is asked for once.
    pub fn group_links(self, reply: Result<Vec<GroupLinkRow>, StoreError>) -> (r: Result<
        (AwaitEnvLinks, Vec<i32>),
        AggregateError,
    >)
        ensures
            match reply {
                Err(e) => r matches Err(AggregateError::Store(x)) && x == e,
                Ok(links) => r matches Ok((next, ids)) && next.entries() == grouped(
                    self.roots(),
                    links.deep_view(),
                ) && ids@ == distinct(group_ids(next.entries())),
            },
    {
        match reply {
            Err(e) => Err(AggregateError::Store(e)),
            Ok(links) => {
                let entries = group_by_configuration(&self.cfgs, &links);
                let ids = distinct_group_ids(&entries);
                Ok((AwaitEnvLinks { entries }, ids))
            },
        }
    }
}

impl AwaitEnvLinks {
    /// The root configurations of the read, each with its groups.
    pub closed spec fn entries(&self) -> Seq<GroupedConfigurationView> {
        self.entries.deep_view()
    }

    /// Takes the answer to the third query and gives the aggregate. A failure
    /// of the store is handed on.
    pub fn env_links(self, reply: Result<Vec<EnvLinkRow>, StoreError>) -> (r: Result<
        Vec<LinkedConfiguration>,
        AggregateError,
    >)
        ensures
            match reply {
                Err(e) => r matches Err(AggregateError::Store(x)) && x == e,
                Ok(env_links) => r matches Ok(found) && found.deep_view() == assembled(
                    self.entries(),
                    env_links.deep_view(),
                ),
            },
    {
        match reply {
            Err(e) => Err(AggregateError::Store(e)),
            Ok(env_links) => Ok(assemble(&self.entries, &env_links)),
        }
    }
}

/// The pattern by which the store matches names that contain `fragment`.
pub fn like_pattern(fragment: &str) -> (r: String)
    ensures
        r@ == seq!['%'] + fragment@ + seq!['%'],
{
    let mut r = "%".to_owned();
    proof {
        reveal_strlit("%");
    }
    r.append(fragment);
    r.append("%");
    r
}

} // verus!
