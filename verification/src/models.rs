//! The stored entities, the nested aggregate built from them, and the
//! mathematical view of each.
//!
//! Rows that carry text have a view in which every `String` is the sequence of
//! its characters; rows made of identifiers alone are their own view.

use vstd::prelude::*;

verus! {

/// A named pairing of one executable with a set of groups.
#[derive(PartialEq, Debug)]
pub struct Configuration {
    pub id: i32,
    pub name: String,
    /// Identifier of the executable that this configuration launches.
    pub executable_id: i32,
}

/// What a [`Configuration`] row says.
pub struct ConfigurationView {
    pub id: i32,
    pub name: Seq<char>,
    pub executable_id: i32,
}

impl View for Configuration {
    type V = ConfigurationView;

    open spec fn view(&self) -> ConfigurationView {
        ConfigurationView { id: self.id, name: self.name@, executable_id: self.executable_id }
    }
}

impl DeepView for Configuration {
    type V = ConfigurationView;

    open spec fn deep_view(&self) -> ConfigurationView {
        self@
    }
}

impl Clone for Configuration {
    fn clone(&self) -> (r: Self)
        ensures
            r == *self,
    {
        Configuration { id: self.id, name: self.name.clone(), executable_id: self.executable_id }
    }
}

/// A program that can be launched, and how the launcher treats it.
#[derive(PartialEq, Debug)]
pub struct Executable {
    pub id: i32,
    pub name: String,
    /// The command that is run.
    pub executable: String,
    /// `wait` or `detach`: whether the launcher blocks until the process ends.
    pub mode: String,
}

/// What an [`Executable`] row says.
pub struct ExecutableView {
    pub id: i32,
    pub name: Seq<char>,
    pub executable: Seq<char>,
    pub mode: Seq<char>,
}

impl View for Executable {
    type V = ExecutableView;

    open spec fn view(&self) -> ExecutableView {
        ExecutableView {
            id: self.id,
            name: self.name@,
            executable: self.executable@,
            mode: self.mode@,
        }
    }
}

impl DeepView for Executable {
    type V = ExecutableView;

    open spec fn deep_view(&self) -> ExecutableView {
        self@
    }
}

impl Clone for Executable {
    fn clone(&self) -> (r: Self)
        ensures
            r == *self,
    {
        Executable {
            id: self.id,
            name: self.name.clone(),
            executable: self.executable.clone(),
            mode: self.mode.clone(),
        }
    }
}

/// A named, reusable bundle of environment variables.
#[derive(PartialEq, Debug)]
pub struct GroupedEnvironment {
    pub id: i32,
    pub name: String,
}

/// What a [`GroupedEnvironment`] row says.
pub struct GroupedEnvironmentView {
    pub id: i32,
    pub name: Seq<char>,
}

impl View for GroupedEnvironment {
    type V = GroupedEnvironmentView;

    open spec fn view(&self) -> GroupedEnvironmentView {
        GroupedEnvironmentView { id: self.id, name: self.name@ }
    }
}

impl DeepView for GroupedEnvironment {
    type V = GroupedEnvironmentView;

    open spec fn deep_view(&self) -> GroupedEnvironmentView {
        self@
    }
}

impl Clone for GroupedEnvironment {
    fn clone(&self) -> (r: Self)
        ensures
            r == *self,
    {
        GroupedEnvironment { id: self.id, name: self.name.clone() }
    }
}

/// An environment variable: a name/value pair handed to a launched process.
/// Two rows may carry the same name and value.
#[derive(PartialEq, Eq, Hash, Debug)]
pub struct Environment {
    pub id: i32,
    pub name: String,
    pub value: String,
}

/// What an [`Environment`] row says.
pub struct EnvironmentView {
    pub id: i32,
    pub name: Seq<char>,
    pub value: Seq<char>,
}

impl View for Environment {
    type V = EnvironmentView;

    open spec fn view(&self) -> EnvironmentView {
        EnvironmentView { id: self.id, name: self.name@, value: self.value@ }
    }
}

impl DeepView for Environment {
    type V = EnvironmentView;

    open spec fn deep_view(&self) -> EnvironmentView {
        self@
    }
}

impl Clone for Environment {
    fn clone(&self) -> (r: Self)
        ensures
            r == *self,
    {
        Environment { id: self.id, name: self.name.clone(), value: self.value.clone() }
    }
}

/// Membership of a group in a configuration.
#[derive(Clone, Copy, PartialEq, Eq, Structural, Debug)]
pub struct GroupConfigLink {
    pub id: i32,
    pub group_id: i32,
    pub config_id: i32,
}

impl View for GroupConfigLink {
    type V = GroupConfigLink;

    open spec fn view(&self) -> GroupConfigLink {
        *self
    }
}

impl DeepView for GroupConfigLink {
    type V = GroupConfigLink;

    open spec fn deep_view(&self) -> GroupConfigLink {
        *self
    }
}

/// Membership of an environment variable in a group.
#[derive(Clone, Copy, PartialEq, Eq, Structural, Debug)]
pub struct GroupEnvsLink {
    pub id: i32,
    pub group_id: i32,
    pub env_id: i32,
}

impl View for GroupEnvsLink {
    type V = GroupEnvsLink;

    open spec fn view(&self) -> GroupEnvsLink {
        *self
    }
}

impl DeepView for GroupEnvsLink {
    type V = GroupEnvsLink;

    open spec fn deep_view(&self) -> GroupEnvsLink {
        *self
    }
}

/// A group with the environment variables linked to it, in the order of the
/// link rows.
#[derive(PartialEq, Debug)]
pub struct LinkedGroups {
    pub group: GroupedEnvironment,
    pub environments: Vec<Environment>,
}

/// What a [`LinkedGroups`] value says.
pub struct LinkedGroupsView {
    pub group: GroupedEnvironmentView,
    pub environments: Seq<EnvironmentView>,
}

impl View for LinkedGroups {
    type V = LinkedGroupsView;

    open spec fn view(&self) -> LinkedGroupsView {
        LinkedGroupsView {
            group: self.group@,
            environments: self.environments.deep_view(),
        }
    }
}

impl DeepView for LinkedGroups {
    type V = LinkedGroupsView;

    open spec fn deep_view(&self) -> LinkedGroupsView {
        self@
    }
}

impl Clone for LinkedGroups {
    fn clone(&self) -> (r: Self)
        ensures
            r@ == self@,
    {
        let r = LinkedGroups { group: self.group.clone(), environments: self.environments.clone() };
        r
    }
}

/// A configuration with its groups, in the order of the link rows, each with
/// its environment variables.
#[derive(PartialEq, Debug)]
pub struct LinkedConfiguration {
    pub configuration: Configuration,
    pub groups: Vec<LinkedGroups>,
}

/// What a [`LinkedConfiguration`] value says.
pub struct LinkedConfigurationView {
    pub configuration: ConfigurationView,
    pub groups: Seq<LinkedGroupsView>,
}

impl View for LinkedConfiguration {
    type V = LinkedConfigurationView;

    open spec fn view(&self) -> LinkedConfigurationView {
        LinkedConfigurationView {
            configuration: self.configuration@,
            groups: self.groups.deep_view(),
        }
    }
}

impl DeepView for LinkedConfiguration {
    type V = LinkedConfigurationView;

    open spec fn deep_view(&self) -> LinkedConfigurationView {
        self@
    }
}

/// A group-to-configuration link that is to be stored.
#[derive(Clone, Copy, Debug)]
pub struct GroupCfgLinkInsert<'a> {
    pub group_id: &'a i32,
    pub config_id: &'a i32,
}

/// A group-to-environment link that is to be stored.
#[derive(Clone, Copy, Debug)]
pub struct GroupEnvLinkInsert<'a> {
    pub group_id: &'a i32,
    pub env_id: &'a i32,
}

impl DeepView for GroupCfgLinkInsert<'_> {
    /// The group, then the configuration.
    type V = (i32, i32);

    open spec fn deep_view(&self) -> (i32, i32) {
        (*self.group_id, *self.config_id)
    }
}

impl DeepView for GroupEnvLinkInsert<'_> {
    /// The environment, then the group.
    type V = (i32, i32);

    open spec fn deep_view(&self) -> (i32, i32) {
        (*self.env_id, *self.group_id)
    }
}

/// A value that stands for a member of some owner, known by the identifier
/// of that member.
pub trait DbObject {
    /// The identifier under which the store knows the member.
    spec fn identity(&self) -> i32;

    /// The identifier under which the store knows the member.
    fn id(&self) -> (r: i32)
        ensures
            r == self.identity(),
    ;
}

impl DbObject for GroupCfgLinkInsert<'_> {
    open spec fn identity(&self) -> i32 {
        *self.group_id
    }

    fn id(&self) -> (r: i32) {
        *self.group_id
    }
}

impl DbObject for LinkedGroups {
    open spec fn identity(&self) -> i32 {
        self.group.id
    }

    fn id(&self) -> (r: i32) {
        self.group.id
    }
}

impl DbObject for Environment {
    open spec fn identity(&self) -> i32 {
        self.id
    }

    fn id(&self) -> (r: i32) {
        self.id
    }
}

impl DbObject for GroupEnvLinkInsert<'_> {
    open spec fn identity(&self) -> i32 {
        *self.env_id
    }

    fn id(&self) -> (r: i32) {
        *self.env_id
    }
}

impl DbObject for i32 {
    open spec fn identity(&self) -> i32 {
        *self
    }

    fn id(&self) -> (r: i32) {
        *self
    }
}

impl Clone for LinkedConfiguration {
    fn clone(&self) -> (r: Self)
        ensures
            r@ == self@,
    {
        let r = LinkedConfiguration {
            configuration: self.configuration.clone(),
            groups: self.groups.clone(),
        };
        r
    }
}

} // verus!
