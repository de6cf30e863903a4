use vimming::aggregate::{
    assemble, build, check_integrity, configuration_ids, configurations_of, distinct_group_ids,
    group_by_configuration, ConfigurationRow, EnvLinkRow, GroupLinkRow, IntegrityError, OwnedLink,
};
use vimming::models::{
    Configuration, Environment, Executable, GroupConfigLink, GroupEnvsLink, GroupedEnvironment,
    LinkedConfiguration, LinkedGroups,
};

fn cfg(id: i32, name: &str, executable_id: i32) -> Configuration {
    Configuration { id, name: name.to_string(), executable_id }
}

fn exe(id: i32) -> Executable {
    Executable {
        id,
        name: format!("exe{id}"),
        executable: format!("/bin/exe{id}"),
        mode: "wait".to_string(),
    }
}

fn root(id: i32, name: &str, executable_id: i32) -> ConfigurationRow {
    (cfg(id, name, executable_id), Some(exe(executable_id)))
}

fn group(id: i32, name: &str) -> GroupedEnvironment {
    GroupedEnvironment { id, name: name.to_string() }
}

fn env(id: i32, name: &str, value: &str) -> Environment {
    Environment { id, name: name.to_string(), value: value.to_string() }
}

fn link(id: i32, group_id: i32, config_id: i32, name: Option<&str>) -> GroupLinkRow {
    (GroupConfigLink { id, group_id, config_id }, name.map(|n| group(group_id, n)))
}

fn env_link(id: i32, group_id: i32, e: Option<Environment>) -> EnvLinkRow {
    let env_id = e.as_ref().map_or(-1, |e| e.id);
    (GroupEnvsLink { id, group_id, env_id }, e)
}

fn linked(g: GroupedEnvironment, environments: Vec<Environment>) -> LinkedGroups {
    LinkedGroups { group: g, environments }
}

#[test]
fn aggregate_is_complete() {
    let rows = vec![root(1, "work", 10), root(2, "play", 11)];
    let links = vec![
        link(100, 7, 1, Some("paths")),
        link(101, 8, 2, Some("colors")),
        link(102, 9, 1, Some("proxy")),
    ];
    let env_links = vec![
        env_link(200, 7, Some(env(50, "PATH", "/bin"))),
        env_link(201, 9, Some(env(51, "HTTP_PROXY", "p:80"))),
        env_link(202, 7, Some(env(52, "MANPATH", "/man"))),
        env_link(203, 8, Some(env(53, "TERM", "xterm"))),
    ];
    let got = build(&rows, &links, &env_links).unwrap();
    let want = vec![
        LinkedConfiguration {
            configuration: cfg(1, "work", 10),
            groups: vec![
                linked(group(7, "paths"), vec![env(50, "PATH", "/bin"), env(52, "MANPATH", "/man")]),
                linked(group(9, "proxy"), vec![env(51, "HTTP_PROXY", "p:80")]),
            ],
        },
        LinkedConfiguration {
            configuration: cfg(2, "play", 11),
            groups: vec![linked(group(8, "colors"), vec![env(53, "TERM", "xterm")])],
        },
    ];
    assert_eq!(got, want);
}

#[test]
fn aggregate_shares_groups_between_configurations() {
    let rows = vec![root(1, "a", 10), root(2, "b", 10), root(3, "c", 10)];
    let links = vec![
        link(100, 7, 1, Some("shared")),
        link(101, 7, 2, Some("shared")),
        link(102, 8, 2, Some("own")),
        link(103, 7, 3, Some("shared")),
    ];
    let env_links = vec![
        env_link(200, 7, Some(env(50, "X", "1"))),
        env_link(201, 8, Some(env(51, "Y", "2"))),
        env_link(202, 7, Some(env(52, "Z", "3"))),
    ];
    let got = build(&rows, &links, &env_links).unwrap();
    let shared = vec![env(50, "X", "1"), env(52, "Z", "3")];
    assert_eq!(got[0].groups.len(), 1);
    assert_eq!(got[1].groups.len(), 2);
    assert_eq!(got[2].groups.len(), 1);
    assert_eq!(got[0].groups[0].environments, shared);
    assert_eq!(got[1].groups[0].environments, shared);
    assert_eq!(got[2].groups[0].environments, shared);
    assert_eq!(got[1].groups[1].environments, vec![env(51, "Y", "2")]);
    assert_eq!(distinct_group_ids(&group_by_configuration(&configurations_of(&rows), &links)), vec![7, 8]);
}

#[test]
fn aggregate_drops_dangling_group_links() {
    let rows = vec![root(1, "a", 10)];
    let links = vec![
        link(100, 7, 1, Some("kept")),
        link(101, 8, 1, None),
        link(102, 9, 1, Some("also kept")),
    ];
    let env_links = vec![env_link(200, 8, Some(env(50, "X", "1")))];
    let got = build(&rows, &links, &env_links).unwrap();
    assert_eq!(got.len(), 1);
    let ids: Vec<i32> = got[0].groups.iter().map(|g| g.group.id).collect();
    assert_eq!(ids, vec![7, 9]);
    assert!(got[0].groups.iter().all(|g| g.environments.is_empty()));
}

#[test]
fn aggregate_drops_dangling_environment_links() {
    let rows = vec![root(1, "a", 10)];
    let links = vec![link(100, 7, 1, Some("g"))];
    let env_links = vec![
        env_link(200, 7, None),
        env_link(201, 7, Some(env(50, "X", "1"))),
        env_link(202, 7, None),
    ];
    let got = build(&rows, &links, &env_links).unwrap();
    assert_eq!(got[0].groups, vec![linked(group(7, "g"), vec![env(50, "X", "1")])]);
}

#[test]
fn aggregate_of_no_configurations_is_empty() {
    let links = vec![link(100, 7, 1, Some("g"))];
    let env_links = vec![env_link(200, 7, Some(env(50, "X", "1")))];
    assert_eq!(build(&vec![], &links, &env_links), Ok(vec![]));
    assert_eq!(build(&vec![], &vec![], &vec![]), Ok(vec![]));
}

#[test]
fn aggregate_configuration_without_groups() {
    let rows = vec![root(1, "lonely", 10)];
    let got = build(&rows, &vec![link(100, 7, 2, Some("other"))], &vec![]).unwrap();
    assert_eq!(got, vec![LinkedConfiguration { configuration: cfg(1, "lonely", 10), groups: vec![] }]);
    assert!(got[0].get_environments().is_empty());
}

#[test]
fn aggregate_group_without_environments() {
    let rows = vec![root(1, "a", 10)];
    let got = build(&rows, &vec![link(100, 7, 1, Some("empty"))], &vec![]).unwrap();
    assert_eq!(got[0].groups, vec![linked(group(7, "empty"), vec![])]);
}

#[test]
fn aggregate_ignores_rows_of_other_owners() {
    let rows = vec![root(2, "b", 10)];
    let links = vec![link(100, 7, 1, Some("not mine")), link(101, 8, 2, Some("mine"))];
    let env_links = vec![
        env_link(200, 7, Some(env(50, "X", "1"))),
        env_link(201, 8, Some(env(51, "Y", "2"))),
        env_link(202, 99, Some(env(52, "Z", "3"))),
    ];
    let got = build(&rows, &links, &env_links).unwrap();
    assert_eq!(got[0].groups, vec![linked(group(8, "mine"), vec![env(51, "Y", "2")])]);
}

#[test]
fn aggregate_keeps_row_order_and_repeated_links() {
    let rows = vec![root(2, "b", 10), root(1, "a", 10)];
    let links = vec![
        link(100, 9, 1, Some("nine")),
        link(101, 7, 1, Some("seven")),
        link(102, 9, 1, Some("nine")),
    ];
    let env_links = vec![
        env_link(200, 9, Some(env(50, "X", "1"))),
        env_link(201, 9, Some(env(50, "X", "1"))),
    ];
    let got = build(&rows, &links, &env_links).unwrap();
    assert_eq!(got[0].configuration.id, 2);
    assert!(got[0].groups.is_empty());
    let ids: Vec<i32> = got[1].groups.iter().map(|g| g.group.id).collect();
    assert_eq!(ids, vec![9, 7, 9]);
    assert_eq!(got[1].groups[0].environments, vec![env(50, "X", "1"), env(50, "X", "1")]);
    assert_eq!(got[1].groups[2].environments, got[1].groups[0].environments);
}

#[test]
fn aggregate_repeated_root_gets_its_groups_each_time() {
    let rows = vec![root(1, "a", 10), root(1, "a", 10)];
    let links = vec![link(100, 7, 1, Some("g"))];
    let got = build(&rows, &links, &vec![]).unwrap();
    assert_eq!(got.len(), 2);
    assert_eq!(got[0], got[1]);
    assert_eq!(got[0].groups.len(), 1);
}

#[test]
fn aggregate_reports_the_first_unsound_row() {
    let rows = vec![
        root(1, "fine", 10),
        (cfg(2, "broken", 11), Some(exe(12))),
        (cfg(3, "broken too", 13), None),
    ];
    let e = IntegrityError { configuration: 2, executable_id: 11, found: Some(12) };
    assert_eq!(check_integrity(&rows), Err(e));
    assert_eq!(build(&rows, &vec![], &vec![]), Err(e));
    assert_eq!(check_integrity(&vec![root(1, "fine", 10)]), Ok(()));
    assert_eq!(check_integrity(&vec![]), Ok(()));
}

#[test]
fn aggregate_never_passes_over_a_missing_executable() {
    let rows = vec![root(1, "fine", 10), (cfg(2, "dangling", 11), None), root(3, "fine", 12)];
    let e = IntegrityError { configuration: 2, executable_id: 11, found: None };
    assert_eq!(check_integrity(&rows), Err(e));
    assert_eq!(build(&rows, &vec![], &vec![]), Err(e));
}

#[test]
fn aggregate_stages() {
    let rows = vec![root(3, "c", 10), root(1, "a", 11)];
    let cfgs = configurations_of(&rows);
    assert_eq!(cfgs, vec![cfg(3, "c", 10), cfg(1, "a", 11)]);
    assert_eq!(configuration_ids(&cfgs), vec![3, 1]);
    let links = vec![
        link(100, 8, 1, Some("eight")),
        link(101, 7, 3, Some("seven")),
        link(102, 8, 3, Some("eight")),
        link(103, 6, 3, None),
    ];
    let entries = group_by_configuration(&cfgs, &links);
    assert_eq!(
        entries,
        vec![
            (cfg(3, "c", 10), vec![group(7, "seven"), group(8, "eight")]),
            (cfg(1, "a", 11), vec![group(8, "eight")]),
        ]
    );
    assert_eq!(distinct_group_ids(&entries), vec![7, 8]);
    let env_links = vec![env_link(200, 8, Some(env(50, "X", "1")))];
    let got = assemble(&entries, &env_links);
    assert_eq!(got[0].groups[0], linked(group(7, "seven"), vec![]));
    assert_eq!(got[0].groups[1], linked(group(8, "eight"), vec![env(50, "X", "1")]));
    assert_eq!(got[1].groups[0], linked(group(8, "eight"), vec![env(50, "X", "1")]));
    assert_eq!(Ok(got), build(&rows, &links, &env_links));
}

#[test]
fn aggregate_distinct_group_ids_in_order_of_first_appearance() {
    let entries = vec![
        (cfg(1, "a", 10), vec![group(9, "n"), group(7, "s"), group(9, "n")]),
        (cfg(2, "b", 10), vec![]),
        (cfg(3, "c", 10), vec![group(7, "s"), group(8, "e"), group(9, "n")]),
    ];
    assert_eq!(distinct_group_ids(&entries), vec![9, 7, 8]);
    assert_eq!(distinct_group_ids(&vec![]), Vec::<i32>::new());
}

#[test]
fn aggregate_handles_extreme_identifiers() {
    let rows = vec![root(i32::MIN, "min", i32::MAX), root(i32::MAX, "max", i32::MIN)];
    let links = vec![
        link(1, i32::MAX, i32::MIN, Some("top")),
        link(2, i32::MIN, i32::MAX, Some("bottom")),
    ];
    let env_links = vec![
        env_link(1, i32::MIN, Some(env(0, "A", "b"))),
        env_link(2, i32::MAX, Some(env(-1, "C", "d"))),
    ];
    let got = build(&rows, &links, &env_links).unwrap();
    assert_eq!(got[0].groups, vec![linked(group(i32::MAX, "top"), vec![env(-1, "C", "d")])]);
    assert_eq!(got[1].groups, vec![linked(group(i32::MIN, "bottom"), vec![env(0, "A", "b")])]);
}

#[test]
fn links_name_their_owner() {
    assert_eq!(GroupConfigLink { id: 1, group_id: 2, config_id: 3 }.owner(), 3);
    assert_eq!(GroupEnvsLink { id: 1, group_id: 2, env_id: 3 }.owner(), 2);
}

fn next(state: &mut u64) -> i32 {
    *state = state.wrapping_mul(6364136223846793005).wrapping_add(1442695040888963407);
    ((*state >> 33) % 7) as i32
}

#[test]
fn aggregate_agrees_with_nested_loops() {
    let mut state = 7u64;
    for round in 0..200 {
        let rows: Vec<ConfigurationRow> = (0..next(&mut state))
            .map(|k| root(if round % 2 == 0 { k } else { next(&mut state) }, "c", 1))
            .collect();
        let links: Vec<GroupLinkRow> = (0..3 * next(&mut state))
            .map(|k| {
                let (g, c) = (next(&mut state), next(&mut state));
                link(k, g, c, if next(&mut state) == 0 { None } else { Some("g") })
            })
            .collect();
        let env_links: Vec<EnvLinkRow> = (0..3 * next(&mut state))
            .map(|k| {
                let g = next(&mut state);
                let e = if next(&mut state) == 0 { None } else { Some(env(k, "N", "v")) };
                env_link(k, g, e)
            })
            .collect();
        let want: Vec<LinkedConfiguration> = rows
            .iter()
            .map(|(c, _)| LinkedConfiguration {
                configuration: c.clone(),
                groups: links
                    .iter()
                    .filter(|(l, _)| l.config_id == c.id)
                    .filter_map(|(_, g)| g.clone())
                    .map(|g| LinkedGroups {
                        environments: env_links
                            .iter()
                            .filter(|(l, _)| l.group_id == g.id)
                            .filter_map(|(_, e)| e.clone())
                            .collect(),
                        group: g,
                    })
                    .collect(),
            })
            .collect();
        assert_eq!(build(&rows, &links, &env_links), Ok(want), "round {round}");
    }
}
