use mod_manager::config::{CommandConfig, GameConfig, ModSetConfig};
use mod_manager::env_map::EnvMap;
use mod_manager::external_command::ExternalCommand;
use mod_manager::mod_set::ModSet;

fn set_config(
    mods: &[&str],
    command: Option<&str>,
    writable: Option<bool>,
    run_pre_command: Option<bool>,
) -> ModSetConfig {
    ModSetConfig {
        run_pre_command,
        command: command.map(|c| c.to_string()),
        mods: mods.iter().map(|m| m.to_string()).collect(),
        writable,
        environment: EnvMap::new(),
    }
}

fn command_config(args: &[&str]) -> CommandConfig {
    CommandConfig {
        wait_for_exit: None,
        delay_after: None,
        command: args.iter().map(|a| a.to_string()).collect(),
        environment: EnvMap::new(),
    }
}

fn game_config(
    sets: Vec<(&str, ModSetConfig)>,
    commands: Vec<(&str, CommandConfig)>,
) -> GameConfig {
    GameConfig {
        active: None,
        path: None,
        mod_root_path: None,
        writable: None,
        run_pre_command: None,
        pre_command: Vec::new(),
        commands: commands.into_iter().map(|(n, c)| (n.to_string(), c)).collect(),
        sets: sets.into_iter().map(|(n, c)| (n.to_string(), c)).collect(),
    }
}

fn strings(items: &[&str]) -> Vec<String> {
    items.iter().map(|s| s.to_string()).collect()
}

#[test]
fn parsing() {
    let config = game_config(
        vec![
            (
                "set1",
                set_config(&["set2", "mod 1", "mod 2"], Some("asd"), Some(true), Some(true)),
            ),
            ("set2", set_config(&["mod 1", "mod, 3"], None, None, None)),
        ],
        vec![("asd", command_config(&["echo", "asd"]))],
    );
    let set1 = set_config(&["set2", "mod 1", "mod 2"], Some("asd"), Some(true), Some(true));
    let existing = strings(&["mod 1", "mod 2", "mod, 3"]);

    assert!(
        ModSet::from_config(
            "set1",
            &set1,
            "test_game".to_owned(),
            &config,
            &Vec::new(),
            &existing,
        )
        .is_ok()
    );
}

#[test]
fn mods_recursion() {
    let config = game_config(
        vec![
            ("set1", set_config(&["set2"], None, None, None)),
            ("set2", set_config(&["set1"], None, None, None)),
        ],
        vec![],
    );
    let set1 = set_config(&["set2"], None, None, None);

    assert!(
        ModSet::from_config(
            "set1",
            &set1,
            "test_game".to_owned(),
            &config,
            &Vec::new(),
            &Vec::new(),
        )
        .is_err()
    );
}

#[test]
fn mods_empty() {
    let config = game_config(vec![("set1", set_config(&[], None, None, None))], vec![]);
    let set1 = set_config(&[], None, None, None);

    assert!(
        ModSet::from_config(
            "set1",
            &set1,
            "test_game".to_owned(),
            &config,
            &Vec::new(),
            &Vec::new(),
        )
        .is_err()
    );
}

#[test]
fn special_command_unavailable() {
    // `asd` is referenced but not in the shared command table: construction
    // fails rather than deferring the unresolved name.
    let config = game_config(
        vec![("set1", set_config(&["set2"], Some("asd"), None, None))],
        vec![],
    );
    let set1 = set_config(&["set2"], Some("asd"), None, None);
    let existing = strings(&["set2"]);

    assert!(
        ModSet::from_config(
            "set1",
            &set1,
            "test_game".to_owned(),
            &config,
            &Vec::new(),
            &existing,
        )
        .is_err()
    );
}

#[test]
fn get_commands() {
    let config = game_config(
        vec![
            ("set1", set_config(&["set2"], Some("asd"), None, None)),
            ("set2", set_config(&["mod 1"], Some("dsa"), None, None)),
        ],
        vec![
            ("asd", command_config(&["echo", "asd"])),
            ("dsa", command_config(&["ls", "test"])),
        ],
    );
    let set1 = set_config(&["set2"], Some("asd"), None, None);
    let existing = strings(&["mod 1"]);

    let mod_set = ModSet::from_config(
        "set1",
        &set1,
        "test_game".to_owned(),
        &config,
        &Vec::new(),
        &existing,
    )
    .unwrap();

    let mut mod_set_commands: Vec<ExternalCommand> = vec![];
    mod_set.get_commands(&mut mod_set_commands);

    // children before self: the nested set's command first, the root's last
    let expected_ids = ["ls", "echo"];
    assert_eq!(mod_set_commands.len(), expected_ids.len());
    for (i, command) in mod_set_commands.iter().enumerate() {
        assert_eq!(command.get_id().as_str(), expected_ids[i]);
    }
}

#[test]
fn commands_deduplicated_at_child_position() {
    // both the nested set and the root reference the same command identity:
    // it appears exactly once, at the child's position
    let config = game_config(
        vec![
            ("set1", set_config(&["set2"], Some("asd"), None, None)),
            ("set2", set_config(&["mod 1"], Some("asd"), None, None)),
        ],
        vec![("asd", command_config(&["echo", "asd"]))],
    );
    let set1 = set_config(&["set2"], Some("asd"), None, None);
    let existing = strings(&["mod 1"]);

    let mod_set = ModSet::from_config(
        "set1",
        &set1,
        "test_game".to_owned(),
        &config,
        &Vec::new(),
        &existing,
    )
    .unwrap();

    let mut commands: Vec<ExternalCommand> = vec![];
    mod_set.get_commands(&mut commands);
    assert_eq!(commands.len(), 1);
    assert_eq!(commands[0].get_id().as_str(), "echo");
}

#[test]
fn get_mount_string() {
    let config = game_config(
        vec![
            ("set1", set_config(&["set2", "mod 1", "mod 2"], None, None, None)),
            ("set2", set_config(&["mod 1", "mod, 3"], None, None, None)),
        ],
        vec![],
    );
    let set1 = set_config(&["set2", "mod 1", "mod 2"], None, None, None);
    let existing = strings(&["mod 1", "mod 2", "mod, 3"]);
    let root_path = "test/mod, root";

    let mod1_path = format!("{}/{}", root_path, "mod 1").replace(",", r#"\,"#);
    let mod2_path = format!("{}/{}", root_path, "mod 2").replace(",", r#"\,"#);
    let mod3_path = format!("{}/{}", root_path, "mod, 3").replace(",", r#"\,"#);
    let expected = format!(
        ",lowerdir+={},lowerdir+={},lowerdir+={}",
        mod1_path, mod3_path, mod2_path
    );

    let mod_set = ModSet::from_config(
        "set1",
        &set1,
        "test_game".to_owned(),
        &config,
        &Vec::new(),
        &existing,
    )
    .unwrap();

    let mut mount_string = String::new();
    mod_set.get_mount_string(root_path, &mut mount_string);
    assert_eq!(mount_string, expected);
}

#[test]
fn ordering_nested_first_with_dedup() {
    // S1 = [S2, "mod1", "mod2"], S2 = ["mod1", "mod3"]: the flattened layer
    // order is mod1 (from S2), mod3, mod1 (skipped), mod2
    let config = game_config(
        vec![
            ("s1", set_config(&["s2", "mod1", "mod2"], None, None, None)),
            ("s2", set_config(&["mod1", "mod3"], None, None, None)),
        ],
        vec![],
    );
    let s1 = set_config(&["s2", "mod1", "mod2"], None, None, None);
    let existing = strings(&["mod1", "mod2", "mod3"]);

    let mod_set =
        ModSet::from_config("s1", &s1, "g".to_owned(), &config, &Vec::new(), &existing).unwrap();

    let mut mount_string = String::new();
    mod_set.get_mount_string("root", &mut mount_string);
    assert_eq!(
        mount_string,
        ",lowerdir+=root/mod1,lowerdir+=root/mod3,lowerdir+=root/mod2"
    );
}

#[test]
fn diamond_contributes_leaf_once() {
    // a non-cyclic diamond: both the root and the nested set include the
    // same leaf; it succeeds and contributes the leaf's layer exactly once
    let config = game_config(
        vec![
            ("a", set_config(&["b", "modC"], None, None, None)),
            ("b", set_config(&["modC"], None, None, None)),
        ],
        vec![],
    );
    let a = set_config(&["b", "modC"], None, None, None);
    let existing = strings(&["modC"]);

    let mod_set =
        ModSet::from_config("a", &a, "g".to_owned(), &config, &Vec::new(), &existing).unwrap();

    let mut mount_string = String::new();
    mod_set.get_mount_string("root", &mut mount_string);
    assert_eq!(mount_string, ",lowerdir+=root/modC");
    assert_eq!(mount_string.matches("root/modC").count(), 1);
}

#[test]
fn self_reference_fails() {
    let config = game_config(vec![("a", set_config(&["a"], None, None, None))], vec![]);
    let a = set_config(&["a"], None, None, None);

    let r = ModSet::from_config("a", &a, "g".to_owned(), &config, &Vec::new(), &Vec::new());
    match r {
        Err(msg) => assert!(msg.contains("Recursion")),
        Ok(_) => panic!("self-reference must fail construction"),
    }
}

#[test]
fn missing_leaf_folder_fails() {
    let config = game_config(vec![("a", set_config(&["nope"], None, None, None))], vec![]);
    let a = set_config(&["nope"], None, None, None);

    let r = ModSet::from_config("a", &a, "g".to_owned(), &config, &Vec::new(), &Vec::new());
    match r {
        Err(msg) => assert!(msg.contains("does not exist")),
        Ok(_) => panic!("an absent leaf folder must fail construction"),
    }
}

#[test]
fn environment_child_overrides_parent() {
    // S1 sets X=1 directly; its nested set S2 sets X=2: the merged
    // environment for S1 has X=2
    let mut env1 = EnvMap::new();
    env1.insert("X".to_string(), "1".to_string());
    let mut env2 = EnvMap::new();
    env2.insert("X".to_string(), "2".to_string());

    let s1 = ModSetConfig {
        run_pre_command: None,
        command: None,
        mods: vec!["s2".to_string()],
        writable: None,
        environment: env1,
    };
    let s2 = ModSetConfig {
        run_pre_command: None,
        command: None,
        mods: vec!["m".to_string()],
        writable: None,
        environment: env2,
    };
    let config = game_config(vec![], vec![]);
    let config = GameConfig {
        sets: vec![("s1".to_string(), s1.clone()), ("s2".to_string(), s2)],
        ..config
    };
    let existing = strings(&["m"]);

    let mod_set =
        ModSet::from_config("s1", &s1, "g".to_owned(), &config, &Vec::new(), &existing).unwrap();
    let env = mod_set.get_environment();
    assert_eq!(env.get("X").unwrap().as_str(), "2");
}

#[test]
fn flags_aggregate_from_descendants() {
    let config = game_config(
        vec![
            ("s1", set_config(&["s2"], None, None, None)),
            ("s2", set_config(&["m"], None, Some(true), Some(true))),
        ],
        vec![],
    );
    let s1 = set_config(&["s2"], None, None, None);
    let existing = strings(&["m"]);

    let mod_set =
        ModSet::from_config("s1", &s1, "g".to_owned(), &config, &Vec::new(), &existing).unwrap();
    assert!(mod_set.should_be_writable());
    assert!(mod_set.should_run_pre_commands());

    let plain = set_config(&["m"], None, None, None);
    let config2 = game_config(vec![("p", set_config(&["m"], None, None, None))], vec![]);
    let plain_set =
        ModSet::from_config("p", &plain, "g".to_owned(), &config2, &Vec::new(), &existing)
            .unwrap();
    assert!(!plain_set.should_be_writable());
    assert!(!plain_set.should_run_pre_commands());
}

#[test]
fn contains_finds_direct_and_nested_names() {
    let config = game_config(
        vec![
            ("s1", set_config(&["s2", "top"], None, None, None)),
            ("s2", set_config(&["deep"], None, None, None)),
        ],
        vec![],
    );
    let s1 = set_config(&["s2", "top"], None, None, None);
    let existing = strings(&["top", "deep"]);

    let mod_set =
        ModSet::from_config("s1", &s1, "g".to_owned(), &config, &Vec::new(), &existing).unwrap();
    assert!(mod_set.contains("top".to_string()));
    assert!(mod_set.contains("s2".to_string()));
    assert!(mod_set.contains("deep".to_string()));
    assert!(!mod_set.contains("absent".to_string()));
}
