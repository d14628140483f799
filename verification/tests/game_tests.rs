use mod_manager::config::{CommandConfig, GameConfig, ModSetConfig};
use mod_manager::env_map::EnvMap;
use mod_manager::external_command::ExternalCommand;
use mod_manager::game::{initial_config_content, is_game_config_name, parse_pid, Game, GameError};

fn set_config(mods: &[&str]) -> ModSetConfig {
    ModSetConfig {
        run_pre_command: None,
        command: None,
        mods: mods.iter().map(|m| m.to_string()).collect(),
        writable: None,
        environment: EnvMap::new(),
    }
}

fn get_test_config() -> GameConfig {
    GameConfig {
        active: Some("set1".to_string()),
        path: Some("test/game, asd".to_string()),
        mod_root_path: Some("test/mod, root".to_string()),
        writable: None,
        run_pre_command: None,
        pre_command: Vec::new(),
        commands: Vec::new(),
        sets: vec![
            ("set1".to_string(), set_config(&["mod 1", "mod 2", "mod, 3"])),
            ("set2".to_string(), set_config(&["mod 1"])),
        ],
    }
}

fn existing_mods() -> Vec<String> {
    vec!["mod 1".to_string(), "mod 2".to_string(), "mod, 3".to_string()]
}

fn make_game(set_override: Option<&str>) -> Game {
    Game::from_config(
        "test, game".to_string(),
        set_override.map(|s| s.to_string()),
        get_test_config(),
        None,
        None,
        &existing_mods(),
        String::new(),
        String::new(),
    )
    .unwrap()
}

#[test]
fn mount_path_default_set() {
    let game = make_game(None);
    let mount_string = game.get_mount_string(false, false, "", "", "");

    let game_path = "test/game, asd".replace(",", r#"\,"#);
    let root_path = "test/mod, root";
    let mod1_path = format!("{}/mod 1", root_path).replace(",", r#"\,"#);
    let mod2_path = format!("{}/mod 2", root_path).replace(",", r#"\,"#);
    let mod3_path = format!("{}/mod, 3", root_path).replace(",", r#"\,"#);
    let mnt_string = format!(
        "x-gvfs-hide,comment=x-gvfs-hide,lowerdir+={},lowerdir+={},lowerdir+={},lowerdir+={}_mod-manager",
        mod1_path, mod2_path, mod3_path, game_path
    );

    assert_eq!(mnt_string, mount_string);
}

#[test]
fn mount_path_set_override() {
    let game = make_game(Some("set2"));
    let mount_string = game.get_mount_string(false, false, "", "", "");

    let game_path = "test/game, asd".replace(",", r#"\,"#);
    let mod1_path = "test/mod, root/mod 1".replace(",", r#"\,"#);
    let mnt_string = format!(
        "x-gvfs-hide,comment=x-gvfs-hide,lowerdir+={},lowerdir+={}_mod-manager",
        mod1_path, game_path
    );

    assert_eq!(mnt_string, mount_string);
}

#[test]
fn mount_path_empty_set_override() {
    let game = make_game(Some(""));
    let dummy = "test/cache, home/mod-manager_empty_dummy";
    let mount_string = game.get_mount_string(false, false, "", "", dummy);

    let game_path = "test/game, asd".replace(",", r#"\,"#);
    let dummy_path = dummy.replace(",", r#"\,"#);
    let mnt_string = format!(
        "x-gvfs-hide,comment=x-gvfs-hide,lowerdir+={}_mod-manager,lowerdir+={}",
        game_path, dummy_path
    );

    assert_eq!(mnt_string, mount_string);
}

#[test]
fn mount_path_writable_appends_upper_and_work() {
    let game = make_game(None);
    let mount_string = game.get_mount_string(true, false, "cache/upper", "cache/work", "");
    assert!(mount_string.ends_with(",upperdir=cache/upper,workdir=cache/work,index=off,metacopy=off"));
    assert!(game.needs_writable(true));
    assert!(!game.needs_writable(false));
}

#[test]
fn from_config_without_path_fails() {
    let mut config = get_test_config();
    config.path = None;
    let r = Game::from_config(
        "g".to_string(),
        None,
        config,
        None,
        None,
        &existing_mods(),
        String::new(),
        String::new(),
    );
    assert!(r.is_err());
}

#[test]
fn from_config_default_root_joins_id() {
    let mut config = get_test_config();
    config.path = None;
    config.active = None;
    let game = Game::from_config(
        "g".to_string(),
        None,
        config,
        Some("games".to_string()),
        None,
        &existing_mods(),
        String::new(),
        String::new(),
    )
    .unwrap();
    assert_eq!(game.overlay.path, "games/g");
    assert_eq!(game.overlay.moved_path, "games/g_mod-manager");
}

#[test]
fn from_config_unknown_set_fails() {
    let r = Game::from_config(
        "g".to_string(),
        Some("nope".to_string()),
        get_test_config(),
        None,
        None,
        &existing_mods(),
        String::new(),
        String::new(),
    );
    assert!(r.is_err());
}

#[test]
fn persistent_dir_name_branches() {
    let game = make_game(None);
    assert_eq!(game.persistent_dir_name(true), "persistent_setup");
    assert_eq!(game.persistent_dir_name(false), "set1_persistent");

    let no_tree = make_game(Some(""));
    assert_eq!(no_tree.persistent_dir_name(false), "persistent_modless");
}

#[test]
fn mod_root_path_fallbacks() {
    let game = make_game(None);
    assert_eq!(game.get_mod_root_path(), "test/mod, root");

    let mut config = get_test_config();
    config.mod_root_path = None;
    config.active = None;
    let game2 = Game::from_config(
        "g".to_string(),
        None,
        config,
        None,
        Some("mods".to_string()),
        &existing_mods(),
        String::new(),
        "data".to_string(),
    )
    .unwrap();
    assert_eq!(game2.get_mod_root_path(), "mods/g");

    let mut config3 = get_test_config();
    config3.mod_root_path = None;
    config3.active = None;
    let game3 = Game::from_config(
        "g".to_string(),
        None,
        config3,
        None,
        None,
        &existing_mods(),
        String::new(),
        "data".to_string(),
    )
    .unwrap();
    assert_eq!(game3.get_mod_root_path(), "data");
}

#[test]
fn collect_pre_commands_respects_flag() {
    let mut config = get_test_config();
    config.run_pre_command = Some(true);
    config.pre_command = vec![
        CommandConfig {
            wait_for_exit: None,
            delay_after: None,
            command: vec!["echo".to_string(), "hi".to_string()],
            environment: EnvMap::new(),
        },
        CommandConfig {
            wait_for_exit: None,
            delay_after: None,
            command: Vec::new(),
            environment: EnvMap::new(),
        },
    ];
    let game = Game::from_config(
        "g".to_string(),
        Some("".to_string()),
        config,
        None,
        None,
        &existing_mods(),
        String::new(),
        String::new(),
    )
    .unwrap();

    let tree_cmd = ExternalCommand::from_config(&CommandConfig {
        wait_for_exit: None,
        delay_after: None,
        command: vec!["ls".to_string()],
        environment: EnvMap::new(),
    })
    .unwrap();

    // enabled: own valid pre-command first (the empty one skipped), then the
    // tree's commands
    let commands = game.collect_pre_commands(vec![tree_cmd.clone()]);
    assert_eq!(commands.len(), 2);
    assert_eq!(commands[0].get_id().as_str(), "echo");
    assert_eq!(commands[1].get_id().as_str(), "ls");

    // disabled: only the tree's commands
    let off = make_game(Some(""));
    let commands = off.collect_pre_commands(vec![tree_cmd]);
    assert_eq!(commands.len(), 1);
    assert_eq!(commands[0].get_id().as_str(), "ls");
}

#[test]
fn game_flags_aggregate() {
    let mut config = get_test_config();
    config.writable = Some(true);
    config.run_pre_command = Some(false);
    let game = Game::from_config(
        "g".to_string(),
        None,
        config,
        None,
        None,
        &existing_mods(),
        String::new(),
        String::new(),
    )
    .unwrap();
    assert!(game.should_be_writable());
    assert!(!game.should_run_pre_commands());
}

#[test]
fn parse_pid_accepts_decimal_digits() {
    assert_eq!(parse_pid("123"), Some(123));
    assert_eq!(parse_pid("0"), Some(0));
    assert_eq!(parse_pid("007"), Some(7));
    assert_eq!(parse_pid("2147483647"), Some(2147483647));
}

#[test]
fn parse_pid_rejects_everything_else() {
    assert_eq!(parse_pid(""), None);
    assert_eq!(parse_pid("12a"), None);
    assert_eq!(parse_pid("-5"), None);
    assert_eq!(parse_pid(" 3"), None);
    assert_eq!(parse_pid("2147483648"), None);
    assert_eq!(parse_pid("99999999999999999999"), None);
}

#[test]
fn game_error_describe() {
    let e = GameError::new("fs".to_string(), "g".to_string(), "boom".to_string());
    assert_eq!(
        e.describe(),
        "GameError { kind: fs, overlay: g, message: boom }"
    );
}

#[test]
fn game_config_name_filter() {
    assert!(is_game_config_name("quake.toml"));
    assert!(is_game_config_name("a.toml"));
    assert!(!is_game_config_name("config.toml"));
    assert!(!is_game_config_name("quake.json"));
    assert!(!is_game_config_name("toml"));
    assert!(!is_game_config_name(""));
}

#[test]
fn initial_config_template() {
    let root = "the/mods".to_string();
    assert_eq!(
        initial_config_content("some/path", Some(&root)),
        "path = \"some/path\"\nmod_root_path = \"the/mods\"\n\n[\"set id\"]\nmods = [\n    \"mod id\",\n]\n"
    );
    assert_eq!(
        initial_config_content("p", None),
        "path = \"p\"\n\n[\"set id\"]\nmods = [\n    \"mod id\",\n]\n"
    );
}
