use mod_manager::config::CommandConfig;
use mod_manager::env_map::EnvMap;
use mod_manager::external_command::ExternalCommand;

fn config(args: &[&str]) -> CommandConfig {
    CommandConfig {
        wait_for_exit: None,
        delay_after: None,
        command: args.iter().map(|a| a.to_string()).collect(),
        environment: EnvMap::new(),
    }
}

#[test]
fn from_config_rejects_empty_command_array() {
    assert!(ExternalCommand::from_config(&config(&[])).is_err());
    assert!(ExternalCommand::from_config(&config(&["echo"])).is_ok());
}

#[test]
fn id_is_the_executable() {
    let cmd = ExternalCommand::from_config(&config(&["echo", "asd"])).unwrap();
    assert_eq!(cmd.get_id().as_str(), "echo");
    assert_eq!(cmd.command_args(), &vec!["echo".to_string(), "asd".to_string()]);
}

#[test]
fn delay_and_wait_defaults() {
    let cmd = ExternalCommand::from_config(&config(&["echo"])).unwrap();
    assert_eq!(cmd.get_delay(), 0);
    assert!(!cmd.has_delay());
    assert!(!cmd.get_wait_for_exit());

    let mut cfg = config(&["echo"]);
    cfg.delay_after = Some(4);
    cfg.wait_for_exit = Some(true);
    let cmd = ExternalCommand::from_config(&cfg).unwrap();
    assert_eq!(cmd.get_delay(), 4);
    assert!(cmd.has_delay());
    assert!(cmd.get_wait_for_exit());

    let mut cfg = config(&["echo"]);
    cfg.wait_for_exit = Some(false);
    let cmd = ExternalCommand::from_config(&cfg).unwrap();
    assert!(!cmd.get_wait_for_exit());
}

#[test]
fn add_environment_variables_overwrites() {
    let mut cfg = config(&["echo"]);
    cfg.environment.insert("A".to_string(), "1".to_string());
    cfg.environment.insert("B".to_string(), "2".to_string());
    let mut cmd = ExternalCommand::from_config(&cfg).unwrap();

    let mut extra = EnvMap::new();
    extra.insert("B".to_string(), "9".to_string());
    extra.insert("C".to_string(), "3".to_string());
    cmd.add_environment_variables(&extra);

    let env = cmd.environment();
    assert_eq!(env.get("A").unwrap().as_str(), "1");
    assert_eq!(env.get("B").unwrap().as_str(), "9");
    assert_eq!(env.get("C").unwrap().as_str(), "3");
}
