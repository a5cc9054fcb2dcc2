use fastsave::{candidate_paths, FastsaveConfig, StringMap};

fn config(pairs: &[(&str, &str)]) -> FastsaveConfig {
    let mut map = StringMap::new();
    for (extension, interpreter) in pairs {
        map.insert(extension.to_string(), interpreter.to_string());
    }
    FastsaveConfig::new(map)
}

#[test]
fn default_config_maps_nothing() {
    let empty = FastsaveConfig::default();
    assert!(empty.interpreters().pairs().is_empty());
    assert_eq!(empty.get_interpreter("py"), None);
}

#[test]
fn extension_is_looked_up_in_lower_case_without_dots() {
    let c = config(&[("py", "python3"), ("custom", "custominterpreter")]);
    assert_eq!(c.get_interpreter("py"), Some(&"python3".to_string()));
    assert_eq!(c.get_interpreter(".py"), Some(&"python3".to_string()));
    assert_eq!(c.get_interpreter("..PY"), Some(&"python3".to_string()));
    assert_eq!(c.get_interpreter("Custom"), Some(&"custominterpreter".to_string()));
    assert_eq!(c.get_interpreter("sh"), None);
    assert_eq!(c.get_interpreter("py."), None);
}

#[test]
fn lookup_takes_the_key_as_it_stands() {
    let c = config(&[("py", "python3")]);
    assert_eq!(c.lookup("py"), Some(&"python3".to_string()));
    assert_eq!(c.lookup("PY"), None);
    assert_eq!(c.lookup(".py"), None);
}

#[test]
fn keys_in_upper_case_are_never_found() {
    let c = config(&[("PY", "python2")]);
    assert_eq!(c.get_interpreter("PY"), None);
    assert_eq!(c.get_interpreter("py"), None);
}

#[test]
fn custom_config_wins_over_fixed_locations() {
    let loaded = FastsaveConfig::load_with_config_path(
        Some(config(&[("py", "custom")])),
        vec![Some(config(&[("py", "local")])), Some(config(&[("py", "user")]))],
    );
    assert_eq!(loaded.get_interpreter("py"), Some(&"custom".to_string()));
}

#[test]
fn first_fixed_location_that_loaded_wins() {
    let loaded = FastsaveConfig::load_with_config_path(
        None,
        vec![Some(config(&[("py", "local")])), Some(config(&[("py", "user")]))],
    );
    assert_eq!(loaded.get_interpreter("py"), Some(&"local".to_string()));
    let loaded =
        FastsaveConfig::load_with_config_path(None, vec![None, Some(config(&[("py", "user")]))]);
    assert_eq!(loaded.get_interpreter("py"), Some(&"user".to_string()));
    let loaded = FastsaveConfig::load(vec![None, Some(config(&[("sh", "bash")])), None]);
    assert_eq!(loaded.get_interpreter("sh"), Some(&"bash".to_string()));
}

#[test]
fn nothing_loaded_gives_the_empty_config() {
    let loaded = FastsaveConfig::load_with_config_path(None, vec![None, None]);
    assert!(loaded.interpreters().pairs().is_empty());
    let loaded = FastsaveConfig::load(Vec::new());
    assert!(loaded.interpreters().pairs().is_empty());
}

#[test]
fn candidate_paths_without_custom_path() {
    let paths = candidate_paths(None);
    assert_eq!(paths.len(), 2);
    assert_eq!(paths[0], "fastsave.yaml");
    assert!(paths[1].ends_with("/.config/fastsave/config.yaml"));
}

#[test]
fn candidate_paths_put_the_custom_path_first() {
    let paths = candidate_paths(Some("/etc/fastsave/custom_config.yaml"));
    assert_eq!(paths.len(), 3);
    assert_eq!(paths[0], "/etc/fastsave/custom_config.yaml");
    assert_eq!(paths[1], "fastsave.yaml");
    assert!(paths[2].ends_with("/.config/fastsave/config.yaml"));
}

#[test]
fn tilde_inside_a_path_is_left_alone() {
    let paths = candidate_paths(Some("conf/~user.yaml"));
    assert_eq!(paths[0], "conf/~user.yaml");
    let paths = candidate_paths(Some("~other/conf.yaml"));
    assert_eq!(paths[0], "~other/conf.yaml");
    let paths = candidate_paths(Some("~/conf.yaml"));
    assert!(paths[0].ends_with("/conf.yaml"));
}
