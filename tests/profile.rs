use ghr::profile::{ConfigValue, Configs};

fn config_value(v: &toml::Value) -> ConfigValue {
    match v {
        toml::Value::String(s) => ConfigValue::Text(s.clone()),
        toml::Value::Table(t) => {
            ConfigValue::Table(t.iter().map(|(k, v)| (k.clone(), config_value(v))).collect())
        }
        _ => ConfigValue::Other,
    }
}

#[test]
fn load_git_configs() {
    let toml = r#"
        user.name = "User Taro"
        user.email = "taro@example.com"
        user.signingkey = "ABCDEFGHIJKLMNOP"
        "#;

    let table = toml::from_str::<toml::Table>(toml).unwrap();
    let mut configs = Configs::new();
    for (key, value) in table.iter() {
        configs.extend_from_toml(&config_value(value), key);
    }

    assert_eq!("User Taro", configs.get("user.name").unwrap().as_str());
    assert_eq!(
        "taro@example.com",
        configs.get("user.email").unwrap().as_str(),
    );
    assert_eq!(
        "ABCDEFGHIJKLMNOP",
        configs.get("user.signingkey").unwrap().as_str(),
    );
}
