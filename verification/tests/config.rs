use fin::config::{default_config, Config};

/// The configuration as the lines of a configuration file.
fn written(config: &Config) -> String {
    let mut table = toml::Table::new();
    table.insert(
        String::from("install_dir"),
        toml::Value::String(config.install_dir.clone()),
    );
    table.insert(
        String::from("cache_timeout"),
        toml::Value::Integer(config.cache_timeout as i64),
    );
    table.insert(
        String::from("verbose_mode"),
        toml::Value::Boolean(config.verbose_mode),
    );
    table.insert(
        String::from("verbose_files"),
        toml::Value::Boolean(config.verbose_files),
    );
    table.insert(
        String::from("verbose_list"),
        toml::Value::Boolean(config.verbose_list),
    );
    table.insert(
        String::from("verbose_urls"),
        toml::Value::Boolean(config.verbose_urls),
    );
    toml::to_string(&table).unwrap()
}

#[test]
fn valid_default_config() {
    let cmp_lines = written(&Config::default());
    let cmp_lines = cmp_lines.lines();

    println!(
        "Expected:\n{}\nProvided:\n{}",
        cmp_lines
            .clone()
            .map(|line| " > ".to_owned() + line + "\n")
            .collect::<String>(),
        default_config()
            .lines()
            .map(|line| " > ".to_owned() + line + "\n")
            .collect::<String>()
    );

    let mut count = 0;
    for line in default_config().lines() {
        for cmp_line in cmp_lines.clone() {
            let mut components = cmp_line.split('=');
            if let (Some(key), Some(value)) = (components.next(), components.next()) {
                let cmp = &format!("{key}={value}");
                if line.replace("# ", "").starts_with(cmp) {
                    count += 1;
                } else if line.starts_with(key) {
                    println!(
                        "Non-match:\n	{} <--- default_config!()\n	{} <--- Config::default()",
                        line, cmp
                    );
                }
            }
        }
    }
    if count != cmp_lines.count() {
        panic!("The default config in `default_config!()` macro has missing fields.");
    }
}

#[test]
fn consistent_defaults() {
    let cmp_lines = written(&Config::default());
    let cmp_lines = cmp_lines.lines();

    println!(
        "Expected:\n{}\nProvided:\n{}",
        cmp_lines
            .clone()
            .map(|line| " > ".to_owned() + line + "\n")
            .collect::<String>(),
        default_config()
            .lines()
            .map(|line| " > ".to_owned() + line + "\n")
            .collect::<String>()
    );

    let mut count = 0;
    for line in default_config().lines() {
        for cmp_line in cmp_lines.clone() {
            let Some((key, value)) = cmp_line.split_once('=') else {
                return;
            };
            let cmp = &format!("{key}={value}");
            if line.replace("# ", "").starts_with(cmp) {
                count += 1;
            } else if line.starts_with(key) {
                println!(
                    "Non-match:\n	{} <--- default_config!()\n	{} <--- Config::default()",
                    line, cmp
                );
            }
        }
    }
    if count != cmp_lines.count() {
        panic!("The default config in `default_config!()` macro has missing fields.");
    }
}
