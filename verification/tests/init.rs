use msc::commands::init::{manifest_text, InitCommand, ScaffoldStep, GITIGNORE};

#[test]
fn scaffold_manifest_names_the_package() {
    let text = InitCommand::new().manifest_text("demo");
    assert_eq!(
        text,
        "[package]\nname = \"demo\"\nversion = \"0.1.0\"\ndescription = \"A Roblox package\"\nauthor = \"Your Name <your.email@example.com>\"\n\n[dependencies]\n# Format: \"username/package-name\" = \"version\"\n# Example: \"sesocell/profilestore\" = \"1.0.0\"\n"
    );
}

#[test]
fn scaffold_readme_names_the_package() {
    assert_eq!(
        InitCommand::new().readme_text("demo"),
        "# demo\n\nA Roblox package managed by MSC.\n\n## Installation\n\n"
    );
}

#[test]
fn scaffold_lists_every_step_in_order() {
    let command = InitCommand::new();
    let steps = command.execute("demo");
    assert_eq!(
        steps,
        vec![
            ScaffoldStep::WriteFile {
                path: "msc.toml".to_string(),
                content: command.manifest_text("demo"),
            },
            ScaffoldStep::CreateDirectory { path: "src".to_string() },
            ScaffoldStep::CreateDirectory { path: "test".to_string() },
            ScaffoldStep::WriteFile {
                path: ".gitignore".to_string(),
                content: "# MSC\n.msc/\n.packages/\n".to_string(),
            },
            ScaffoldStep::WriteFile {
                path: "README.md".to_string(),
                content: command.readme_text("demo"),
            },
        ]
    );
    assert_eq!(GITIGNORE, "# MSC\n.msc/\n.packages/\n");
}

#[test]
fn manifest_from_answers() {
    assert_eq!(
        manifest_text("demo", "does things", "someone"),
        "[package]\nname = \"demo\"\nversion = \"0.1.0\"\ndescription = \"does things\"\nauthor = \"someone\"\n\n[dependencies]\n# Format: \"username/package-name\" = \"version\"\n# Example: \"sesocell/profilestore\" = \"1.0.0\"\n"
    );
}

#[test]
fn manifest_from_empty_answers() {
    let text = manifest_text("demo", "", "");
    assert!(text.contains("description = \"\"\nauthor = \"\"\n"));
}

#[test]
fn scaffold_manifest_is_a_manifest_file() {
    let text = InitCommand::new().manifest_text("demo");
    let table: toml::Table = text.parse().unwrap();
    let package = table["package"].as_table().unwrap();
    assert_eq!(package["name"].as_str(), Some("demo"));
    assert_eq!(package["version"].as_str(), Some("0.1.0"));
    assert_eq!(package["description"].as_str(), Some("A Roblox package"));
    assert_eq!(package["author"].as_str(), Some("Your Name <your.email@example.com>"));
    assert_eq!(package.len(), 4);
    assert!(table["dependencies"].as_table().unwrap().is_empty());
}

#[test]
fn manifest_from_answers_is_a_manifest_file() {
    let table: toml::Table = manifest_text("demo", "does things", "someone").parse().unwrap();
    let package = table["package"].as_table().unwrap();
    assert_eq!(package["author"].as_str(), Some("someone"));
    assert_eq!(package["description"].as_str(), Some("does things"));
    assert!(table["dependencies"].as_table().unwrap().is_empty());
}
