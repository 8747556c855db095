use pkglock_lib::codec::parse_document;
use pkglock_lib::json::Json;
use pkglock_lib::lockfile::{
    select_origin, update_lock, update_parsed, update_urls_in_package_lock, Mode, Source,
    UpdateError, CONFIG_FILE, LOCK_FILE,
};
use pkglock_lib::rewrite::update_urls;

const CONFIG: &str = r#"{
        "local": "http://localhost:4873",
        "remote": "https://registry.npmjs.org"
    }"#;

const LOCK: &str = r#"{
        "dependencies": {
            "package-a": {
                "resolved": "https://registry.npmjs.org/package-a/-/package-a-1.0.0.tgz"
            }
        }
    }"#;

fn text(s: &str) -> Json {
    Json::String(s.to_string())
}

fn object(entries: Vec<(&str, Json)>) -> Json {
    Json::Object(entries.into_iter().map(|(k, v)| (k.to_string(), v)).collect())
}

#[test]
fn test_file_operations() {
    let package_lock = r#"{
        "name": "test-package",
        "dependencies": {
            "package-a": {
                "resolved": "https://registry.npmjs.org/package-a/-/package-a-1.0.0.tgz"
            }
        }
    }"#;
    let mut json_content = parse_document(package_lock).unwrap();
    update_urls(&mut json_content, "http://localhost:4873");
    assert_eq!(
        json_content
            .get("dependencies")
            .unwrap()
            .get("package-a")
            .unwrap()
            .get("resolved"),
        Some(&text("http://localhost:4873/package-a/-/package-a-1.0.0.tgz"))
    );
}

#[test]
fn lib_test_update_urls_in_package_lock() {
    let mode = Mode::from_flag("--local").unwrap();
    let updated_content = update_urls_in_package_lock(mode, Some(CONFIG), Some(LOCK)).unwrap();
    assert!(updated_content.contains("http://localhost:4873"));
    assert!(!updated_content.contains("https://registry.npmjs.org"));
}

#[test]
fn integration_test_test_update_urls_in_package_lock() {
    let mode = Mode::from_flag("--local").unwrap();
    let updated_content = update_urls_in_package_lock(mode, Some(CONFIG), Some(LOCK)).unwrap();
    assert!(updated_content.contains("http://localhost:4873"));
    assert!(!updated_content.contains("https://registry.npmjs.org"));
}

#[test]
fn run_prints_the_rewritten_lock_file() {
    let updated = update_urls_in_package_lock(Mode::UseLocal, Some(CONFIG), Some(LOCK)).unwrap();
    assert_eq!(
        updated,
        "{\n  \"dependencies\": {\n    \"package-a\": {\n      \"resolved\": \"http://localhost:4873/package-a/-/package-a-1.0.0.tgz\"\n    }\n  }\n}"
    );
}

#[test]
fn run_to_the_remote_registry() {
    let lock = r#"{"packages": [{"resolved": "http://localhost:4873/a/-/a-1.0.0.tgz", "version": "1.0.0"}]}"#;
    let updated = update_urls_in_package_lock(Mode::UseRemote, Some(CONFIG), Some(lock)).unwrap();
    assert_eq!(
        updated,
        "{\n  \"packages\": [\n    {\n      \"resolved\": \"https://registry.npmjs.org/a/-/a-1.0.0.tgz\",\n      \"version\": \"1.0.0\"\n    }\n  ]\n}"
    );
}

#[test]
fn run_without_the_configuration_file() {
    assert_eq!(
        update_urls_in_package_lock(Mode::UseLocal, None, Some(LOCK)),
        Err(UpdateError::FileNotFound(Source::Config))
    );
    assert_eq!(
        update_urls_in_package_lock(Mode::UseLocal, None, None),
        Err(UpdateError::FileNotFound(Source::Config))
    );
    assert_eq!(
        update_urls_in_package_lock(Mode::UseLocal, None, Some("not json")),
        Err(UpdateError::FileNotFound(Source::Config))
    );
}

#[test]
fn run_without_the_lock_file() {
    assert_eq!(
        update_urls_in_package_lock(Mode::UseRemote, Some(CONFIG), None),
        Err(UpdateError::FileNotFound(Source::Lock))
    );
    assert_eq!(
        update_urls_in_package_lock(Mode::UseRemote, Some("not json"), None),
        Err(UpdateError::FileNotFound(Source::Lock))
    );
}

#[test]
fn run_on_a_malformed_lock_file() {
    assert_eq!(
        update_urls_in_package_lock(Mode::UseLocal, Some(CONFIG), Some("{\"dependencies\": ")),
        Err(UpdateError::MalformedJson(Source::Lock))
    );
    assert_eq!(
        update_urls_in_package_lock(Mode::UseLocal, Some("also bad"), Some("")),
        Err(UpdateError::MalformedJson(Source::Lock))
    );
}

#[test]
fn run_on_a_malformed_configuration_file() {
    assert_eq!(
        update_urls_in_package_lock(Mode::UseLocal, Some("{\"local\": "), Some(LOCK)),
        Err(UpdateError::MalformedJson(Source::Config))
    );
}

#[test]
fn run_without_the_origin_of_the_mode() {
    let only_remote = r#"{"remote": "https://registry.npmjs.org"}"#;
    assert_eq!(
        update_urls_in_package_lock(Mode::UseLocal, Some(only_remote), Some(LOCK)),
        Err(UpdateError::MissingConfigField(Mode::UseLocal))
    );
    assert!(update_urls_in_package_lock(Mode::UseRemote, Some(only_remote), Some(LOCK)).is_ok());
    let no_string = r#"{"local": 4873, "remote": null}"#;
    assert_eq!(
        update_urls_in_package_lock(Mode::UseLocal, Some(no_string), Some(LOCK)),
        Err(UpdateError::MissingConfigField(Mode::UseLocal))
    );
    assert_eq!(
        update_urls_in_package_lock(Mode::UseRemote, Some(no_string), Some(LOCK)),
        Err(UpdateError::MissingConfigField(Mode::UseRemote))
    );
    assert_eq!(
        update_urls_in_package_lock(Mode::UseRemote, Some("[]"), Some(LOCK)),
        Err(UpdateError::MissingConfigField(Mode::UseRemote))
    );
}

#[test]
fn run_keeps_the_order_of_keys() {
    let lock = r#"{"version": "1.0.0", "resolved": "https://registry.npmjs.org/p.tgz", "name": "p"}"#;
    let updated = update_urls_in_package_lock(Mode::UseLocal, Some(CONFIG), Some(lock)).unwrap();
    assert_eq!(
        updated,
        "{\n  \"version\": \"1.0.0\",\n  \"resolved\": \"http://localhost:4873/p.tgz\",\n  \"name\": \"p\"\n}"
    );
}

#[test]
fn run_on_a_lock_file_without_urls() {
    let lock = r#"{"name": "test-package", "version": "1.0.0"}"#;
    let updated = update_urls_in_package_lock(Mode::UseLocal, Some(CONFIG), Some(lock)).unwrap();
    assert_eq!(updated, "{\n  \"name\": \"test-package\",\n  \"version\": \"1.0.0\"\n}");
}

#[test]
fn mode_from_flag() {
    assert_eq!(Mode::from_flag("--local"), Some(Mode::UseLocal));
    assert_eq!(Mode::from_flag("--remote"), Some(Mode::UseRemote));
    for other in ["", "local", "--Local", "--local ", "-local", "--remote=1", "--help"] {
        assert_eq!(Mode::from_flag(other), None);
    }
}

#[test]
fn mode_config_key() {
    assert_eq!(Mode::UseLocal.config_key(), "local");
    assert_eq!(Mode::UseRemote.config_key(), "remote");
}

#[test]
fn source_file_name() {
    assert_eq!(Source::Config.file_name(), "pkg.config.json");
    assert_eq!(Source::Lock.file_name(), "package-lock.json");
    assert_eq!(CONFIG_FILE, "pkg.config.json");
    assert_eq!(LOCK_FILE, "package-lock.json");
}

#[test]
fn select_origin_reads_the_string_under_the_key() {
    let config = object(vec![
        ("local", text("http://localhost:4873")),
        ("remote", text("https://registry.npmjs.org")),
    ]);
    assert_eq!(select_origin(&config, Mode::UseLocal), Some("http://localhost:4873"));
    assert_eq!(select_origin(&config, Mode::UseRemote), Some("https://registry.npmjs.org"));
    let partial = object(vec![("local", Json::Bool(true))]);
    assert_eq!(select_origin(&partial, Mode::UseLocal), None);
    assert_eq!(select_origin(&partial, Mode::UseRemote), None);
    assert_eq!(select_origin(&Json::Null, Mode::UseLocal), None);
}

#[test]
fn update_lock_rewrites_or_leaves_alone() {
    let config = object(vec![("local", text("http://localhost:4873"))]);
    let mut lock = object(vec![("resolved", text("https://registry.npmjs.org/p.tgz"))]);
    assert_eq!(update_lock(Mode::UseLocal, &config, &mut lock), Ok(()));
    assert_eq!(lock, object(vec![("resolved", text("http://localhost:4873/p.tgz"))]));
    assert_eq!(
        update_lock(Mode::UseRemote, &config, &mut lock),
        Err(UpdateError::MissingConfigField(Mode::UseRemote))
    );
    assert_eq!(lock, object(vec![("resolved", text("http://localhost:4873/p.tgz"))]));
}

#[test]
fn update_parsed_reports_the_lock_file_first() {
    let config = object(vec![("remote", text("https://registry.npmjs.org"))]);
    let lock = object(vec![("resolved", text("http://localhost:4873/p.tgz"))]);
    assert_eq!(
        update_parsed(Mode::UseRemote, None, None),
        Err(UpdateError::MalformedJson(Source::Lock))
    );
    assert_eq!(
        update_parsed(Mode::UseRemote, Some(config.clone()), None),
        Err(UpdateError::MalformedJson(Source::Lock))
    );
    assert_eq!(
        update_parsed(Mode::UseRemote, None, Some(lock.clone())),
        Err(UpdateError::MalformedJson(Source::Config))
    );
    assert_eq!(
        update_parsed(Mode::UseLocal, Some(config.clone()), Some(lock.clone())),
        Err(UpdateError::MissingConfigField(Mode::UseLocal))
    );
    assert_eq!(
        update_parsed(Mode::UseRemote, Some(config), Some(lock)),
        Ok(object(vec![("resolved", text("https://registry.npmjs.org/p.tgz"))]))
    );
}

#[test]
fn the_crate_root_offers_the_two_entry_points() {
    let mut lock = object(vec![("resolved", text("https://registry.npmjs.org/p.tgz"))]);
    pkglock_lib::update_urls(&mut lock, "http://localhost:4873");
    assert_eq!(lock, object(vec![("resolved", text("http://localhost:4873/p.tgz"))]));
    assert_eq!(
        pkglock_lib::update_urls_in_package_lock(pkglock_lib::Mode::UseLocal, None, None),
        Err(pkglock_lib::UpdateError::FileNotFound(pkglock_lib::Source::Config))
    );
}
