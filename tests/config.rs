use resm::connect_info::ConnectInfo;
use resm::generate::{generate_ssh_config, generate_ssh_config_entry, generate_ssh_config_item};
use resm::ssh_config::SshConfig;

fn host(name: &str) -> ConnectInfo {
    ConnectInfo {
        host: name.to_string(),
        port: None,
        user: Some("deploy".to_string()),
        password: None,
        identity_file: Some("/keys/id_rsa/".to_string()),
    }
}

fn config() -> SshConfig {
    SshConfig {
        project: "shop".to_string(),
        environment: "dev".to_string(),
        remote_path: Some("/var/www/shop//".to_string()),
        remote_cache_path: Some("/var/www/shop/cache/".to_string()),
        git_path: Some("/home/me/shop/".to_string()),
        git_src_path: Some("/home/me/shop/src/".to_string()),
        backup_path: Some("/backups/".to_string()),
        db_host: None,
        db_host_reader: None,
        db_port: None,
        db_name: None,
        db_user: None,
        db_password: None,
        db_root_user: None,
        db_root_password: None,
        connect_info: host("web.example.com"),
        tunnels: None,
    }
}

#[test]
fn connect_info_defaults() {
    let ci = ConnectInfo {
        host: "h".to_string(),
        port: None,
        user: None,
        password: None,
        identity_file: None,
    };
    assert_eq!(ci.host(), "h");
    assert_eq!(ci.port(), 22);
    assert_eq!(ci.user(), "");
    assert_eq!(ci.password(), "");
    assert_eq!(ci.identity_file(), "");
}

#[test]
fn connect_info_values() {
    let mut ci = host("h");
    ci.port = Some(2222);
    ci.password = Some("pw".to_string());
    assert_eq!(ci.port(), 2222);
    assert_eq!(ci.user(), "deploy");
    assert_eq!(ci.password(), "pw");
    assert_eq!(ci.identity_file(), "/keys/id_rsa");
}

#[test]
fn config_paths_lose_trailing_slashes() {
    let c = config();
    assert_eq!(c.project(), "shop");
    assert_eq!(c.environment(), "dev");
    assert_eq!(c.remote_path(), "/var/www/shop");
    assert_eq!(c.remote_cache_path(), "/var/www/shop/cache");
    assert_eq!(c.git_path(), "/home/me/shop");
    assert_eq!(c.git_src_path(), "/home/me/shop/src");
    assert_eq!(c.backup_path(), "/backups");
}

#[test]
fn config_unset_paths_are_empty() {
    let mut c = config();
    c.remote_path = None;
    c.backup_path = None;
    assert_eq!(c.remote_path(), "");
    assert_eq!(c.backup_path(), "");
    assert_eq!(c.remote_target(""), "");
}

#[test]
fn git_relative_path() {
    let c = config();
    assert_eq!(c.get_git_relative_path(), "src");
    let mut c = config();
    c.git_src_path = Some("/home/me/shop".to_string());
    assert_eq!(c.get_git_relative_path(), "");
}

#[test]
fn git_relative_path_strips_only_the_leading_root() {
    let mut c = config();
    c.git_path = Some("/a".to_string());
    c.git_src_path = Some("/a/b/a".to_string());
    assert_eq!(c.get_git_relative_path(), "b/a");
    c.git_path = Some("/elsewhere".to_string());
    assert_eq!(c.get_git_relative_path(), "a/b/a");
}

#[test]
fn database_defaults() {
    let c = config();
    assert_eq!(c.db_host(), "");
    assert_eq!(c.db_host_reader(), "");
    assert_eq!(c.db_port(), 3306);
    assert_eq!(c.db_name(), "");
    assert_eq!(c.db_user(), "root");
    assert_eq!(c.db_password(), "");
    assert_eq!(c.db_root_user(), "root");
    assert_eq!(c.db_root_password(), "");
}

#[test]
fn database_reader_prefers_replica() {
    let mut c = config();
    c.db_host = Some("db1".to_string());
    assert_eq!(c.db_host_reader(), "db1");
    c.db_host_reader = Some("db2".to_string());
    assert_eq!(c.db_host_reader(), "db2");
    c.db_port = Some(3307);
    c.db_user = Some("app".to_string());
    c.db_root_user = Some("admin".to_string());
    assert_eq!(c.db_port(), 3307);
    assert_eq!(c.db_user(), "app");
    assert_eq!(c.db_root_user(), "admin");
}

#[test]
fn catalogue_key() {
    let c = config();
    assert_eq!(c.key(), "shop_dev");
    let mut c = config();
    c.environment = String::new();
    assert_eq!(c.key(), "shop");
}

#[test]
fn accessors_of_hosts() {
    let mut c = config();
    assert_eq!(c.connect_info().host(), "web.example.com");
    assert!(c.tunnels().is_none());
    c.tunnels = Some(vec![host("bastion")]);
    assert_eq!(c.tunnels().as_ref().map(|t| t.len()), Some(1));
}

#[test]
fn remote_target_of_part() {
    let c = config();
    assert_eq!(c.remote_target(""), "/var/www/shop");
    assert_eq!(c.remote_target("uploads"), "/var/www/shop/uploads");
}

const BAR: &str = "#==========================================================";

#[test]
fn item_without_comment_or_jump() {
    let text = generate_ssh_config_item("web", &host("web.example.com"), None, false);
    assert_eq!(
        text,
        "\nHost web\n    HostName web.example.com\n    Port 22\n    User deploy\n    IdentityFile /keys/id_rsa\n"
    );
}

#[test]
fn item_with_comment_and_jump() {
    let text = generate_ssh_config_item("web", &host("w"), Some("web_bastion".to_string()), true);
    let expected = format!(
        "\n{}\n# web\n{}\nHost web\n    HostName w\n    Port 22\n    User deploy\n    IdentityFile /keys/id_rsa\n    ProxyJump web_bastion\n",
        BAR, BAR
    );
    assert_eq!(text, expected);
}

#[test]
fn entry_with_two_tunnels_and_databases() {
    let mut c = config();
    c.tunnels = Some(vec![host("outer"), host("inner")]);
    c.db_host = Some("db1".to_string());
    c.db_host_reader = Some("db2".to_string());
    c.db_name = Some("shopdb".to_string());
    c.db_password = Some("secret".to_string());
    let text = generate_ssh_config_entry("shop_dev", &c);
    let b0 = generate_ssh_config_item("shop_dev_bastion_0", &host("outer"), None, false);
    let b1 = generate_ssh_config_item(
        "shop_dev_bastion_1",
        &host("inner"),
        Some("shop_dev_bastion_0".to_string()),
        false,
    );
    let jump = Some("shop_dev_bastion_1".to_string());
    let main = generate_ssh_config_item("shop_dev", &host("web.example.com"), jump.clone(), true);
    let db = generate_ssh_config_item("shop_dev_db", &host("web.example.com"), jump.clone(), true)
        + "    RemoteCommand mysql -h db1 -P 3306 -u root -psecret shopdb\n    RequestTTY yes\n";
    let reader = generate_ssh_config_item("shop_dev_db_reader", &host("web.example.com"), jump, true)
        + "    RemoteCommand mysql -h db2 -P 3306 -u root -psecret shopdb\n    RequestTTY yes\n";
    assert_eq!(text, main + &b1 + &b0 + &db + &reader);
}

#[test]
fn single_tunnel_is_not_numbered() {
    let mut c = config();
    c.tunnels = Some(vec![host("outer")]);
    let text = generate_ssh_config_entry("shop", &c);
    assert!(text.contains("\nHost shop_bastion\n"));
    assert!(text.contains("    ProxyJump shop_bastion\n"));
    assert!(!text.contains("shop_bastion_0"));
    assert!(!text.contains("_db"));
}

#[test]
fn whole_config_in_order() {
    let mut other = config();
    other.project = "blog".to_string();
    let entries = vec![("shop_dev".to_string(), config()), ("blog_dev".to_string(), other)];
    let text = generate_ssh_config(&entries);
    let expected = generate_ssh_config_entry("shop_dev", &entries[0].1)
        + &generate_ssh_config_entry("blog_dev", &entries[1].1);
    assert_eq!(text, expected);
    assert_eq!(generate_ssh_config(&Vec::new()), "");
}
