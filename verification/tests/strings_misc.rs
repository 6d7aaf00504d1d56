use build_studio::cicd::{Webhook, WebhookState};
use build_studio::packaging::{package_output_path, package_tool, PackageConfig};
use build_studio::plugin::fallback_plugin;
use build_studio::project::{list_projects, ProjectManager};
use build_studio::remotenode::{RemoteNode, RemoteNodeManager};
use build_studio::strutil::{
    lines_str, parse_u64_digits, split_str, str_contains, str_eq_str, str_starts_with,
    tokens_str, u32_to_dec_string, u64_to_dec_string,
};

#[test]
fn decimal_formatting() {
    assert_eq!(u64_to_dec_string(0), "0");
    assert_eq!(u64_to_dec_string(7), "7");
    assert_eq!(u64_to_dec_string(1234), "1234");
    assert_eq!(u64_to_dec_string(u64::MAX), "18446744073709551615");
    assert_eq!(u32_to_dec_string(2048), "2048");
}

#[test]
fn decimal_parsing() {
    assert_eq!(parse_u64_digits("16384"), Some(16384));
    assert_eq!(parse_u64_digits("0"), Some(0));
    assert_eq!(parse_u64_digits("18446744073709551615"), Some(u64::MAX));
    assert_eq!(parse_u64_digits("18446744073709551616"), None);
    assert_eq!(parse_u64_digits(""), None);
    assert_eq!(parse_u64_digits("12a"), None);
    assert_eq!(parse_u64_digits("-5"), None);
    assert_eq!(parse_u64_digits("+5"), None);
}

#[test]
fn substring_and_prefix_tests() {
    assert!(str_contains("hello world", "lo wo"));
    assert!(str_contains("hello", ""));
    assert!(!str_contains("hello", "hello!"));
    assert!(str_contains("aaa", "aa"));
    assert!(!str_contains("abc", "cb"));
    assert!(str_starts_with("build-studio-17", "build-studio-"));
    assert!(!str_starts_with("studio-17", "build-studio-"));
    assert!(str_eq_str("same", "same"));
    assert!(!str_eq_str("same", "sames"));
}

#[test]
fn splitting_lines_and_tokens() {
    assert_eq!(split_str("a\tb\t\tc", '\t'), vec!["a", "b", "", "c"]);
    assert_eq!(split_str("", '\t'), vec![""]);
    assert_eq!(lines_str("a\nb\n"), vec!["a", "b"]);
    assert_eq!(lines_str("a\r\nb"), vec!["a", "b"]);
    assert_eq!(lines_str("a\n\nb"), vec!["a", "", "b"]);
    assert_eq!(lines_str(""), Vec::<String>::new());
    assert_eq!(
        tokens_str("MemTotal:    16384 kB"),
        vec!["MemTotal:", "16384", "kB"]
    );
    assert_eq!(tokens_str("   "), Vec::<String>::new());
}

#[test]
fn project_registry_round_trip() {
    let mut mgr = ProjectManager::default();
    assert!(mgr.add_project(String::from("demo"), String::from("/work/demo")));
    let listed = list_projects(&mgr);
    assert_eq!(listed.len(), 1);
    assert_eq!(listed[0].name, "demo");
    assert_eq!(listed[0].path, "/work/demo");
    assert_eq!(listed[0].config_path, "/work/demo/buildstudio.config.yaml");
    assert!(listed[0].last_build.is_none());
    assert!(listed[0].last_status.is_none());
}

#[test]
fn project_removal_reports_changes() {
    let mut mgr = ProjectManager::default();
    mgr.add_project(String::from("demo"), String::from("/a"));
    mgr.add_project(String::from("other"), String::from("/b"));
    mgr.add_project(String::from("demo"), String::from("/c"));
    assert!(mgr.remove_project("demo"));
    let listed = list_projects(&mgr);
    assert_eq!(listed.len(), 1);
    assert_eq!(listed[0].name, "other");
    assert!(!mgr.remove_project("demo"));
    assert!(!mgr.remove_project("never-there"));
}

#[test]
fn webhook_store_inserts_and_replaces() {
    let mut state = WebhookState::default();
    state.add_webhook(Webhook {
        id: String::from("w1"),
        url: String::from("https://one.example/hook"),
        secret: String::from("not-a-real-key"),
        events: vec![String::from("push")],
    });
    state.add_webhook(Webhook {
        id: String::from("w2"),
        url: String::from("https://two.example/hook"),
        secret: String::from("not-a-real-key"),
        events: vec![],
    });
    let listed = state.list_webhooks();
    assert_eq!(listed.len(), 2);
    assert_eq!(listed[0].id, "w1");
    assert_eq!(listed[0].events, vec!["push"]);
    state.add_webhook(Webhook {
        id: String::from("w1"),
        url: String::from("https://replaced.example/hook"),
        secret: String::from("not-a-real-key"),
        events: vec![],
    });
    let listed = state.list_webhooks();
    assert_eq!(listed.len(), 2);
    assert_eq!(listed[0].url, "https://replaced.example/hook");
    assert_eq!(
        state.webhook_url("w2"),
        Some(String::from("https://two.example/hook"))
    );
    assert_eq!(state.webhook_url("missing"), None);
}

#[test]
fn remote_node_store_inserts_and_replaces() {
    let mut mgr = RemoteNodeManager::default();
    mgr.add_remote_node(RemoteNode {
        id: String::from("r1"),
        address: String::from("dev@build1:22"),
        status: String::from("online"),
    });
    mgr.add_remote_node(RemoteNode {
        id: String::from("r1"),
        address: String::from("dev@build1:22"),
        status: String::from("offline"),
    });
    let listed = mgr.list_remote_nodes();
    assert_eq!(listed.len(), 1);
    assert_eq!(listed[0].status, "offline");
    let empty = RemoteNode::default();
    assert_eq!(empty.id, "");
    assert_eq!(empty.address, "");
    assert_eq!(empty.status, "");
}

#[test]
fn packaging_dispatch() {
    assert_eq!(package_tool("deb"), Some(String::from("dpkg-deb")));
    assert_eq!(package_tool("rpm"), Some(String::from("rpmbuild")));
    assert_eq!(package_tool("msi"), Some(String::from("candle")));
    assert_eq!(package_tool("exe"), Some(String::new()));
    assert_eq!(package_tool("dmg"), Some(String::from("hdiutil")));
    assert_eq!(package_tool("pkg"), Some(String::from("pkgbuild")));
    assert_eq!(package_tool("apk"), Some(String::from("aapt")));
    assert_eq!(package_tool("wasm"), Some(String::new()));
    assert_eq!(package_tool("snap"), None);
    let cfg = PackageConfig {
        name: String::from("app"),
        version: String::from("0.1.0"),
        package_type: String::from("deb"),
        dependencies: vec![],
        source_dir: String::from("/src"),
        output_dir: String::from("./packages"),
    };
    assert_eq!(package_output_path(&cfg), "./packages/app.deb");
}

#[test]
fn plugin_fallback_entry() {
    let p = fallback_plugin(String::from("sample"), String::from("/plugins/sample"));
    assert_eq!(p.name, "sample");
    assert_eq!(p.author, "Unknown");
    assert_eq!(p.version, "0.1.0");
    assert_eq!(p.description, "Plugin description not available");
    assert_eq!(p.path, "/plugins/sample");
}
