use build_studio::nodes::{
    base_image_for, container_name_for, detect_virtualization_support, effective_support,
    get_system_info, parse_meminfo_mb, plan_create_local_node, scan_docker_containers,
    scan_local_nodes, LocalNodeConfig, LocalNodeManager, NodeError, VirtualizationSupport,
};

fn no_support() -> VirtualizationSupport {
    VirtualizationSupport {
        docker: false,
        wsl: false,
        kvm: false,
        qemu: false,
        hyperv: false,
        vmware: false,
        virtualbox: false,
        macos_vm: false,
    }
}

fn config(virtualization: &str) -> LocalNodeConfig {
    LocalNodeConfig {
        name: String::from("builder"),
        platform: String::from("ubuntu-22.04"),
        memory: 2048,
        cpu_cores: 2,
        disk_size: 20,
        virtualization: String::from(virtualization),
        capabilities: vec![String::from("build")],
        languages: vec![],
        install_build_tools: false,
    }
}

#[test]
fn no_tooling_means_no_supported_technologies() {
    let supported = detect_virtualization_support(&no_support());
    assert!(supported.is_empty());
}

#[test]
fn supported_list_keeps_probe_order() {
    let mut s = no_support();
    s.docker = true;
    s.qemu = true;
    s.virtualbox = true;
    assert_eq!(
        detect_virtualization_support(&s),
        vec!["docker", "qemu", "virtualbox"]
    );
}

#[test]
fn off_host_probes_short_circuit() {
    let all = VirtualizationSupport {
        docker: true,
        wsl: true,
        kvm: true,
        qemu: true,
        hyperv: true,
        vmware: true,
        virtualbox: true,
        macos_vm: true,
    };
    let linux = effective_support("linux", &all);
    assert!(linux.docker && linux.kvm && linux.qemu && linux.vmware && linux.virtualbox);
    assert!(!linux.wsl && !linux.hyperv && !linux.macos_vm);
    let windows = effective_support("windows", &all);
    assert!(windows.wsl && windows.hyperv);
    assert!(!windows.kvm && !windows.macos_vm);
    let macos = effective_support("macos", &all);
    assert!(macos.macos_vm);
    assert!(!macos.wsl && !macos.kvm && !macos.hyperv);
}

#[test]
fn auto_with_nothing_available_has_no_suitable_backend() {
    let r = plan_create_local_node(&config("auto"), &no_support());
    match r {
        Err(NodeError::NoSuitableBackend) => {}
        _ => panic!("expected no suitable backend"),
    }
    assert_eq!(
        NodeError::NoSuitableBackend.message(),
        "No suitable virtualization technology available"
    );
}

#[test]
fn auto_picks_the_container_backend_when_available() {
    let mut caps = no_support();
    caps.docker = true;
    let (id, plan) = plan_create_local_node(&config("auto"), &caps).unwrap();
    assert_eq!(id.len(), 36);
    assert_eq!(plan.image, "ubuntu:22.04");
    assert_eq!(plan.container_name, format!("build-studio-{}", id));
}

#[test]
fn docker_create_plan_is_exact() {
    let mut cfg = config("docker");
    cfg.install_build_tools = true;
    cfg.languages = vec![
        String::from("rust"),
        String::from("cobol"),
        String::from("python"),
    ];
    let (id, plan) = plan_create_local_node(&cfg, &no_support()).unwrap();
    assert_eq!(id.len(), 36);
    let name = format!("build-studio-{}", id);
    assert_eq!(plan.pull_args, vec!["pull", "ubuntu:22.04"]);
    assert_eq!(
        plan.run_args,
        vec![
            String::from("run"),
            String::from("-d"),
            String::from("--name"),
            name.clone(),
            String::from("--memory"),
            String::from("2048m"),
            String::from("--cpus"),
            String::from("2"),
            String::from("-v"),
            format!("/tmp/build-studio-{}:/workspace", id),
            String::from("ubuntu:22.04"),
            String::from("sleep"),
            String::from("infinity"),
        ]
    );
    assert_eq!(plan.install_steps.len(), 4);
    assert_eq!(
        plan.install_steps[0].args,
        vec!["exec", name.as_str(), "apt", "update"]
    );
    assert!(!plan.install_steps[0].best_effort);
    assert_eq!(
        plan.install_steps[1].args,
        vec![
            "exec",
            name.as_str(),
            "apt",
            "install",
            "-y",
            "build-essential",
            "git",
            "curl",
            "wget"
        ]
    );
    assert!(!plan.install_steps[1].best_effort);
    assert_eq!(
        plan.install_steps[2].args,
        vec![
            "exec",
            name.as_str(),
            "sh",
            "-c",
            "curl --proto '=https' --tlsv1.2 -sSf https://sh.rustup.rs | sh -s -- -y"
        ]
    );
    assert!(plan.install_steps[2].best_effort);
    assert_eq!(
        plan.install_steps[3].args,
        vec![
            "exec",
            name.as_str(),
            "apt",
            "install",
            "-y",
            "python3",
            "python3-pip"
        ]
    );
    assert!(plan.install_steps[3].best_effort);
}

#[test]
fn plan_without_build_tools_has_no_steps() {
    let (_, plan) = plan_create_local_node(&config("docker"), &no_support()).unwrap();
    assert!(plan.install_steps.is_empty());
}

#[test]
fn image_lookup_with_fallback() {
    assert_eq!(base_image_for("ubuntu-22.04"), "ubuntu:22.04");
    assert_eq!(base_image_for("ubuntu-20.04"), "ubuntu:20.04");
    assert_eq!(base_image_for("debian-11"), "debian:11");
    assert_eq!(base_image_for("alpine-3.18"), "alpine:3.18");
    assert_eq!(base_image_for("centos-8"), "centos:8");
    assert_eq!(base_image_for("solaris"), "ubuntu:22.04");
}

#[test]
fn unimplemented_and_unknown_technologies() {
    match plan_create_local_node(&config("wsl"), &no_support()) {
        Err(NodeError::NotImplemented(t)) => assert_eq!(t, "wsl"),
        _ => panic!("expected not implemented"),
    }
    match plan_create_local_node(&config("hyperv"), &no_support()) {
        Err(NodeError::NotImplemented(t)) => assert_eq!(t, "hyperv"),
        _ => panic!("expected not implemented"),
    }
    match plan_create_local_node(&config("fission-reactor"), &no_support()) {
        Err(NodeError::Unsupported) => {}
        _ => panic!("expected unsupported"),
    }
    assert_eq!(
        NodeError::Unsupported.message(),
        "Unsupported virtualization technology"
    );
}

#[test]
fn create_then_list_shows_one_installing_node() {
    let mut mgr = LocalNodeManager::new();
    assert!(mgr.register_created(String::from("node-1"), &config("docker")));
    let nodes = mgr.list_build_nodes();
    assert_eq!(nodes.len(), 1);
    assert_eq!(nodes[0].id, "node-1");
    assert_eq!(nodes[0].name, "builder");
    assert_eq!(nodes[0].status, "installing");
    assert_eq!(nodes[0].node_type, "local-docker");
    assert_eq!(nodes[0].vm_type, "docker");
    assert_eq!(nodes[0].platform, "ubuntu-22.04");
    assert_eq!(nodes[0].memory, 2048);
    assert_eq!(nodes[0].cpu_cores, 2);
    assert_eq!(nodes[0].disk_size, 20);
    assert_eq!(nodes[0].capabilities, vec!["build"]);
    assert!(nodes[0].container_id.is_none());
    assert!(nodes[0].vm_id.is_none());
    assert!(!nodes[0].created_at.is_empty());
    assert!(nodes[0].last_seen.is_none());
}

#[test]
fn vm_backed_node_kind() {
    let mut mgr = LocalNodeManager::new();
    assert!(mgr.register_created(String::from("node-v"), &config("qemu")));
    let nodes = mgr.list_build_nodes();
    assert_eq!(nodes[0].node_type, "local-vm");
    assert_eq!(nodes[0].vm_type, "qemu");
}

#[test]
fn duplicate_identifier_is_refused() {
    let mut mgr = LocalNodeManager::new();
    assert!(mgr.register_created(String::from("node-1"), &config("docker")));
    assert!(!mgr.register_created(String::from("node-1"), &config("docker")));
    assert_eq!(mgr.list_build_nodes().len(), 1);
}

#[test]
fn start_succeeds_only_with_the_backend() {
    let mut mgr = LocalNodeManager::new();
    mgr.register_created(String::from("node-1"), &config("docker"));
    match mgr.start_node("node-1", false) {
        Err(NodeError::BackendFailed(m)) => {
            assert_eq!(m, "Failed to start Docker container")
        }
        _ => panic!("expected a backend failure"),
    }
    assert_eq!(mgr.list_build_nodes()[0].status, "installing");
    assert!(mgr.start_node("node-1", true).is_ok());
    let nodes = mgr.list_build_nodes();
    assert_eq!(nodes[0].status, "online");
    let last_seen = nodes[0].last_seen.clone().unwrap();
    assert!(!last_seen.is_empty());
}

#[test]
fn stop_takes_the_node_offline() {
    let mut mgr = LocalNodeManager::new();
    mgr.register_created(String::from("node-1"), &config("docker"));
    mgr.start_node("node-1", true).unwrap();
    match mgr.stop_node("node-1", false) {
        Err(NodeError::BackendFailed(m)) => {
            assert_eq!(m, "Failed to stop Docker container")
        }
        _ => panic!("expected a backend failure"),
    }
    assert_eq!(mgr.list_build_nodes()[0].status, "online");
    assert!(mgr.stop_node("node-1", true).is_ok());
    assert_eq!(mgr.list_build_nodes()[0].status, "offline");
}

#[test]
fn verbs_on_unimplemented_backends() {
    let mut mgr = LocalNodeManager::new();
    mgr.register_created(String::from("node-w"), &config("wsl"));
    mgr.register_created(String::from("node-h"), &config("hyperv"));
    match mgr.start_node("node-w", true) {
        Err(NodeError::NotImplemented(t)) => assert_eq!(t, "wsl"),
        _ => panic!("expected not implemented"),
    }
    match mgr.stop_node("node-h", true) {
        Err(NodeError::NotImplemented(t)) => assert_eq!(t, "hyperv"),
        _ => panic!("expected not implemented"),
    }
    assert_eq!(mgr.list_build_nodes()[0].status, "installing");
    assert_eq!(mgr.list_build_nodes()[1].status, "installing");
    // A technology without an implemented teardown: removal succeeds with
    // nothing to clean up, and the record is gone.
    match mgr.remove_node("node-w") {
        Ok(None) => {}
        _ => panic!("expected success with nothing to tear down"),
    }
    assert_eq!(mgr.list_build_nodes().len(), 1);
    match mgr.remove_node("node-h") {
        Ok(None) => {}
        _ => panic!("expected success with nothing to tear down"),
    }
    assert_eq!(mgr.list_build_nodes().len(), 0);
}

#[test]
fn auto_created_node_records_the_resolved_backend() {
    let mut mgr = LocalNodeManager::new();
    mgr.register_created(String::from("node-a"), &config("auto"));
    let nodes = mgr.list_build_nodes();
    assert_eq!(nodes[0].vm_type, "docker");
    assert_eq!(nodes[0].node_type, "local-docker");
    assert!(mgr.start_node("node-a", true).is_ok());
    assert_eq!(mgr.list_build_nodes()[0].status, "online");
    assert!(mgr.stop_node("node-a", true).is_ok());
    assert_eq!(mgr.list_build_nodes()[0].status, "offline");
    match mgr.remove_node("node-a") {
        Ok(Some(args)) => assert_eq!(args, vec!["rm", "-f", "build-studio-node-a"]),
        _ => panic!("expected container teardown arguments"),
    }
    assert!(mgr.list_build_nodes().is_empty());
}

#[test]
fn unknown_identifier_always_not_found() {
    let mut mgr = LocalNodeManager::new();
    mgr.register_created(String::from("node-1"), &config("docker"));
    assert!(matches!(
        mgr.start_node("ghost", true),
        Err(NodeError::NotFound)
    ));
    assert!(matches!(
        mgr.stop_node("ghost", true),
        Err(NodeError::NotFound)
    ));
    assert!(matches!(mgr.remove_node("ghost"), Err(NodeError::NotFound)));
    assert_eq!(mgr.list_build_nodes().len(), 1);
    assert_eq!(mgr.list_build_nodes()[0].status, "installing");
    assert_eq!(NodeError::NotFound.message(), "Node not found");
}

#[test]
fn remove_returns_the_container_teardown() {
    let mut mgr = LocalNodeManager::new();
    mgr.register_created(String::from("node-1"), &config("docker"));
    match mgr.remove_node("node-1") {
        Ok(Some(args)) => assert_eq!(args, vec!["rm", "-f", "build-studio-node-1"]),
        _ => panic!("expected container teardown arguments"),
    }
    assert!(mgr.list_build_nodes().is_empty());
}

#[test]
fn container_names_are_deterministic() {
    assert_eq!(container_name_for("abc"), "build-studio-abc");
}

#[test]
fn verb_plans_name_the_container() {
    let mut mgr = LocalNodeManager::new();
    mgr.register_created(String::from("node-1"), &config("docker"));
    mgr.register_created(String::from("node-w"), &config("wsl"));
    assert_eq!(
        mgr.plan_start_node("node-1").unwrap(),
        vec!["start", "build-studio-node-1"]
    );
    assert_eq!(
        mgr.plan_stop_node("node-1").unwrap(),
        vec!["stop", "build-studio-node-1"]
    );
    assert!(matches!(
        mgr.plan_start_node("ghost"),
        Err(NodeError::NotFound)
    ));
    match mgr.plan_stop_node("node-w") {
        Err(NodeError::NotImplemented(t)) => assert_eq!(t, "wsl"),
        _ => panic!("expected not implemented"),
    }
    assert_eq!(mgr.list_build_nodes().len(), 2);
}

#[test]
fn node_error_messages() {
    assert_eq!(
        NodeError::NotImplemented(String::from("wsl")).message(),
        "wsl backend not yet implemented"
    );
    assert_eq!(
        NodeError::BackendFailed(String::from("pull failed")).message(),
        "pull failed"
    );
}

#[test]
fn meminfo_parsing() {
    let text = "MemTotal:       16384 kB\nMemFree:         512 kB\n";
    assert_eq!(parse_meminfo_mb(text), 16);
    assert_eq!(parse_meminfo_mb("MemFree: 12 kB\n"), 8192);
    assert_eq!(parse_meminfo_mb(""), 8192);
    assert_eq!(parse_meminfo_mb("MemTotal: junk kB\n"), 8192);
    assert_eq!(parse_meminfo_mb("MemTotal:\n"), 8192);
    assert_eq!(parse_meminfo_mb("MemTotal: 1000 kB\n"), 0);
}

#[test]
fn system_info_assembly() {
    let info = get_system_info(
        String::from("linux"),
        String::from("x86_64"),
        "MemTotal: 2097152 kB\n",
        no_support(),
    );
    assert_eq!(info.os, "linux");
    assert_eq!(info.arch, "x86_64");
    assert_eq!(info.memory, 2048);
    assert!(info.cpu_cores >= 1);
    assert_eq!(info.virtualization_support, no_support());
}

#[test]
fn scan_keeps_only_this_applications_containers() {
    let listing = "abc123\tbuild-studio-x\tubuntu:22.04\tUp 2 hours\n\
                   zzz999\tsomething-else\tnginx\tUp 1 hour\n\
                   def456\tbuild-studio-y\talpine:3.18\tExited (0) 3 days ago\n";
    let nodes = scan_docker_containers(listing);
    assert_eq!(nodes.len(), 2);
    assert_eq!(nodes[0].id, "abc123");
    assert_eq!(nodes[0].name, "build-studio-x");
    assert_eq!(nodes[0].status, "online");
    assert_eq!(nodes[0].node_type, "local-docker");
    assert_eq!(nodes[0].vm_type, "docker");
    assert_eq!(nodes[0].platform, "unknown");
    assert_eq!(nodes[0].memory, 0);
    assert_eq!(nodes[0].container_id, Some(String::from("abc123")));
    assert!(nodes[0].vm_id.is_none());
    assert_eq!(nodes[1].id, "def456");
    assert_eq!(nodes[1].status, "offline");
}

#[test]
fn scan_ignores_short_lines() {
    let nodes = scan_docker_containers("build-studio-x\tUp\n");
    assert!(nodes.is_empty());
}

#[test]
fn failed_backends_contribute_nothing_to_discovery() {
    let docker = scan_docker_containers("id1\tbuild-studio-a\timg\tUp\n");
    let merged = scan_local_nodes(Some(docker), None);
    assert_eq!(merged.len(), 1);
    assert_eq!(merged[0].id, "id1");
    let none = scan_local_nodes(None, None);
    assert!(none.is_empty());
    let vms_only = scan_local_nodes(None, Some(vec![]));
    assert!(vms_only.is_empty());
}
