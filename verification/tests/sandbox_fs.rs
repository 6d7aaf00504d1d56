use build_studio::security::{copy_steps, sandbox_dir_path, SecurityConfig};

fn policy_allowing(paths: Vec<&str>) -> SecurityConfig {
    SecurityConfig {
        enable_sandbox: true,
        allowed_paths: paths.into_iter().map(String::from).collect(),
        blocked_commands: vec![String::from("rm")],
        network_isolation: true,
        max_build_time: Some(3600),
    }
}

#[test]
fn sandbox_copy_round_trip_on_disk() {
    let base = "/tmp/sandbox_round_trip_proj";
    fs_extra::dir::remove(base).unwrap();
    fs_extra::dir::create_all(format!("{}/src/sub", base), true).unwrap();
    fs_extra::dir::create_all(format!("{}/secrets", base), true).unwrap();
    fs_extra::file::write_all(format!("{}/src/main.c", base), "int main() { return 0; }")
        .unwrap();
    fs_extra::file::write_all(format!("{}/src/sub/util.c", base), "static int x;").unwrap();
    fs_extra::file::write_all(format!("{}/secrets/key.txt", base), "do not copy").unwrap();

    let policy = policy_allowing(vec!["src", "missing-dir"]);
    let sandbox = sandbox_dir_path(base);
    assert_eq!(sandbox, format!("{}/.sandbox", base));
    fs_extra::dir::create_all(&sandbox, true).unwrap();

    // The caller observed: "src" exists, "missing-dir" does not.
    let steps = copy_steps(base, &policy, &vec![true, false]);
    assert_eq!(steps.len(), 1);
    for step in &steps {
        let mut opts = fs_extra::dir::CopyOptions::new();
        opts.copy_inside = true;
        fs_extra::dir::copy(&step.src, &step.dest, &opts).unwrap();
    }

    // Round trip: every allowed file is at the same relative location with
    // identical content.
    let main_c = fs_extra::file::read_to_string(format!("{}/src/main.c", sandbox)).unwrap();
    assert_eq!(main_c, "int main() { return 0; }");
    let util_c = fs_extra::file::read_to_string(format!("{}/src/sub/util.c", sandbox)).unwrap();
    assert_eq!(util_c, "static int x;");

    // No other files: nothing outside the allowed subpaths was copied.
    let content = fs_extra::dir::get_dir_content(&sandbox).unwrap();
    assert_eq!(content.files.len(), 2);
    assert!(fs_extra::file::read_to_string(format!("{}/secrets/key.txt", sandbox)).is_err());

    // Cleanup is idempotent: removing the sandbox twice never errors the
    // second time.
    assert!(fs_extra::dir::remove(&sandbox).is_ok());
    assert!(fs_extra::dir::remove(&sandbox).is_ok());
    assert!(fs_extra::dir::get_dir_content(&sandbox).is_err());
    fs_extra::dir::remove(base).unwrap();
}
