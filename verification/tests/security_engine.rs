use build_studio::engine::{
    begin_build, BuildError, BuildOutcome, BuildPhase, StreamTag,
};
use build_studio::security::{
    copy_steps, sandbox_dir_path, validate_command, SecurityConfig,
};
use build_studio::toolchain::{full_command, toolchain_for_platform, Toolchain};

fn policy_src_rm() -> SecurityConfig {
    SecurityConfig {
        enable_sandbox: true,
        allowed_paths: vec![String::from("src")],
        blocked_commands: vec![String::from("rm")],
        network_isolation: true,
        max_build_time: Some(3600),
    }
}

#[test]
fn default_policy_fields() {
    let p = SecurityConfig::default();
    assert!(p.enable_sandbox);
    assert_eq!(p.allowed_paths, vec!["./src", "./builds", "./packages"]);
    assert_eq!(
        p.blocked_commands,
        vec!["rm", "rmdir", "mv", "cp", "chmod", "chown"]
    );
    assert!(p.network_isolation);
    assert_eq!(p.max_build_time, Some(3600));
}

#[test]
fn blocked_token_rejected_wherever_it_occurs() {
    let p = policy_src_rm();
    assert!(!validate_command("rm -rf src", &p));
    assert!(!validate_command("echo rm", &p));
    assert!(!validate_command("xxrmyy", &p));
    assert!(!validate_command("rm", &p));
    assert!(validate_command("echo build-ok", &p));
}

#[test]
fn disabled_sandbox_permits_everything() {
    let mut p = policy_src_rm();
    p.enable_sandbox = false;
    assert!(validate_command("rm -rf src", &p));
    assert!(validate_command("chmod 777 /", &p));
}

#[test]
fn default_policy_blocks_destructive_commands() {
    let p = SecurityConfig::default();
    assert!(!validate_command("rm -rf .", &p));
    assert!(!validate_command("chown root file", &p));
    assert!(validate_command("cargo build --release", &p));
}

#[test]
fn sandbox_path_and_copy_plan() {
    assert_eq!(sandbox_dir_path("proj"), "proj/.sandbox");
    let p = policy_src_rm();
    let steps = copy_steps("proj", &p, &vec![true]);
    assert_eq!(steps.len(), 1);
    assert_eq!(steps[0].src, "proj/src");
    assert_eq!(steps[0].dest, "proj/.sandbox/src");
    let none = copy_steps("proj", &p, &vec![false]);
    assert_eq!(none.len(), 0);
}

#[test]
fn copy_plan_skips_missing_paths_only() {
    let p = SecurityConfig::default();
    let steps = copy_steps("/work/app", &p, &vec![true, false, true]);
    assert_eq!(steps.len(), 2);
    assert_eq!(steps[0].src, "/work/app/./src");
    assert_eq!(steps[0].dest, "/work/app/.sandbox/./src");
    assert_eq!(steps[1].src, "/work/app/./packages");
    assert_eq!(steps[1].dest, "/work/app/.sandbox/./packages");
}

#[test]
fn blocked_command_aborts_before_any_sandbox() {
    let r = begin_build(
        String::from("rm -rf src"),
        String::from("proj"),
        None,
        policy_src_rm(),
    );
    match r {
        Err(BuildError::PolicyViolation) => {}
        _ => panic!("expected a policy violation"),
    }
    let msg = BuildError::PolicyViolation.message();
    assert_eq!(msg, "Command blocked by security policy");
}

#[test]
fn successful_build_walk() {
    let mut run = begin_build(
        String::from("echo build-ok"),
        String::from("proj"),
        None,
        policy_src_rm(),
    )
    .unwrap();
    assert!(matches!(run.phase, BuildPhase::Sandboxing));
    assert_eq!(run.full_command, "echo build-ok");
    run.sandbox_ready(String::from("proj/.sandbox"));
    assert!(matches!(run.phase, BuildPhase::Running));
    run.record_line(StreamTag::Stdout, String::from("build-ok"));
    run.close_stream(StreamTag::Stdout);
    run.close_stream(StreamTag::Stderr);
    run.process_exited(Some(0));
    assert!(matches!(run.phase, BuildPhase::CleaningUp));
    run.cleanup_finished(None);
    assert!(matches!(run.phase, BuildPhase::Done));
    let outcome = run.take_finished();
    assert!(matches!(outcome, BuildOutcome::Succeeded));
    assert_eq!(run.log.events.len(), 1);
    assert!(matches!(run.log.events[0].tag, StreamTag::Stdout));
    assert_eq!(run.log.events[0].line, "build-ok");
}

#[test]
fn nonzero_exit_fails_with_that_code() {
    let mut run = begin_build(
        String::from("false"),
        String::from("proj"),
        None,
        policy_src_rm(),
    )
    .unwrap();
    run.sandbox_ready(String::from("proj/.sandbox"));
    run.close_stream(StreamTag::Stdout);
    run.close_stream(StreamTag::Stderr);
    run.process_exited(Some(2));
    run.cleanup_finished(None);
    match run.take_finished() {
        BuildOutcome::Failed(BuildError::Exit(code)) => assert_eq!(code, 2),
        _ => panic!("expected a failure carrying the exit code"),
    }
}

#[test]
fn cleanup_error_never_downgrades_success() {
    let mut run = begin_build(
        String::from("true"),
        String::from("proj"),
        None,
        policy_src_rm(),
    )
    .unwrap();
    run.sandbox_ready(String::from("proj/.sandbox"));
    run.close_stream(StreamTag::Stdout);
    run.close_stream(StreamTag::Stderr);
    run.process_exited(Some(0));
    run.cleanup_finished(Some(String::from("permission denied")));
    assert!(matches!(run.take_finished(), BuildOutcome::Succeeded));
    assert_eq!(run.cleanup_error, Some(String::from("permission denied")));
}

#[test]
fn sandbox_failure_goes_straight_to_done() {
    let mut run = begin_build(
        String::from("true"),
        String::from("proj"),
        None,
        policy_src_rm(),
    )
    .unwrap();
    run.sandbox_failed(String::from("disk full"));
    assert!(matches!(run.phase, BuildPhase::Done));
    match run.take_finished() {
        BuildOutcome::Failed(BuildError::SandboxIo(m)) => assert_eq!(m, "disk full"),
        _ => panic!("expected a sandbox I/O failure"),
    }
}

#[test]
fn spawn_failure_still_cleans_up() {
    let mut run = begin_build(
        String::from("true"),
        String::from("proj"),
        None,
        policy_src_rm(),
    )
    .unwrap();
    run.sandbox_ready(String::from("proj/.sandbox"));
    run.spawn_failed(String::from("no such file"));
    assert!(matches!(run.phase, BuildPhase::CleaningUp));
    run.cleanup_finished(None);
    match run.take_finished() {
        BuildOutcome::Failed(BuildError::Spawn(m)) => assert_eq!(m, "no such file"),
        _ => panic!("expected a spawn failure"),
    }
}

#[test]
fn timeout_fails_the_build() {
    let mut run = begin_build(
        String::from("sleep 9999"),
        String::from("proj"),
        None,
        policy_src_rm(),
    )
    .unwrap();
    assert_eq!(run.time_limit(), Some(3600));
    run.sandbox_ready(String::from("proj/.sandbox"));
    run.timed_out();
    run.cleanup_finished(None);
    assert!(matches!(
        run.take_finished(),
        BuildOutcome::Failed(BuildError::Timeout)
    ));
}

#[test]
fn stdout_lines_arrive_in_order_per_stream() {
    let mut run = begin_build(
        String::from("make"),
        String::from("proj"),
        None,
        policy_src_rm(),
    )
    .unwrap();
    run.sandbox_ready(String::from("proj/.sandbox"));
    run.record_line(StreamTag::Stdout, String::from("one"));
    run.record_line(StreamTag::Stderr, String::from("warn"));
    run.record_lines(
        StreamTag::Stdout,
        vec![String::from("two"), String::from("three")],
    );
    let stdout: Vec<&str> = run
        .log
        .events
        .iter()
        .filter(|e| matches!(e.tag, StreamTag::Stdout))
        .map(|e| e.line.as_str())
        .collect();
    assert_eq!(stdout, vec!["one", "two", "three"]);
    let stderr: Vec<&str> = run
        .log
        .events
        .iter()
        .filter(|e| matches!(e.tag, StreamTag::Stderr))
        .map(|e| e.line.as_str())
        .collect();
    assert_eq!(stderr, vec!["warn"]);
}

#[test]
fn error_messages_carry_the_details() {
    assert_eq!(
        BuildError::Exit(2).message(),
        "Command exited with status: 2"
    );
    assert_eq!(
        BuildError::Exit(-7).message(),
        "Command exited with status: -7"
    );
    assert_eq!(
        BuildError::Exit(i32::MIN).message(),
        "Command exited with status: -2147483648"
    );
    assert_eq!(
        BuildError::SandboxIo(String::from("disk full")).message(),
        "Failed to create sandbox: disk full"
    );
    assert_eq!(
        BuildError::Spawn(String::from("no shell")).message(),
        "Failed to execute command: no shell"
    );
    assert_eq!(
        BuildError::Terminated.message(),
        "Command terminated by signal"
    );
    assert_eq!(
        BuildError::Timeout.message(),
        "Build exceeded maximum build time"
    );
}

#[test]
fn toolchain_prefixes() {
    assert_eq!(Toolchain::Native.command_prefix(), Vec::<String>::new());
    assert_eq!(
        Toolchain::MinGW.command_prefix(),
        vec!["x86_64-w64-mingw32-"]
    );
    assert_eq!(
        Toolchain::AndroidNDK.command_prefix(),
        vec!["$ANDROID_NDK_HOME/toolchains/llvm/prebuilt/linux-x86_64/bin/"]
    );
    assert_eq!(Toolchain::Emscripten.command_prefix(), vec!["emcc"]);
    assert_eq!(Toolchain::WasmPack.command_prefix(), vec!["wasm-pack"]);
    assert_eq!(
        Toolchain::Custom(String::from("ccache ")).command_prefix(),
        vec!["ccache "]
    );
}

#[test]
fn platform_resolution_and_full_command() {
    assert!(matches!(
        toolchain_for_platform("windows"),
        Toolchain::MinGW
    ));
    assert!(matches!(
        toolchain_for_platform("wasm"),
        Toolchain::WasmPack
    ));
    assert!(matches!(
        toolchain_for_platform("webassembly"),
        Toolchain::WasmPack
    ));
    assert!(matches!(
        toolchain_for_platform("android"),
        Toolchain::AndroidNDK
    ));
    assert!(matches!(
        toolchain_for_platform("linux-x64"),
        Toolchain::Native
    ));
    assert_eq!(
        full_command("make", &Toolchain::MinGW),
        "x86_64-w64-mingw32-make"
    );
    assert_eq!(full_command("make", &Toolchain::Native), "make");
    assert_eq!(
        full_command("make", &Toolchain::Custom(String::from("env X=1 "))),
        "env X=1 make"
    );
}

#[test]
fn windows_platform_build_gets_prefixed() {
    let run = begin_build(
        String::from("gcc main.c"),
        String::from("proj"),
        Some("windows"),
        policy_src_rm(),
    )
    .unwrap();
    assert_eq!(run.full_command, "x86_64-w64-mingw32-gcc main.c");
    assert_eq!(run.command, "gcc main.c");
}
