use kagerou::plan::{
    applescript_double_quote_escape, command_for, plan_launch, posix_shell_quote, posix_watchdog,
    powershell_single_quote, LaunchPlan, TargetOs,
};

fn args(v: &[&str]) -> Vec<String> {
    v.iter().map(|s| s.to_string()).collect()
}

#[test]
fn quoting_survives_quotes_inside() {
    assert_eq!(powershell_single_quote("it's"), "'it''s'");
    assert_eq!(posix_shell_quote("it's"), "'it'\\''s'");
    assert_eq!(applescript_double_quote_escape("a\\b\"c"), "a\\\\b\\\"c");
}

#[test]
fn the_watchdog_stops_the_core_once_its_run_file_is_gone() {
    assert_eq!(
        posix_watchdog("/opt/sing-box", &args(&["run", "-c", "/tmp/c.json"]), "/tmp/x.run"),
        "'/opt/sing-box' 'run' '-c' '/tmp/c.json' & child=$!; while [ -e '/tmp/x.run' ] && kill -0 $child 2>/dev/null; do sleep 1; done; kill $child 2>/dev/null; wait $child 2>/dev/null"
    );
}

#[test]
fn each_platform_gets_its_own_elevation() {
    let a = args(&["run"]);
    assert!(matches!(plan_launch(TargetOs::Windows, "b", &a, false), LaunchPlan::WindowsRunAs { .. }));
    assert!(matches!(plan_launch(TargetOs::MacOs, "b", &a, true), LaunchPlan::MacOsAdminPrompt { .. }));
    assert!(matches!(plan_launch(TargetOs::Linux, "b", &a, false), LaunchPlan::LinuxPolkit { .. }));
    assert!(matches!(plan_launch(TargetOs::Linux, "b", &a, true), LaunchPlan::Direct { .. }));
}

#[test]
fn tun_mode_wraps_the_binary_in_an_elevation_command() {
    let plain = command_for("/opt/kagerou/sing-box", "/tmp/config.json", None, Some(TargetOs::MacOs), false);
    assert_eq!(plain.program, "/opt/kagerou/sing-box");
    assert_eq!(plain.args, args(&["run", "-c", "/tmp/config.json"]));

    let wrapped = command_for(
        "/opt/kagerou/sing-box",
        "/tmp/config.json",
        Some("/tmp/x.run"),
        Some(TargetOs::MacOs),
        false,
    );
    assert_ne!(wrapped.program, "/opt/kagerou/sing-box");
    assert_eq!(wrapped.program, "osascript");

    let linux = command_for(
        "/opt/kagerou/sing-box",
        "/tmp/config.json",
        Some("/tmp/x.run"),
        Some(TargetOs::Linux),
        false,
    );
    assert_eq!(linux.program, "pkexec");
    assert_eq!(linux.args[0], "/bin/sh");
    assert_eq!(linux.args[1], "-c");

    let capable = command_for(
        "/opt/kagerou/sing-box",
        "/tmp/config.json",
        Some("/tmp/x.run"),
        Some(TargetOs::Linux),
        true,
    );
    assert_eq!(capable.program, "/opt/kagerou/sing-box");
}
