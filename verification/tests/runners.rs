//! Runner discovery, availability, and the invocations the variants
//! compute, exercised on the facts a host would gather.

use bottles_core::gptk::GPTK;
use bottles_core::proton::Proton;
use bottles_core::runner::{Runner, RunnerInfo, VersionProbe};
use bottles_core::umu::UMU;
use bottles_core::wine::Wine;

fn s(x: &str) -> String {
    x.to_string()
}

fn info(name: &str, version: &str, directory: &str, executable: &str) -> RunnerInfo {
    RunnerInfo {
        name: s(name),
        version: s(version),
        directory: s(directory),
        executable: s(executable),
    }
}

#[test]
fn wine_discovery_success() {
    let w = Wine::try_from(
        s("/opt/runners/R"),
        true,
        true,
        Some(VersionProbe::Output(s("wine-9.0\n"))),
    )
    .unwrap();
    assert!(w.info.version.starts_with("wine-9.0"));
    assert_eq!(w.info.name, "R");
    assert_eq!(w.info.directory, "/opt/runners/R");
    assert_eq!(w.info.executable, "bin/wine");
    assert_eq!(w.info.executable_path(), "/opt/runners/R/bin/wine");
}

#[test]
fn discovery_rejects_missing_directory() {
    let e = Wine::try_from(s("/nowhere"), false, false, None).unwrap_err();
    assert!(e.is_not_found());
    assert_eq!(e.message(), "/nowhere does not exist");
    let e2 = Proton::discover_info(s("/nowhere"), false, false, None).unwrap_err();
    assert!(e2.is_not_found());
    let e3 = GPTK::discover_info(s("/nowhere"), false, false, None).unwrap_err();
    assert!(e3.is_not_found());
    let e4 = UMU::try_from(s("/nowhere"), None, false, false, None).unwrap_err();
    assert!(e4.is_not_found());
}

#[test]
fn discovery_rejects_missing_executable() {
    let e = Wine::try_from(s("/opt/r"), true, false, None).unwrap_err();
    assert!(e.is_not_found());
    assert_eq!(e.message(), "bin/wine not found in /opt/r");
    let e2 = UMU::try_from(s("/opt/r"), None, true, false, None).unwrap_err();
    assert!(e2.is_not_found());
    assert_eq!(e2.message(), "umu-run not found in /opt/r");
}

#[test]
fn discovery_surfaces_probe_failure_as_io() {
    let e = Wine::try_from(
        s("/opt/r"),
        true,
        true,
        Some(VersionProbe::Failed(s("permission denied"))),
    )
    .unwrap_err();
    assert!(!e.is_not_found());
    assert_eq!(e.message(), "permission denied");
}

#[test]
fn version_fallback_to_display_name() {
    let w = Wine::try_from(s("/opt/runners/R"), true, true, Some(VersionProbe::Output(s(""))))
        .unwrap();
    assert_eq!(w.info.version, "R");
    assert_eq!(w.info.version, w.info.name);
}

#[test]
fn display_name_falls_back_to_unknown() {
    let w = Wine::try_from(s("/"), true, true, Some(VersionProbe::Output(s("v1")))).unwrap();
    assert_eq!(w.info.name, "unknown");
    let w2 = Wine::try_from(s("/opt/r/"), true, true, Some(VersionProbe::Output(s("v1"))))
        .unwrap();
    assert_eq!(w2.info.name, "r");
}

#[test]
fn proton_discovery_success_and_name_propagation() {
    let pinfo = Proton::discover_info(
        s("/opt/runners/R"),
        true,
        true,
        Some(VersionProbe::Output(s("proton-9"))),
    )
    .unwrap();
    assert_eq!(pinfo.executable, "proton");
    let inner = Wine::try_from(
        s("/opt/runners/R/files"),
        true,
        true,
        Some(VersionProbe::Output(s("wine-9"))),
    )
    .unwrap();
    let p = Proton::try_from(pinfo, inner);
    assert_eq!(p.info.name, "R");
    assert_eq!(p.wine.info.name, "R", "the inner Wine reports the outer brand");
    assert_eq!(p.wine().info().name(), "R");
    assert_eq!(p.wine.info.version, "wine-9");
    assert_eq!(p.wine.info.directory, "/opt/runners/R/files");
}

#[test]
fn gptk_name_propagation() {
    let ginfo = GPTK::discover_info(
        s("/opt/gptk"),
        true,
        true,
        Some(VersionProbe::Output(s("gptk-1"))),
    )
    .unwrap();
    let inner = Wine::try_from(
        s("/opt/gptk/files"),
        true,
        true,
        Some(VersionProbe::Output(s("wine-8"))),
    )
    .unwrap();
    let g = GPTK::try_from(ginfo, inner);
    assert_eq!(g.wine.info.name, "gptk");
    assert_eq!(g.info.name, "gptk");
}

#[test]
fn availability_default() {
    let w = Wine::try_from(s("/opt/r"), true, true, Some(VersionProbe::Output(s("v"))))
        .unwrap();
    assert!(w.is_available(true));
    assert!(!w.is_available(false), "a deleted executable makes it unavailable");
    let p = Proton::try_from(info("r", "v", "/opt/r", "proton"), w);
    assert!(p.is_available(true));
    assert!(!p.is_available(false));
}

#[test]
fn umu_availability_requires_wrapped_proton() {
    let wine = Wine { info: info("r", "v", "/opt/r/files", "bin/wine") };
    let proton = Proton::try_from(info("r", "v", "/opt/r", "proton"), wine);
    let with = UMU::try_from(
        s("/opt/umu"),
        Some(proton),
        true,
        true,
        Some(VersionProbe::Output(s("umu-launcher 1.2.3 stable"))),
    )
    .unwrap();
    assert!(with.is_available(true, true));
    assert!(!with.is_available(true, false));
    assert!(!with.is_available(false, true));
    let without = UMU::try_from(
        s("/opt/umu"),
        None,
        true,
        true,
        Some(VersionProbe::Output(s("umu-launcher 1.2.3 stable"))),
    )
    .unwrap();
    assert!(without.is_available(true, false));
}

#[test]
fn gptk_availability_gate() {
    let wine = Wine { info: info("g", "v", "/opt/g/files", "bin/wine") };
    let g = GPTK::try_from(info("g", "v", "/opt/g", "proton"), wine);
    assert!(g.is_available(true, &s("arm64")));
    assert!(g.is_available(true, &s("i386")));
    assert!(g.is_available(true, &s("x86_64")));
    assert!(!g.is_available(true, &s("mips")));
    assert!(!g.is_available(false, &s("arm64")));
}

#[test]
fn umu_version_normalization() {
    let u = UMU::try_from(
        s("/opt/umu"),
        None,
        true,
        true,
        Some(VersionProbe::Output(s("umu-launcher version 1.2.3"))),
    )
    .unwrap();
    assert_eq!(u.info.version, "1.2.3", "the third whitespace-separated token is kept");
    let single = UMU::try_from(
        s("/opt/umu"),
        None,
        true,
        true,
        Some(VersionProbe::Output(s("one-token"))),
    )
    .unwrap();
    assert_eq!(single.info.version, "unknown");
    let empty = UMU::try_from(s("/opt/umu"), None, true, true, Some(VersionProbe::Output(s(""))))
        .unwrap();
    assert_eq!(empty.info.version, "unknown");
}

#[test]
fn wine_initialize_invocation() {
    let w = Wine { info: info("r", "v", "/opt/r", "bin/wine") };
    let inv = w.initialize_invocation(&s("/tmp/prefix"));
    assert_eq!(inv.program, "/opt/r/bin/wine");
    assert_eq!(inv.args, vec![s("wineboot"), s("--init")]);
    assert_eq!(inv.env, vec![(s("WINEPREFIX"), s("/tmp/prefix"))]);
}

#[test]
fn proton_initialize_invocation() {
    let wine = Wine { info: info("r", "v", "/opt/r/files", "bin/wine") };
    let p = Proton::try_from(info("r", "v", "/opt/r", "proton"), wine);
    let inv = p.initialize_invocation(&s("/tmp/prefix"));
    assert_eq!(inv.program, "/opt/r/proton");
    assert_eq!(inv.args, vec![s("run"), s("wineboot")]);
    assert_eq!(
        inv.env,
        vec![
            (s("WINEPREFIX"), s("/tmp/prefix")),
            (s("STEAM_COMPAT_DATA_PATH"), s("/tmp/prefix")),
            (s("STEAM_COMPAT_CLIENT_INSTALL_PATH"), s("")),
        ]
    );
}

#[test]
fn umu_initialize_with_wrapped_proton() {
    let wine = Wine { info: info("p9", "v", "/opt/proton-9/files", "bin/wine") };
    let proton = Proton::try_from(info("p9", "v", "/opt/proton-9", "proton"), wine);
    let u = UMU::try_from(
        s("/opt/umu"),
        Some(proton),
        true,
        true,
        Some(VersionProbe::Output(s("umu-launcher 1.2.3 stable"))),
    )
    .unwrap();
    let inv = u.initialize_invocation(&s("/tmp/prefix"));
    assert_eq!(inv.program, "/opt/umu/umu-run");
    assert_eq!(inv.args, vec![s("wineboot")]);
    assert_eq!(
        inv.env,
        vec![
            (s("WINEPREFIX"), s("/tmp/prefix")),
            (s("PROTONPATH"), s("/opt/proton-9")),
        ]
    );
}

#[test]
fn umu_initialize_without_proton_sets_no_protonpath() {
    let u = UMU::try_from(s("/opt/umu"), None, true, true, Some(VersionProbe::Output(s("v"))))
        .unwrap();
    let inv = u.initialize_invocation(&s("/tmp/prefix"));
    assert_eq!(inv.env, vec![(s("WINEPREFIX"), s("/tmp/prefix"))]);
}

#[test]
fn launch_merges_caller_env_after_mandatory() {
    let w = Wine { info: info("r", "v", "/opt/r", "bin/wine") };
    let caller = vec![(s("WINEPREFIX"), s("/elsewhere")), (s("DXVK_HUD"), s("1"))];
    let inv = w.launch_invocation(&s("game.exe"), &vec![s("-fullscreen")], &s("/tmp/p"), &caller);
    assert_eq!(inv.program, "/opt/r/bin/wine");
    assert_eq!(inv.args, vec![s("game.exe"), s("-fullscreen")]);
    assert_eq!(
        inv.env,
        vec![
            (s("WINEPREFIX"), s("/tmp/p")),
            (s("WINEPREFIX"), s("/elsewhere")),
            (s("DXVK_HUD"), s("1")),
        ],
        "mandatory variables come first; the caller's later entry overrides on apply"
    );
}

#[test]
fn proton_launch_invocation() {
    let wine = Wine { info: info("r", "v", "/opt/r/files", "bin/wine") };
    let p = Proton::try_from(info("r", "v", "/opt/r", "proton"), wine);
    let inv = p.launch_invocation(&s("app.exe"), &vec![], &s("/tmp/p"), &vec![]);
    assert_eq!(inv.args, vec![s("run"), s("app.exe")]);
    assert_eq!(inv.env.len(), 3);
}

#[test]
fn umu_launch_invocation_with_protonpath() {
    let wine = Wine { info: info("p9", "v", "/opt/proton-9/files", "bin/wine") };
    let proton = Proton::try_from(info("p9", "v", "/opt/proton-9", "proton"), wine);
    let u = UMU::try_from(
        s("/opt/umu"),
        Some(proton),
        true,
        true,
        Some(VersionProbe::Output(s("umu-launcher 1.2.3 stable"))),
    )
    .unwrap();
    let inv = u.launch_invocation(&s("app.exe"), &vec![s("-w")], &s("/tmp/p"), &vec![]);
    assert_eq!(inv.program, "/opt/umu/umu-run");
    assert_eq!(inv.args, vec![s("app.exe"), s("-w")]);
    assert_eq!(
        inv.env,
        vec![(s("WINEPREFIX"), s("/tmp/p")), (s("PROTONPATH"), s("/opt/proton-9"))]
    );
}

#[test]
fn runner_metadata_accessors() {
    let w = Wine { info: info("r", "wine-9.0", "/opt/r", "bin/wine") };
    assert_eq!(w.info().name(), "r");
    assert_eq!(w.info().version(), "wine-9.0");
    assert_eq!(w.info().directory(), "/opt/r");
    assert_eq!(w.wine().info.name, "r");
}
