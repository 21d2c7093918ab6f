use slicer_service::dispatch::{
    confirm_launch, installation_probe, launch_command, plan_open, DispatchError, HostCheck,
    LaunchCommand, Probe,
};
use slicer_service::slicer::{get_flatpak_slicer_package, Slicer};

fn owned(words: &[&str]) -> Vec<String> {
    words.iter().map(|w| w.to_string()).collect()
}

const BUILTIN: [Slicer; 4] = [
    Slicer::PrusaSlicer,
    Slicer::OrcaSlicer,
    Slicer::Cura,
    Slicer::BambuStudio,
];

#[test]
fn package_identifiers() {
    assert_eq!(get_flatpak_slicer_package(&Slicer::PrusaSlicer), "com.prusa3d.PrusaSlicer");
    assert_eq!(get_flatpak_slicer_package(&Slicer::OrcaSlicer), "io.github.softfever.OrcaSlicer");
    assert_eq!(get_flatpak_slicer_package(&Slicer::Cura), "com.ultimaker.cura");
    assert_eq!(get_flatpak_slicer_package(&Slicer::BambuStudio), "com.bambulab.BambuStudio");
    assert_eq!(get_flatpak_slicer_package(&Slicer::Custom), "");
}

#[test]
fn probe_custom_is_installed_without_asking() {
    assert_eq!(installation_probe(&Slicer::Custom), Probe::Known(true));
}

#[test]
fn probe_builtin_asks_flatpak() {
    assert_eq!(
        installation_probe(&Slicer::Cura),
        Probe::Ask(LaunchCommand {
            program: "flatpak".to_string(),
            args: owned(&["info", "com.ultimaker.cura"]),
        })
    );
}

#[test]
fn builtin_without_paths_fails_before_probing() {
    for slicer in BUILTIN {
        assert_eq!(plan_open(&slicer, &Vec::new(), ""), Err(DispatchError::NoPathsProvided));
        assert_eq!(
            plan_open(&slicer, &Vec::new(), "/usr/bin/tool"),
            Err(DispatchError::NoPathsProvided)
        );
    }
}

#[test]
fn builtin_runs_through_flatpak_file_forwarding() {
    let pending = plan_open(&Slicer::PrusaSlicer, &owned(&["/a.stl", "/b.3mf"]), "").unwrap();
    assert_eq!(
        pending.check,
        HostCheck::CommandSucceeds(LaunchCommand {
            program: "flatpak".to_string(),
            args: owned(&["info", "com.prusa3d.PrusaSlicer"]),
        })
    );
    assert_eq!(
        confirm_launch(pending, true),
        Ok(LaunchCommand {
            program: "flatpak".to_string(),
            args: owned(&[
                "run",
                "--file-forwarding",
                "com.prusa3d.PrusaSlicer",
                "@@",
                "/a.stl",
                "/b.3mf",
                "@@",
            ]),
        })
    );
}

#[test]
fn builtin_not_installed() {
    let pending = plan_open(&Slicer::BambuStudio, &owned(&["/a.stl"]), "").unwrap();
    assert_eq!(confirm_launch(pending, false), Err(DispatchError::NotInstalled));
}

#[test]
fn custom_without_command_is_unset() {
    assert_eq!(
        plan_open(&Slicer::Custom, &owned(&["/tmp/model.3mf"]), ""),
        Err(DispatchError::CustomPathNotSet)
    );
}

#[test]
fn custom_missing_binary_names_the_path() {
    let pending =
        plan_open(&Slicer::Custom, &owned(&["/tmp/model.3mf"]), "opt/nonexistent/tool -x").unwrap();
    assert_eq!(pending.check, HostCheck::PathExists("opt/nonexistent/tool".to_string()));
    assert_eq!(
        confirm_launch(pending, false),
        Err(DispatchError::ExecutableNotFound("opt/nonexistent/tool".to_string()))
    );
}

#[test]
fn custom_absolute_executable_reads_as_argument() {
    let pending =
        plan_open(&Slicer::Custom, &owned(&["/tmp/model.3mf"]), "/nonexistent/tool -x").unwrap();
    assert_eq!(pending.check, HostCheck::PathExists(String::new()));
    assert_eq!(
        confirm_launch(pending, false),
        Err(DispatchError::ExecutableNotFound(String::new()))
    );
    let pending =
        plan_open(&Slicer::Custom, &owned(&["/tmp/model.3mf"]), "\"/usr/bin/tool\" --flag").unwrap();
    assert_eq!(pending.check, HostCheck::PathExists(String::new()));
}

#[test]
fn custom_command_end_to_end() {
    let pending = plan_open(
        &Slicer::Custom,
        &owned(&["/tmp/model.3mf"]),
        "\"C:/Program Files/tool.exe\" --flag",
    )
    .unwrap();
    assert_eq!(pending.check, HostCheck::PathExists("C:/Program Files/tool.exe".to_string()));
    assert_eq!(
        confirm_launch(pending, true),
        Ok(LaunchCommand {
            program: "C:/Program Files/tool.exe".to_string(),
            args: owned(&["--flag", "/tmp/model.3mf"]),
        })
    );
}

#[test]
fn custom_without_paths_checks_the_executable_first() {
    let pending = plan_open(&Slicer::Custom, &Vec::new(), "tool").unwrap();
    assert_eq!(pending.check, HostCheck::PathExists("tool".to_string()));
    assert_eq!(confirm_launch(pending, true), Err(DispatchError::NoPathsProvided));
}

#[test]
fn custom_blank_command_resolves_to_empty_path() {
    let pending = plan_open(&Slicer::Custom, &owned(&["/m.stl"]), "   ").unwrap();
    assert_eq!(pending.check, HostCheck::PathExists(String::new()));
}

#[test]
fn launch_appends_paths_after_arguments() {
    assert_eq!(
        launch_command("prog", &owned(&["-a", "b"]), &owned(&["/x", "/y"])),
        Ok(LaunchCommand { program: "prog".to_string(), args: owned(&["-a", "b", "/x", "/y"]) })
    );
    assert_eq!(
        launch_command("prog", &owned(&["-a"]), &Vec::new()),
        Err(DispatchError::NoPathsProvided)
    );
}
