use sadb::{
    clear_package, device_command, execute_command_on_devices, install_apk, matching_packages,
    start_package, stop_package, uninstall_package, AdbError, DeviceSelection, FanOut,
    FanOutStep, Outcome,
};

fn ids(v: &[&str]) -> Vec<String> {
    v.iter().map(|s| s.to_string()).collect()
}

fn drive(mut f: FanOut, outcomes: &[Outcome]) -> (Vec<Vec<String>>, Result<(), AdbError>) {
    let mut runs = Vec::new();
    let mut k = 0;
    loop {
        match f.step() {
            FanOutStep::Run(argv) => {
                runs.push(argv);
                f.record(outcomes[k]);
                k += 1;
            }
            FanOutStep::Done(res) => return (runs, res),
        }
    }
}

#[test]
fn device_command_puts_selector_first() {
    assert_eq!(
        device_command("emu", &ids(&["shell", "ls"])),
        ids(&["-s", "emu", "shell", "ls"])
    );
}

#[test]
fn failures_do_not_stop_the_batch() {
    let sel = DeviceSelection::All(ids(&["d1", "d2", "d3"]));
    let f = execute_command_on_devices(sel, &["shell", "true"]);
    let (runs, res) = drive(f, &[Outcome::Failed, Outcome::Succeeded, Outcome::Failed]);
    assert_eq!(
        runs,
        vec![
            ids(&["-s", "d1", "shell", "true"]),
            ids(&["-s", "d2", "shell", "true"]),
            ids(&["-s", "d3", "shell", "true"]),
        ]
    );
    assert_eq!(res, Ok(()));
}

#[test]
fn start_failure_ends_the_batch() {
    let sel = DeviceSelection::All(ids(&["d1", "d2", "d3"]));
    let f = execute_command_on_devices(sel, &["install", "x.apk"]);
    let (runs, res) = drive(f, &[Outcome::Succeeded, Outcome::NotStarted]);
    assert_eq!(runs.len(), 2);
    assert_eq!(res, Err(AdbError::Spawn));
}

#[test]
fn single_selection_runs_once() {
    let f = stop_package(DeviceSelection::Single("emu".to_string()), "com.x");
    let (runs, res) = drive(f, &[Outcome::Failed]);
    assert_eq!(runs, vec![ids(&["-s", "emu", "shell", "am", "force-stop", "com.x"])]);
    assert_eq!(res, Ok(()));
}

#[test]
fn package_commands_build_their_arguments() {
    let one = || DeviceSelection::Single("e".to_string());
    let (r, _) = drive(start_package(one(), "p"), &[Outcome::Succeeded]);
    assert_eq!(
        r[0],
        ids(&[
            "-s",
            "e",
            "shell",
            "monkey",
            "-p",
            "p",
            "-c",
            "android.intent.category.LAUNCHER",
            "1"
        ])
    );
    let (r, _) = drive(clear_package(one(), "p"), &[Outcome::Succeeded]);
    assert_eq!(r[0], ids(&["-s", "e", "shell", "pm", "clear", "p"]));
    let (r, _) = drive(install_apk(one(), "app.apk"), &[Outcome::Succeeded]);
    assert_eq!(r[0], ids(&["-s", "e", "install", "app.apk"]));
    let (r, _) = drive(uninstall_package(one(), "p"), &[Outcome::Succeeded]);
    assert_eq!(r[0], ids(&["-s", "e", "uninstall", "p"]));
}

#[test]
fn search_keeps_matching_lines_in_order() {
    let listing = "package:com.android.chrome\npackage:com.example.app\npackage:org.chromium.x\n";
    assert_eq!(
        matching_packages(listing, "chrom"),
        ids(&["package:com.android.chrome", "package:org.chromium.x"])
    );
    assert!(matching_packages(listing, "nothing").is_empty());
}
