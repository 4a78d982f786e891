use zone_builder::command::{render_command, CommandBuilder};
use zone_builder::config::{Builder, ConfigKey};
use zone_builder::log::LogType;
use zone_builder::manifest::patch_manifest;
use zone_builder::pipeline::{elapsed_seconds, invoked_stages, Pipeline, Stage};
use zone_builder::staging::StagingStep;

fn props(pairs: &[(ConfigKey, &str)]) -> Vec<(ConfigKey, String)> {
    pairs.iter().map(|(k, v)| (*k, v.to_string())).collect()
}

fn example_builder() -> Builder {
    Builder::new(&props(&[
        (ConfigKey::PackageName, "com.example.app"),
        (ConfigKey::VersionName, "2.0"),
        (ConfigKey::VersionCode, "42"),
        (ConfigKey::Keystore, "release.keystore"),
        (ConfigKey::KeystorePass, "secret"),
        (ConfigKey::ZpakPath, "assets.bundle"),
    ]))
}

fn strings(v: &[&str]) -> Vec<String> {
    v.iter().map(|s| s.to_string()).collect()
}

#[test]
fn manifest_patch_replaces_the_four_attributes() {
    let text = "<manifest package=\"old.name\" android:versionCode=\"1\"\n    android:versionName=\"0.1\">\n  <provider android:authorities=\"old.name.androidx-startup\" android:exported=\"false\"/>\n</manifest>\n";
    let out = example_builder().edit_manifest(&text.as_bytes().to_vec());
    let expected = "<manifest package=\"com.example.app\" android:versionCode=\"42\"\n    android:versionName=\"2.0\">\n  <provider android:authorities=\"com.example.app.androidx-startup\" android:exported=\"false\"/>\n</manifest>\n";
    assert_eq!(String::from_utf8(out).unwrap(), expected);
}

#[test]
fn manifest_patch_in_any_order() {
    let text = "a android:versionName=\"x\" b package=\"p\" c android:authorities=\"q\" d android:versionCode=\"7\" e";
    let out = example_builder().edit_manifest(&text.as_bytes().to_vec());
    let expected = "a android:versionName=\"2.0\" b package=\"com.example.app\" c android:authorities=\"com.example.app.androidx-startup\" d android:versionCode=\"42\" e";
    assert_eq!(String::from_utf8(out).unwrap(), expected);
}

#[test]
fn manifest_without_attributes_is_unchanged() {
    let text = "<application android:label=\"App\" android:icon=\"@mipmap/icon\">\u{e9}</application>";
    let out = example_builder().edit_manifest(&text.as_bytes().to_vec());
    assert_eq!(String::from_utf8(out).unwrap(), text);
}

#[test]
fn manifest_empty_or_unterminated_values_are_kept() {
    let text = "package=\"\" android:versionCode = \"3\" android:versionName=\"open";
    let out = patch_manifest(&text.as_bytes().to_vec(), b"p", b"1", b"n");
    assert_eq!(String::from_utf8(out).unwrap(), text);
}

#[test]
fn manifest_empty_text() {
    let out = patch_manifest(&Vec::new(), b"p", b"1", b"n");
    assert!(out.is_empty());
}

#[test]
fn manifest_patch_twice_is_stable() {
    let text = "package=\"a\" android:versionCode=\"1\"";
    let b = example_builder();
    let once = b.edit_manifest(&text.as_bytes().to_vec());
    let twice = b.edit_manifest(&once);
    assert_eq!(once, twice);
}

#[test]
fn defaults_with_empty_input() {
    let b = Builder::new(&Vec::new());
    assert_eq!(b.package_name(), "com.zone.app");
    assert_eq!(b.version(), "1.0.0");
    assert_eq!(b.version_code(), "10");
    assert_eq!(b.java_home(), &None);
    assert_eq!(b.zpak_path(), "resource.zpak");
    assert_eq!(b.sign_key(), "android.keystore");
    assert_eq!(b.sign_key_pass(), "");
}

#[test]
fn supplied_values_replace_defaults() {
    let b = example_builder();
    assert_eq!(b.package_name(), "com.example.app");
    assert_eq!(b.version(), "2.0");
    assert_eq!(b.version_code(), "42");
    assert_eq!(b.zpak_path(), "assets.bundle");
    assert_eq!(b.sign_key(), "release.keystore");
    assert_eq!(b.sign_key_pass(), "secret");
}

#[test]
fn later_value_of_a_key_wins() {
    let b = Builder::new(&props(&[
        (ConfigKey::VersionCode, "1"),
        (ConfigKey::JavaHome, "/opt/jdk"),
        (ConfigKey::VersionCode, "2"),
    ]));
    assert_eq!(b.version_code(), "2");
    assert_eq!(b.java_home(), &Some("/opt/jdk".to_string()));
}

#[test]
fn java_from_configured_home() {
    let b = Builder::new(&props(&[(ConfigKey::JavaHome, "/opt/jdk")]));
    assert_eq!(b.java_command(Some("/env/jdk".to_string()), false), "/opt/jdk/bin/java");
    assert_eq!(b.java_command(None, true), "/opt/jdk/bin/java.exe");
}

#[test]
fn java_from_environment_then_search_path() {
    let b = Builder::new(&Vec::new());
    assert_eq!(b.java_command(Some("/env/jdk".to_string()), false), "/env/jdk/bin/java");
    assert_eq!(b.java_command(None, false), "java");
}

#[test]
fn sign_command_arguments() {
    let cb = CommandBuilder::new();
    let cmd = cb.make_sign_command(
        "k.ks".to_string(),
        "pw".to_string(),
        "in.apk".to_string(),
        "out.apk".to_string(),
    );
    assert_eq!(
        cmd,
        strings(&[
            "-jar", "apksigner.jar", "sign", "--ks", "k.ks", "--ks-pass", "pass:pw", "--key-pass",
            "pass:pw", "--out", "out.apk", "in.apk"
        ])
    );
}

#[test]
fn sign_command_with_empty_passphrase() {
    let b = Builder::new(&Vec::new());
    let cmd = b.sign_command("base_aligned.apk".to_string(), "out.apk".to_string());
    assert_eq!(cmd[4], "android.keystore");
    assert_eq!(cmd[6], "pass:");
    assert_eq!(cmd[8], "pass:");
}

#[test]
fn apktool_command_arguments() {
    let cb = CommandBuilder::new();
    let cmd = cb.make_apktool_command("/work/template".to_string(), "base.apk".to_string());
    assert_eq!(cmd, strings(&["-jar", "apktool.jar", "b", "/work/template", "-o", "base.apk"]));
}

#[test]
fn zipalign_command_arguments() {
    let cb = CommandBuilder::new();
    let tool = cb.zipalign_binary("/work/buildtools", "linux");
    assert_eq!(tool, "/work/buildtools/linux/zipalign");
    let cmd = cb.make_zipalign_command(tool, "base.apk".to_string(), "base_aligned.apk".to_string());
    assert_eq!(
        cmd,
        strings(&["/work/buildtools/linux/zipalign", "-v", "4", "base.apk", "base_aligned.apk"])
    );
}

#[test]
fn zipalign_binary_on_windows() {
    let cb = CommandBuilder::new();
    assert_eq!(cb.zipalign_binary("C:/tools", "windows"), "C:/tools/windows/zipalign.exe");
}

#[test]
fn assembly_is_deterministic() {
    let b = example_builder();
    let a = b.sign_command("i".to_string(), "o".to_string());
    let c = b.sign_command("i".to_string(), "o".to_string());
    assert_eq!(a, c);
}

#[test]
fn command_line_rendering() {
    let args = strings(&["-jar", "apktool.jar", "b"]);
    assert_eq!(render_command("java", &args), "java -jar apktool.jar b");
    assert_eq!(render_command("java", &Vec::new()), "java");
}

#[test]
fn all_stages_run_when_each_succeeds() {
    let stages = invoked_stages(&vec![0, 0, 0, 0, 0]);
    assert_eq!(
        stages,
        vec![Stage::Staging, Stage::ManifestPatch, Stage::Repackage, Stage::Align, Stage::Sign]
    );
    let mut p = Pipeline::new();
    for _ in 0..5 {
        p.report(0);
    }
    assert_eq!(p.current(), Stage::Done);
    assert_eq!(p.outcome(), Some(Ok(())));
}

#[test]
fn failed_repackage_stops_align_and_sign() {
    let stages = invoked_stages(&vec![0, 0, 1, 0, 0]);
    assert_eq!(stages, vec![Stage::Staging, Stage::ManifestPatch, Stage::Repackage]);
    let mut p = Pipeline::new();
    p.report(0);
    p.report(0);
    assert_eq!(p.outcome(), None);
    p.report(1);
    assert_eq!(p.current(), Stage::Aborted);
    p.report(0);
    assert_eq!(p.current(), Stage::Aborted);
    assert_eq!(p.outcome(), Some(Err(Stage::Repackage)));
}

#[test]
fn missing_bundle_aborts_at_staging() {
    let stages = invoked_stages(&vec![-1, 0, 0]);
    assert_eq!(stages, vec![Stage::Staging]);
    assert_eq!(Stage::Staging.next(-1), Stage::Aborted);
    assert_eq!(Stage::Sign.next(0), Stage::Done);
    assert!(!Stage::Done.is_active());
}

#[test]
fn elapsed_time() {
    assert_eq!(elapsed_seconds(100, 103), 3);
    assert_eq!(elapsed_seconds(100, 100), 0);
    assert_eq!(elapsed_seconds(100, 90), 0);
}

#[test]
fn staging_steps_for_existing_bundle() {
    let b = example_builder();
    let steps = b.staging_steps(true).unwrap();
    assert_eq!(steps.len(), 3);
    assert!(matches!(&steps[0], StagingStep::RemoveFile(p) if p == "template/assets/resource.zpak"));
    assert!(matches!(&steps[1], StagingStep::RemoveDir(p) if p == "template/build"));
    assert!(matches!(&steps[2], StagingStep::Copy(f, t) if f == "assets.bundle" && t == "template/assets/resource.zpak"));
    assert!(b.staging_steps(false).is_none());
}

#[test]
fn log_prefixes() {
    assert_eq!(LogType::INFO.prefix(), "[I]");
    assert_eq!(LogType::WARN.prefix(), "[W]");
    assert_eq!(LogType::ERR.prefix(), "[E]");
    assert_eq!(LogType::SUC.prefix(), "[S]");
}
