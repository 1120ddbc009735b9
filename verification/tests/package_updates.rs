use telemetroid::system_update::available_package_update::AvailablePackageUpdate;
use telemetroid::system_update::update_check_error::UpdateCheckError;
use telemetroid::system_update::xbps_checker::{
    installed_versions, merge_updates, pending_updates, split_pkg_ver,
};
use telemetroid::telegram_interface::replies::updates_text;
use telemetroid::system_update::update_check_error::failed_command;

fn split(s: &str) -> Option<(String, String)> {
    split_pkg_ver(&s.chars().collect())
}

fn pair(a: &str, b: &str) -> (String, String) {
    (a.to_string(), b.to_string())
}

#[test]
fn pkgver_splits_at_the_last_dash_before_a_digit() {
    assert_eq!(split("firefox-126.0_1"), Some(pair("firefox", "126.0_1")));
    assert_eq!(split("xbps-triggers-0.127_1"), Some(pair("xbps-triggers", "0.127_1")));
    assert_eq!(split("gtk+3-3.24.41_1"), Some(pair("gtk+3", "3.24.41_1")));
    assert_eq!(split("libfoo-2-1.0_1"), Some(pair("libfoo-2", "1.0_1")));
    assert_eq!(split("a-1-b"), Some(pair("a", "1-b")));
    assert_eq!(split("-1"), Some(pair("", "1")));
    assert_eq!(split("noversion"), None);
    assert_eq!(split("trailing-"), None);
    assert_eq!(split("x"), None);
    assert_eq!(split(""), None);
}

#[test]
fn pending_updates_read_the_first_word() {
    let out = "firefox-126.0_1 update x86_64 https://repo-default.voidlinux.org/current 1234 5678\n\
               \n\
               \tlinux6.6-6.6.31_1 update x86_64 repo\n\
               garbage line\n";
    assert_eq!(
        pending_updates(out),
        vec![pair("firefox", "126.0_1"), pair("linux6.6", "6.6.31_1")]
    );
    assert!(pending_updates("").is_empty());
}

#[test]
fn installed_versions_read_the_second_word() {
    let out = "ii firefox-125.0.3_1     Mozilla Firefox web browser\n\
               ii linux6.6-6.6.30_1       Linux kernel and modules (6.6 series)\n\
               ii\n\
               ii firefox-125.0.2_1 again\n";
    assert_eq!(
        installed_versions(out),
        vec![pair("firefox", "125.0.3_1"), pair("linux6.6", "6.6.30_1"), pair("firefox", "125.0.2_1")]
    );
}

#[test]
fn merged_updates_take_the_last_installed_version() {
    let installed = vec![pair("firefox", "125.0.3_1"), pair("linux6.6", "6.6.30_1"), pair("firefox", "125.0.2_1")];
    let merged = merge_updates(vec![pair("firefox", "126.0_1"), pair("newpkg", "1.0_1")], &installed);
    assert_eq!(merged.len(), 2);
    assert_eq!(merged[0].name, "firefox");
    assert_eq!(merged[0].from_version, "125.0.2_1");
    assert_eq!(merged[0].to_version, "126.0_1");
    assert_eq!(merged[1].from_version, "");
    assert_eq!(merged[0].render(), "firefox 125.0.2_1 -> 126.0_1");
    assert_eq!(merged[1].render(), "newpkg  -> 1.0_1");
    assert_eq!(
        updates_text(&merged),
        "<b>Available updates: 2</b>\n\nfirefox 125.0.2_1 -> 126.0_1\nnewpkg  -> 1.0_1"
    );
}

#[test]
fn no_updates() {
    let none: Vec<AvailablePackageUpdate> = Vec::new();
    assert_eq!(updates_text(&none), "System is up to date");
    assert!(merge_updates(Vec::new(), &vec![pair("a", "1")]).is_empty());
}

#[test]
fn update_error_message() {
    let e = UpdateCheckError::CommandExecutionError(
        "xbps-install -S".to_string(),
        "ERROR: failed to fetch".to_string(),
    );
    assert_eq!(e.message(), "Failed to execute \"xbps-install -S\" command: ERROR: failed to fetch");
}

#[test]
fn failed_xbps_command() {
    let e = failed_command("xbps-install -S", b"  ERROR: [reposync] failed\n");
    match &e {
        UpdateCheckError::CommandExecutionError(c, m) => {
            assert_eq!(c, "xbps-install -S");
            assert_eq!(m, "ERROR: [reposync] failed");
        }
    }
    let e = failed_command("xbps-install -un", &[0xff, b' ']);
    assert_eq!(e.message(), "Failed to execute \"xbps-install -un\" command: \u{fffd}");
}
