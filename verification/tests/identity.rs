use codex_akram::identity::{
    version_line, AUTH_KEYRING_SERVICE, CLI_NAME, DEFAULT_HOME_DIR, DISPLAY_NAME,
    GITHUB_LATEST_RELEASE_API, GITHUB_LATEST_RELEASE_URL, GITHUB_REPOSITORY, HOME_ENV_VAR,
    INSTALLER_COMMAND, INSTALLER_URL, PROJECT_OVERLAY_DIR, RUNTIME_CACHE_DIR,
    SECRETS_KEYRING_SERVICE, SQLITE_HOME_ENV_VAR, VERSION,
};
use codex_akram::versions::parse_codex_version;

#[test]
fn version_line_names_the_fork_and_its_version() {
    assert_eq!(version_line(), "codex-akram 0.145.0-ak.0.1\n");
    assert_eq!(parse_codex_version(&version_line()).expect("version"), VERSION);
}

#[test]
fn identity_keeps_the_fork_apart_from_upstream() {
    assert_eq!(CLI_NAME, "codex-akram");
    assert_eq!(DISPLAY_NAME, "Codex Akram");
    assert_eq!(HOME_ENV_VAR, "CODEX_AKRAM_HOME");
    assert_eq!(SQLITE_HOME_ENV_VAR, "CODEX_AKRAM_SQLITE_HOME");
    assert_eq!(DEFAULT_HOME_DIR, ".codex-akram");
    assert_eq!(PROJECT_OVERLAY_DIR, ".codex-akram");
    assert_eq!(RUNTIME_CACHE_DIR, "codex-akram-runtimes");
    assert_eq!(AUTH_KEYRING_SERVICE, "Codex Akram Auth");
    assert_eq!(SECRETS_KEYRING_SERVICE, "codex-akram");
    assert_eq!(GITHUB_REPOSITORY, "Akram012388/codex-akram");
    assert!(GITHUB_LATEST_RELEASE_API.ends_with("/repos/Akram012388/codex-akram/releases/latest"));
    assert!(GITHUB_LATEST_RELEASE_URL.ends_with("/Akram012388/codex-akram/releases/latest"));
    assert!(INSTALLER_COMMAND.contains(INSTALLER_URL));
    assert!(INSTALLER_COMMAND.ends_with("CODEX_AKRAM_NON_INTERACTIVE=1 sh"));
}
