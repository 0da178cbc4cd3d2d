//! Runtime identity of the independent codex-akram fork: its names, its
//! version, where it keeps its state, and where it is released.

use vstd::prelude::*;
use crate::versions::{lemma_version_output_reads_back, second_word};

verus! {

/// The executable's name.
pub const CLI_NAME: &'static str = "codex-akram";

/// The name shown to people.
pub const DISPLAY_NAME: &'static str = "Codex Akram";

/// The release version of the fork.
pub const VERSION: &'static str = "0.145.0-ak.0.1";

/// The variable that moves the fork's state directory.
pub const HOME_ENV_VAR: &'static str = "CODEX_AKRAM_HOME";

/// The variable that moves the fork's SQLite storage.
pub const SQLITE_HOME_ENV_VAR: &'static str = "CODEX_AKRAM_SQLITE_HOME";

/// The state directory under the user's home.
pub const DEFAULT_HOME_DIR: &'static str = ".codex-akram";

/// The project directory whose configuration overlays `.codex`.
pub const PROJECT_OVERLAY_DIR: &'static str = ".codex-akram";

/// The cache directory of managed runtimes.
pub const RUNTIME_CACHE_DIR: &'static str = "codex-akram-runtimes";

/// The keyring service that holds the sign-in.
pub const AUTH_KEYRING_SERVICE: &'static str = "Codex Akram Auth";

/// The keyring service that holds other secrets.
pub const SECRETS_KEYRING_SERVICE: &'static str = "codex-akram";

/// The GitHub repository of the fork.
pub const GITHUB_REPOSITORY: &'static str = "Akram012388/codex-akram";

/// The API address of the latest release.
pub const GITHUB_LATEST_RELEASE_API: &'static str =
    "https://api.github.com/repos/Akram012388/codex-akram/releases/latest";

/// The web page of the latest release.
pub const GITHUB_LATEST_RELEASE_URL: &'static str =
    "https://github.com/Akram012388/codex-akram/releases/latest";

/// The address of the install script.
pub const INSTALLER_URL: &'static str =
    "https://raw.githubusercontent.com/Akram012388/codex-akram/main/scripts/install/install-akram.sh";

/// The command that installs the fork without prompts.
pub const INSTALLER_COMMAND: &'static str =
    "curl -fsSL https://raw.githubusercontent.com/Akram012388/codex-akram/main/scripts/install/install-akram.sh | CODEX_AKRAM_NON_INTERACTIVE=1 sh";

/// The line that `codex-akram --version` prints: the name, a space, the
/// version and a newline. Its second word is the version.
pub fn version_line() -> (r: String)
    ensures
        r@ == CLI_NAME@ + " "@ + VERSION@ + "\n"@,
        second_word(r@) == VERSION@,
{
    proof {
        reveal_strlit("codex-akram");
        reveal_strlit("0.145.0-ak.0.1");
        reveal_strlit(" ");
        reveal_strlit("\n");
        lemma_version_output_reads_back(CLI_NAME@, " "@, VERSION@, "\n"@);
    }
    let mut s = String::from_str(CLI_NAME);
    s.append(" ");
    s.append(VERSION);
    s.append("\n");
    s
}

} // verus!
