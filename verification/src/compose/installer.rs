//! What to offer where no backend is installed.
use vstd::prelude::*;
use vstd::string::*;
use crate::compose::error::{ComposeError, ErrorView, Result};
use crate::platform::Platform;

verus! {

/// Offers to install a backend.
#[derive(Debug)]
pub struct BackendInstaller {
    pub no_prompt: bool,
}

/// A backend that can be installed.
#[derive(Debug, Clone, Copy)]
pub struct InstallOption {
    pub name: &'static str,
    pub description: &'static str,
    pub install_command: &'static str,
    pub docs_url: &'static str,
}

/// The backends that can be installed on a platform, the recommended one first.
pub open spec fn install_options(platform: Platform) -> Seq<InstallOption> {
    if platform == Platform::MacOs {
        seq![
            InstallOption {
                name: "apple/container",
                description: "Apple's native container runtime (recommended)",
                install_command: "brew install container",
                docs_url: "https://github.com/apple/container",
            },
            InstallOption {
                name: "podman",
                description: "Daemonless, rootless OCI runtime",
                install_command: "brew install podman && podman machine init && podman machine start",
                docs_url: "https://podman.io",
            },
        ]
    } else {
        seq![
            InstallOption {
                name: "podman",
                description: "Daemonless, rootless OCI runtime (recommended)",
                install_command: "sudo apt-get install -y podman",
                docs_url: "https://podman.io/getting-started/installation",
            },
        ]
    }
}

impl BackendInstaller {
    /// An installer that asks, unless a setting forbids it.
    pub fn new(forbidden: bool) -> (r: BackendInstaller)
        ensures
            r.no_prompt == forbidden,
    {
        BackendInstaller { no_prompt: forbidden }
    }

    /// Whether the user can be asked.
    pub fn check_prompt(&self, is_terminal: bool) -> (r: Result<()>)
        ensures
            match r {
                Ok(_) => !self.no_prompt && is_terminal,
                Err(e) => if self.no_prompt {
                    e@ == (ErrorView::ValidationError {
                        message: "No container backend found and PERRY_NO_INSTALL_PROMPT is set."@,
                    })
                } else {
                    !is_terminal && e@ == (ErrorView::ValidationError {
                        message: "No container backend found and stderr is not a TTY."@,
                    })
                },
            },
    {
        if self.no_prompt {
            return Err(
                ComposeError::validation(
                    "No container backend found and PERRY_NO_INSTALL_PROMPT is set.",
                ),
            );
        }
        if !is_terminal {
            return Err(
                ComposeError::validation("No container backend found and stderr is not a TTY."),
            );
        }
        Ok(())
    }

    /// The backends that can be installed on a platform.
    pub fn platform_options(&self, platform: Platform) -> (r: Vec<InstallOption>)
        ensures
            r@ == install_options(platform),
    {
        let r: Vec<InstallOption> = match platform {
            Platform::MacOs => vec![
                InstallOption {
                    name: "apple/container",
                    description: "Apple's native container runtime (recommended)",
                    install_command: "brew install container",
                    docs_url: "https://github.com/apple/container",
                },
                InstallOption {
                    name: "podman",
                    description: "Daemonless, rootless OCI runtime",
                    install_command: "brew install podman && podman machine init && podman machine start",
                    docs_url: "https://podman.io",
                },
            ],
            _ => vec![
                InstallOption {
                    name: "podman",
                    description: "Daemonless, rootless OCI runtime (recommended)",
                    install_command: "sudo apt-get install -y podman",
                    docs_url: "https://podman.io/getting-started/installation",
                },
            ],
        };
        assert(r@ =~= install_options(platform));
        r
    }
}

} // verus!
