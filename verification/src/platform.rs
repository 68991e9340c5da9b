//! Host platform flavors and the platform-specific remediation hints the
//! checks attach to failures. Which flavor the host actually is, is decided
//! by the surrounding application; the hint text is fixed per flavor here.

use vstd::prelude::*;

use crate::text::{contains_ci, has_sub_ci, str_eq};

verus! {

/// Detected host platform, used for tailoring fix suggestions.
#[derive(Debug, Clone, PartialEq, Eq, Structural)]
pub enum Platform {
    MacOS,
    Debian,
    Fedora,
    Arch,
    Alpine,
    Linux,
    Unknown,
}

/// The platform flavor an os-release text names, matched without case:
/// Debian-likes first, then Fedora-likes, Arch, Alpine, and a generic
/// Linux fallback.
pub open spec fn os_release_class(content: Seq<char>) -> Platform {
    if has_sub_ci(content, "ubuntu"@) || has_sub_ci(content, "debian"@) {
        Platform::Debian
    } else if has_sub_ci(content, "fedora"@) || has_sub_ci(content, "rhel"@) || has_sub_ci(
        content,
        "centos"@,
    ) {
        Platform::Fedora
    } else if has_sub_ci(content, "arch"@) {
        Platform::Arch
    } else if has_sub_ci(content, "alpine"@) {
        Platform::Alpine
    } else {
        Platform::Linux
    }
}

/// Classify a Linux host from the text of its os-release file.
pub fn classify_os_release(content: &str) -> (r: Platform)
    ensures
        r == os_release_class(content@),
{
    if contains_ci(content, "ubuntu") || contains_ci(content, "debian") {
        Platform::Debian
    } else if contains_ci(content, "fedora") || contains_ci(content, "rhel") || contains_ci(
        content,
        "centos",
    ) {
        Platform::Fedora
    } else if contains_ci(content, "arch") {
        Platform::Arch
    } else if contains_ci(content, "alpine") {
        Platform::Alpine
    } else {
        Platform::Linux
    }
}

/// The package name a tool installs under on the given platform.
pub open spec fn pkg_name_spec(p: Platform, tool: Seq<char>) -> Seq<char> {
    if tool == "node"@ {
        if p is MacOS {
            "node"@
        } else {
            "nodejs"@
        }
    } else if tool == "python"@ {
        if p is MacOS {
            "python@3"@
        } else {
            "python3"@
        }
    } else if tool == "go"@ {
        if p is MacOS {
            "go"@
        } else if p is Debian {
            "golang-go"@
        } else {
            "golang"@
        }
    } else if tool == "ruby"@ {
        "ruby"@
    } else if tool == "java"@ {
        if p is MacOS {
            "openjdk"@
        } else if p is Debian {
            "default-jdk"@
        } else {
            "java-latest-openjdk"@
        }
    } else if tool == "docker"@ {
        "docker.io"@
    } else {
        tool
    }
}

/// The full install command for a tool on the given platform.
pub open spec fn install_hint_spec(p: Platform, tool: Seq<char>) -> Seq<char> {
    if tool == "docker"@ && p is MacOS {
        "brew install --cask docker"@
    } else {
        let pkg = pkg_name_spec(p, tool);
        match p {
            Platform::MacOS => "brew install "@ + pkg,
            Platform::Debian => "sudo apt install -y "@ + pkg,
            Platform::Fedora => "sudo dnf install -y "@ + pkg,
            Platform::Arch => "sudo pacman -S "@ + pkg,
            Platform::Alpine => "sudo apk add "@ + pkg,
            Platform::Linux => "# install "@ + pkg,
            Platform::Unknown => "# install "@ + pkg,
        }
    }
}

/// The service start command on the given platform.
pub open spec fn service_hint_spec(p: Platform, service: Seq<char>) -> Seq<char> {
    match p {
        Platform::MacOS => "brew services start "@ + service,
        Platform::Alpine => "sudo rc-service "@ + service + " start"@,
        Platform::Unknown => "# start "@ + service,
        _ => "sudo systemctl start "@ + service,
    }
}

impl Platform {
    /// Return a platform-specific install command for a tool.
    pub fn install_hint(&self, tool: &str) -> (r: String)
        ensures
            r@ == install_hint_spec(*self, tool@),
    {
        if str_eq(tool, "docker") && matches!(self, Platform::MacOS) {
            return String::from_str("brew install --cask docker");
        }
        let pkg: &str = if str_eq(tool, "node") {
            if matches!(self, Platform::MacOS) {
                "node"
            } else {
                "nodejs"
            }
        } else if str_eq(tool, "python") {
            if matches!(self, Platform::MacOS) {
                "python@3"
            } else {
                "python3"
            }
        } else if str_eq(tool, "go") {
            if matches!(self, Platform::MacOS) {
                "go"
            } else if matches!(self, Platform::Debian) {
                "golang-go"
            } else {
                "golang"
            }
        } else if str_eq(tool, "ruby") {
            "ruby"
        } else if str_eq(tool, "java") {
            if matches!(self, Platform::MacOS) {
                "openjdk"
            } else if matches!(self, Platform::Debian) {
                "default-jdk"
            } else {
                "java-latest-openjdk"
            }
        } else if str_eq(tool, "docker") {
            "docker.io"
        } else {
            tool
        };
        let mut r = String::from_str(
            match self {
                Platform::MacOS => "brew install ",
                Platform::Debian => "sudo apt install -y ",
                Platform::Fedora => "sudo dnf install -y ",
                Platform::Arch => "sudo pacman -S ",
                Platform::Alpine => "sudo apk add ",
                Platform::Linux => "# install ",
                Platform::Unknown => "# install ",
            },
        );
        r.append(pkg);
        r
    }

    /// Return a platform-specific service start command.
    pub fn service_hint(&self, service: &str) -> (r: String)
        ensures
            r@ == service_hint_spec(*self, service@),
    {
        match self {
            Platform::MacOS => {
                let mut r = String::from_str("brew services start ");
                r.append(service);
                r
            },
            Platform::Alpine => {
                let mut r = String::from_str("sudo rc-service ");
                r.append(service);
                r.append(" start");
                r
            },
            Platform::Unknown => {
                let mut r = String::from_str("# start ");
                r.append(service);
                r
            },
            _ => {
                let mut r = String::from_str("sudo systemctl start ");
                r.append(service);
                r
            },
        }
    }
}

} // verus!
