//! The user-agent string that tab webviews present.
use vstd::prelude::*;
use vstd::string::StringExecFns;

verus! {

/// The platform family a user-agent string is made for.
pub enum UserAgentPlatform {
    Desktop,
    Android,
    OpenHarmony,
    Ios,
}

/// The platform family of a build target with operating system `os` and
/// environment `env` (as Rust's `target_os` and `target_env` name them).
pub open spec fn platform_of(os: Seq<char>, env: Seq<char>) -> UserAgentPlatform {
    if os == "android"@ {
        UserAgentPlatform::Android
    } else if env == "ohos"@ {
        UserAgentPlatform::OpenHarmony
    } else if os == "ios"@ {
        UserAgentPlatform::Ios
    } else {
        UserAgentPlatform::Desktop
    }
}

/// The architecture as a Windows user agent names it.
pub open spec fn windows_arch(arch: Seq<char>) -> Seq<char> {
    if arch == "x86_64"@ {
        "x64"@
    } else {
        Seq::empty()
    }
}

/// The architecture as a Linux user agent names it.
pub open spec fn linux_arch(arch: Seq<char>) -> Seq<char> {
    if arch == "x86_64"@ {
        "x86_64"@
    } else if arch == "x86"@ {
        "i686"@
    } else {
        arch
    }
}

/// The desktop user agent for operating system `os` on architecture `arch`.
pub open spec fn desktop_agent(os: Seq<char>, arch: Seq<char>) -> Seq<char> {
    if os == "windows"@ {
        "Mozilla/5.0 (Windows NT 10.0; Win64; "@ + windows_arch(arch)
            + ") AppleWebKit/537.36 (KHTML, like Gecko) Edg/139.0.0.0"@
    } else if os == "macos"@ {
        "Mozilla/5.0 (Macintosh; Intel Mac OS X 10.15) AppleWebKit/537.36 (KHTML, like Gecko)"@
    } else {
        "Mozilla/5.0 (X11; Linux "@ + linux_arch(arch) + ") AppleWebKit/537.36 (KHTML, like Gecko)"@
    }
}

/// The user agent of platform `p` for a build on `os`/`arch`, followed by a
/// space and the application's own `name/version` token `app`.
pub open spec fn user_agent(p: UserAgentPlatform, os: Seq<char>, arch: Seq<char>, app: Seq<char>) -> Seq<char> {
    let base = match p {
        UserAgentPlatform::Desktop => desktop_agent(os, arch),
        UserAgentPlatform::Android => "Mozilla/5.0 (Android; Mobile) AppleWebKit/537.36 (KHTML, like Gecko) Chrome/139.0.0.0 "@,
        UserAgentPlatform::OpenHarmony => "Mozilla/5.0 (OpenHarmony; Mobile) AppleWebKit/537.36 (KHTML, like Gecko) Chrome/139.0.0.0"@,
        UserAgentPlatform::Ios => "Mozilla/5.0 (iPhone; CPU iPhone OS 18_6 like Mac OS X) AppleWebKit/537.36 (KHTML, like Gecko)"@,
    };
    base + " "@ + app
}

fn same(a: &str, b: &str) -> (r: bool)
    ensures
        r == (a@ == b@),
{
    String::from_str(a) == String::from_str(b)
}

impl UserAgentPlatform {
    /// The platform family of the build target with operating system
    /// `target_os` and environment `target_env`.
    pub fn default(target_os: &str, target_env: &str) -> (r: Self)
        ensures
            r == platform_of(target_os@, target_env@),
    {
        if same(target_os, "android") {
            UserAgentPlatform::Android
        } else if same(target_env, "ohos") {
            UserAgentPlatform::OpenHarmony
        } else if same(target_os, "ios") {
            UserAgentPlatform::Ios
        } else {
            UserAgentPlatform::Desktop
        }
    }

    /// The user-agent string for this platform, built for `target_os` on
    /// `target_arch`, ending in the application's `name/version` token `app`.
    pub fn to_user_agent_string(&self, target_os: &str, target_arch: &str, app: &str) -> (r: String)
        ensures
            r@ == user_agent(*self, target_os@, target_arch@, app@),
    {
        let mut s = match self {
            UserAgentPlatform::Desktop => Self::desktop_user_agent(target_os, target_arch),
            UserAgentPlatform::Android => String::from_str(
                "Mozilla/5.0 (Android; Mobile) AppleWebKit/537.36 (KHTML, like Gecko) Chrome/139.0.0.0 ",
            ),
            UserAgentPlatform::OpenHarmony => String::from_str(
                "Mozilla/5.0 (OpenHarmony; Mobile) AppleWebKit/537.36 (KHTML, like Gecko) Chrome/139.0.0.0",
            ),
            UserAgentPlatform::Ios => String::from_str(
                "Mozilla/5.0 (iPhone; CPU iPhone OS 18_6 like Mac OS X) AppleWebKit/537.36 (KHTML, like Gecko)",
            ),
        };
        s.append(" ");
        s.append(app);
        s
    }

    /// The desktop user agent for `target_os` on `target_arch`.
    fn desktop_user_agent(target_os: &str, target_arch: &str) -> (r: String)
        ensures
            r@ == desktop_agent(target_os@, target_arch@),
    {
        if same(target_os, "windows") {
            let mut s = String::from_str("Mozilla/5.0 (Windows NT 10.0; Win64; ");
            if same(target_arch, "x86_64") {
                s.append("x64");
            } else {
                proof {
                    assert(s@ + Seq::<char>::empty() =~= s@);
                }
            }
            s.append(") AppleWebKit/537.36 (KHTML, like Gecko) Edg/139.0.0.0");
            s
        } else if same(target_os, "macos") {
            String::from_str(
                "Mozilla/5.0 (Macintosh; Intel Mac OS X 10.15) AppleWebKit/537.36 (KHTML, like Gecko)",
            )
        } else {
            let mut s = String::from_str("Mozilla/5.0 (X11; Linux ");
            if same(target_arch, "x86_64") {
                s.append("x86_64");
            } else if same(target_arch, "x86") {
                s.append("i686");
            } else {
                s.append(target_arch);
            }
            s.append(") AppleWebKit/537.36 (KHTML, like Gecko)");
            s
        }
    }
}

} // verus!
