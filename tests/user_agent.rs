use white_hole::UserAgentPlatform;

#[test]
fn platform_from_target() {
    assert!(matches!(UserAgentPlatform::default("android", ""), UserAgentPlatform::Android));
    assert!(matches!(UserAgentPlatform::default("linux", "ohos"), UserAgentPlatform::OpenHarmony));
    assert!(matches!(UserAgentPlatform::default("ios", ""), UserAgentPlatform::Ios));
    assert!(matches!(UserAgentPlatform::default("windows", "msvc"), UserAgentPlatform::Desktop));
}

#[test]
fn desktop_user_agents() {
    let d = UserAgentPlatform::Desktop;
    assert_eq!(
        d.to_user_agent_string("windows", "x86_64", "white-hole/0.1.0"),
        "Mozilla/5.0 (Windows NT 10.0; Win64; x64) AppleWebKit/537.36 (KHTML, like Gecko) Edg/139.0.0.0 white-hole/0.1.0"
    );
    assert_eq!(
        d.to_user_agent_string("windows", "aarch64", "w/1"),
        "Mozilla/5.0 (Windows NT 10.0; Win64; ) AppleWebKit/537.36 (KHTML, like Gecko) Edg/139.0.0.0 w/1"
    );
    assert_eq!(
        d.to_user_agent_string("macos", "aarch64", "w/1"),
        "Mozilla/5.0 (Macintosh; Intel Mac OS X 10.15) AppleWebKit/537.36 (KHTML, like Gecko) w/1"
    );
    assert_eq!(
        d.to_user_agent_string("linux", "x86", "w/1"),
        "Mozilla/5.0 (X11; Linux i686) AppleWebKit/537.36 (KHTML, like Gecko) w/1"
    );
    assert_eq!(
        d.to_user_agent_string("linux", "riscv64", "w/1"),
        "Mozilla/5.0 (X11; Linux riscv64) AppleWebKit/537.36 (KHTML, like Gecko) w/1"
    );
}

#[test]
fn mobile_user_agents() {
    assert_eq!(
        UserAgentPlatform::Android.to_user_agent_string("android", "aarch64", "w/1"),
        "Mozilla/5.0 (Android; Mobile) AppleWebKit/537.36 (KHTML, like Gecko) Chrome/139.0.0.0  w/1"
    );
    assert_eq!(
        UserAgentPlatform::Ios.to_user_agent_string("ios", "aarch64", "w/1"),
        "Mozilla/5.0 (iPhone; CPU iPhone OS 18_6 like Mac OS X) AppleWebKit/537.36 (KHTML, like Gecko) w/1"
    );
}
