//! The Hermes tree.
use hermes_desktop::paths::{
    desktop_log_path, hermes_home, hermes_node_path_entries, home_dir, join, logs_dir,
    platform_default_hermes_home, platform_default_hermes_home_for, venv_bin_dir, venv_root, Host,
};

fn host(is_windows: bool) -> Host {
    Host {
        is_windows,
        home: if is_windows { "C:\\Users\\ada" } else { "/home/ada" }.to_string(),
        hermes_home: None,
        local_appdata: None,
        hermes_venv: None,
    }
}

/// The components of a path under the rules of Windows, where both separators
/// mean the same.
fn components(path: &str) -> Vec<&str> {
    path.split(['/', '\\']).collect()
}

#[test]
fn hermes_home_env_override_wins() {
    let host = Host { hermes_home: Some("  /tmp/custom-hermes  ".to_string()), ..host(false) };
    assert_eq!(hermes_home(&host), "/tmp/custom-hermes");
}

#[test]
fn platform_default_matches_python_side() {
    let home = "/Users/me";

    assert_eq!(
        platform_default_hermes_home_for(home, None, false),
        "/Users/me/.hermes"
    );
    assert_eq!(
        platform_default_hermes_home_for(home, Some("C:\\Users\\me\\AppData\\Local"), true),
        "C:\\Users\\me\\AppData\\Local\\hermes"
    );
    // LOCALAPPDATA unset falls back to ~/AppData/Local, not ~/.hermes.
    assert_eq!(
        components(&platform_default_hermes_home_for(home, None, true)),
        components("/Users/me/AppData/Local/hermes")
    );
    // A whitespace-only LOCALAPPDATA is treated as unset.
    assert_eq!(
        components(&platform_default_hermes_home_for(home, Some("   "), true)),
        components("/Users/me/AppData/Local/hermes")
    );
}

#[test]
fn the_fallback_home_is_written_with_backslashes() {
    for unset in [None, Some("   ")] {
        assert_eq!(
            platform_default_hermes_home_for("C:\\Users\\me", unset, true),
            "C:\\Users\\me\\AppData\\Local\\hermes"
        );
        assert_eq!(
            platform_default_hermes_home_for("/Users/me", unset, true),
            "/Users/me\\AppData\\Local\\hermes"
        );
    }
}

#[test]
fn a_blank_override_is_none() {
    let host = Host { hermes_home: Some(" \n".to_string()), ..host(false) };
    assert_eq!(hermes_home(&host), "/home/ada/.hermes");
    assert_eq!(platform_default_hermes_home(&host), "/home/ada/.hermes");
    assert_eq!(home_dir(None), ".");
    assert_eq!(home_dir(Some("/home/ada")), "/home/ada");
}

#[test]
fn the_tree_hangs_below_the_home() {
    let posix = host(false);
    assert_eq!(logs_dir(&posix), "/home/ada/.hermes/logs");
    assert_eq!(desktop_log_path(&posix), "/home/ada/.hermes/logs/desktop.log");
    assert_eq!(venv_root(&posix), "/home/ada/.hermes/venv");
    assert_eq!(venv_bin_dir(&posix), "/home/ada/.hermes/venv/bin");
    assert_eq!(
        hermes_node_path_entries(&posix),
        vec!["/home/ada/.hermes/node/bin", "/home/ada/.hermes/node"]
    );

    let windows = host(true);
    assert_eq!(venv_bin_dir(&windows), "C:\\Users\\ada\\AppData\\Local\\hermes\\venv\\Scripts");
    assert_eq!(
        hermes_node_path_entries(&windows),
        vec![
            "C:\\Users\\ada\\AppData\\Local\\hermes\\node",
            "C:\\Users\\ada\\AppData\\Local\\hermes\\node\\bin",
        ]
    );
}

#[test]
fn an_explicit_environment_is_taken_as_it_is() {
    let host = Host { hermes_venv: Some(" /v ".to_string()), ..host(false) };
    assert_eq!(venv_root(&host), " /v ");
    assert_eq!(venv_bin_dir(&host), " /v /bin");
}

#[test]
fn joining_follows_the_platform() {
    assert_eq!(join("/a", "b", false), "/a/b");
    assert_eq!(join("/a/", "b", false), "/a/b");
    assert_eq!(join("", "b", false), "b");
    assert_eq!(join("/a", "/b", false), "/b");
    assert_eq!(join("C:", "b", false), "C:/b");

    assert_eq!(join("C:\\a", "b", true), "C:\\a\\b");
    assert_eq!(join("C:\\a/", "b", true), "C:\\a/b");
    assert_eq!(join("C:", "b", true), "C:b");
    assert_eq!(join("C:\\a", "D:b", true), "D:b");
    assert_eq!(join("C:\\a", "\\b", true), "C:\\b");
}

#[test]
fn a_part_with_a_prefix_stands_for_itself() {
    for part in [
        r"\\srv\sh\nu.exe",
        r"//srv/sh/nu.exe",
        r"\\srv\sh",
        r"\\.\COM1",
        r"\\?\C:\nu.exe",
        r"\\?\UNC\srv\sh\nu.exe",
        r"\\?\pipe",
        r"D:nu.exe",
        r"D:\nu.exe",
    ] {
        assert_eq!(join(r"C:\bin", part, true), part);
        assert_eq!(join(r"\\?\C:\bin", part, true), part);
    }
    // Without a share there is no prefix, only a root.
    assert_eq!(join(r"C:\bin", r"\\srv", true), r"C:\\srv");
    assert_eq!(join("/bin", r"\\srv\sh", false), r"/bin/\\srv\sh");
}

#[test]
fn a_rooted_part_keeps_the_prefix() {
    assert_eq!(join(r"\\srv\sh\a", r"\b", true), r"\\srv\sh\b");
    assert_eq!(join(r"\\srv\sh", "/b", true), r"\\srv\sh/b");
    assert_eq!(join(r"\\.\COM1\a", r"\b", true), r"\\.\COM1\b");
    assert_eq!(join(r"\\?\C:\a\b", r"\c", true), r"\\?\C:\c");
    assert_eq!(join(r"\\?\UNC\srv\sh\a", r"\b", true), r"\\?\UNC\srv\sh\b");
    assert_eq!(join(r"\\?\pipe\a", "/b", true), r"\\?\pipe\b");
    assert_eq!(join("a", r"\b", true), r"\b");
}

#[test]
fn a_share_or_device_takes_a_part_behind_a_separator() {
    assert_eq!(join(r"\\srv\sh", "a", true), r"\\srv\sh\a");
    assert_eq!(join(r"\\srv\sh\", "a", true), r"\\srv\sh\a");
    assert_eq!(join(r"\\.\COM1", "a", true), r"\\.\COM1\a");
    assert_eq!(join(r"\\srv", "a", true), r"\\srv\a");
}

#[test]
fn a_verbatim_base_is_written_anew() {
    assert_eq!(join(r"\\?\C:", "a", true), r"\\?\C:\a");
    assert_eq!(join(r"\\?\C:\", "a", true), r"\\?\C:\a");
    assert_eq!(join(r"\\?\C:\a\", "b/c", true), r"\\?\C:\a\b\c");
    assert_eq!(join(r"\\?\C:\a", r"..\b", true), r"\\?\C:\b");
    assert_eq!(join(r"\\?\C:\a", r".\b\.", true), r"\\?\C:\a\b");
    assert_eq!(join(r"\\?\C:\a", r"..\..", true), r"\\?\C:\");
    assert_eq!(join(r"\\?\C:\a\..", "..", true), r"\\?\C:\a\..");
    assert_eq!(join(r"\\?\C:\a/b", "c", true), r"\\?\C:\a/b\c");
    assert_eq!(join(r"\\?\C:/a/b", "c", true), r"\\?\C:\a/b\c");
    assert_eq!(join(r"\\?\UNC\srv", "a", true), r"\\?\UNC\srv\a");
    assert_eq!(join(r"\\?\pipe", "..", true), r"\\?\pipe");
    assert_eq!(join(r"\\?\C:\a", "", true), r"\\?\C:\a\");
}

#[test]
fn joining_agrees_with_the_standard_library() {
    for base in ["", "/", "/a", "/a/", "a", "a//", "."] {
        for part in ["b", "b c", ".hidden", "b/c", "/b", "C:b"] {
            let expected = std::path::Path::new(base).join(part);
            assert_eq!(join(base, part, false), expected.to_string_lossy());
        }
    }
}
