use std::path::Path;
use tip::file_action::FileAction;
use tip::install_functions::{
    create_tip_config, delete_config_lines, detect_shell, get_full_path, get_shell_config_path,
    get_shell_name, get_tip_config_path, install_tip, remove_shell_source_line,
    shell_config_path_in, shell_config_validation, source_tip_config, target_list_validation,
    tip_config_is_sourced, tip_config_validation, InstallProgress, InstallStep, SetupOutcome,
    Shell, ShellConfigError, SourceOutcome, UnsourceOutcome,
};

#[test]
fn full_path_joins_with_a_slash() {
    assert_eq!(get_full_path("/opt/tip", "config/tip-config.sh"), "/opt/tip/config/tip-config.sh");
    assert_eq!(get_full_path("/opt/tip/", "config"), "/opt/tip/config");
    assert_eq!(get_full_path("/", "x"), "/x");
    assert_eq!(get_full_path("", "x"), "x");
    assert_eq!(get_full_path("a", ""), "a/");
    assert_eq!(get_full_path("", ""), "");
}

#[test]
fn full_path_of_an_absolute_path_is_that_path() {
    assert_eq!(get_full_path("/opt/tip", "/etc/x"), "/etc/x");
    assert_eq!(get_full_path("", "/"), "/");
}

#[test]
fn full_path_agrees_with_std() {
    for (directory, relative) in [
        ("/opt/tip", "config/tip-config.sh"),
        ("/opt/tip/", "config"),
        ("/home/u", ".bashrc"),
        ("rel", "x/y"),
        ("", "x"),
        ("a", ""),
        ("a", "/b"),
        ("/", "b"),
    ] {
        let expected = Path::new(directory).join(relative);
        assert_eq!(get_full_path(directory, relative), expected.to_string_lossy());
    }
}

#[test]
fn tip_config_path_is_fixed() {
    assert_eq!(get_tip_config_path(), "config/tip-config.sh");
}

#[test]
fn shell_name_is_the_text_after_the_last_slash() {
    assert_eq!(get_shell_name("/bin/bash"), "bash");
    assert_eq!(get_shell_name("/usr/local/bin/zsh"), "zsh");
    assert_eq!(get_shell_name("bash"), "bash");
    assert_eq!(get_shell_name("/bin/"), "");
    assert_eq!(get_shell_name(""), "");
}

#[test]
fn detect_shell_knows_bash_and_zsh() {
    assert_eq!(detect_shell("/bin/bash"), Some(Shell::Bash));
    assert_eq!(detect_shell("/bin/zsh"), Some(Shell::Zsh));
    assert_eq!(detect_shell("zsh"), Some(Shell::Zsh));
    assert_eq!(detect_shell("/bin/fish"), None);
    assert_eq!(detect_shell("/bin/bash/"), None);
    assert_eq!(detect_shell("/bin/Bash"), None);
    assert_eq!(detect_shell("/bin/bash2"), None);
    assert_eq!(detect_shell(""), None);
}

#[test]
fn shell_config_path_for_a_home_directory() {
    assert_eq!(
        shell_config_path_in(Some("/home/alice"), "/bin/bash"),
        Ok("/home/alice/.bashrc".to_string())
    );
    assert_eq!(
        shell_config_path_in(Some("/home/alice/"), "/usr/bin/zsh"),
        Ok("/home/alice/.zshrc".to_string())
    );
}

#[test]
fn shell_config_path_refuses_other_shells() {
    assert_eq!(
        shell_config_path_in(Some("/home/alice"), "/bin/fish"),
        Err(ShellConfigError::UnsupportedShell)
    );
    assert_eq!(shell_config_path_in(None, "/bin/fish"), Err(ShellConfigError::UnsupportedShell));
    assert_eq!(get_shell_config_path("/bin/fish"), Err(ShellConfigError::UnsupportedShell));
    assert_eq!(get_shell_config_path(""), Err(ShellConfigError::UnsupportedShell));
}

#[test]
fn shell_config_path_needs_a_home_directory() {
    assert_eq!(shell_config_path_in(None, "/bin/bash"), Err(ShellConfigError::NoHomeDirectory));
    assert_eq!(shell_config_path_in(None, "zsh"), Err(ShellConfigError::NoHomeDirectory));
}

#[test]
fn shell_config_path_of_the_current_user() {
    for (shell, file) in [("/bin/bash", ".bashrc"), ("/bin/zsh", ".zshrc")] {
        match dirs::home_dir() {
            Some(home) => {
                let expected = home.join(file);
                assert_eq!(get_shell_config_path(shell), Ok(expected.to_string_lossy().into_owned()));
            }
            None => {
                assert_eq!(get_shell_config_path(shell), Err(ShellConfigError::NoHomeDirectory));
            }
        }
    }
}

#[test]
fn tip_config_script_text() {
    let script = create_tip_config(
        "/opt/tip",
        "/opt/tip/targets.txt",
        "/opt/tip/tip",
        "/opt/tip/config/tip-config.sh",
    );
    let expected = "# Adds tip install folder to PATH if not already added
if [[ \":$PATH:\" != *\":/opt/tip:\"* ]]; then
    export PATH=\"$PATH:/opt/tip\"
fi

# Begin tip configuration
function load_targets() {
    while IFS='=' read -r name address; do
        export \"$name=$address\"
    done < \"/opt/tip/targets.txt\"
}

# Call the load_targets function during shell initialization
load_targets

# Shell function to allow sourcing
function tip() {
  /opt/tip/tip \"$@\"
  source /opt/tip/config/tip-config.sh
}";
    assert_eq!(script, expected);
}

#[test]
fn tip_config_script_agrees_with_the_format() {
    let (current_dir, targets, exe, full) = ("/a b", "/t/targets.txt", "/x/tip", "/x/config/tip-config.sh");
    let expected = format!(
        "# Adds tip install folder to PATH if not already added\nif [[ \":$PATH:\" != *\":{}:\"* ]]; then\n    export PATH=\"$PATH:{}\"\nfi\n\n# Begin tip configuration\nfunction load_targets() {{\n    while IFS='=' read -r name address; do\n        export \"$name=$address\"\n    done < \"{}\"\n}}\n\n# Call the load_targets function during shell initialization\nload_targets\n\n# Shell function to allow sourcing\nfunction tip() {{\n  {} \"$@\"\n  source {}\n}}",
        current_dir, current_dir, targets, exe, full
    );
    assert_eq!(create_tip_config(current_dir, targets, exe, full), expected);
}

#[test]
fn setup_of_a_missing_file_creates_it() {
    for answer in [None, Some(true), Some(false)] {
        assert_eq!(tip_config_validation(false, answer), SetupOutcome::Created);
        let r = target_list_validation(false, answer);
        assert_eq!(r.outcome, SetupOutcome::Created);
        assert_eq!(r.action, FileAction::Replace(String::new()));
    }
}

#[test]
fn setup_of_an_existing_file_asks_first() {
    assert_eq!(tip_config_validation(true, None), SetupOutcome::Confirm);
    let r = target_list_validation(true, None);
    assert_eq!(r.outcome, SetupOutcome::Confirm);
    assert_eq!(r.action, FileAction::Keep);
}

#[test]
fn setup_of_an_existing_file_follows_the_answer() {
    assert_eq!(tip_config_validation(true, Some(true)), SetupOutcome::Reset);
    assert_eq!(tip_config_validation(true, Some(false)), SetupOutcome::Kept);
    let r = target_list_validation(true, Some(true));
    assert_eq!(r.outcome, SetupOutcome::Reset);
    assert_eq!(r.action, FileAction::Replace(String::new()));
    assert_eq!(r.action.apply("a=1\n"), "");
    let r = target_list_validation(true, Some(false));
    assert_eq!(r.outcome, SetupOutcome::Kept);
    assert_eq!(r.action, FileAction::Keep);
}

#[test]
fn setup_outcome_writes() {
    assert!(SetupOutcome::Created.writes());
    assert!(SetupOutcome::Reset.writes());
    assert!(!SetupOutcome::Confirm.writes());
    assert!(!SetupOutcome::Kept.writes());
}

#[test]
fn source_block_text() {
    assert_eq!(
        source_tip_config("/opt/tip/config/tip-config.sh"),
        "\n# Source tip configuration\nsource /opt/tip/config/tip-config.sh\n"
    );
}

#[test]
fn is_sourced_looks_for_comment_and_line() {
    let path = "/opt/tip/config/tip-config.sh";
    assert_eq!(tip_config_is_sourced("", path), (true, true));
    assert_eq!(tip_config_is_sourced("export A=1\n", path), (true, true));
    assert_eq!(tip_config_is_sourced("# Source tip configuration\n", path), (false, true));
    assert_eq!(
        tip_config_is_sourced("source /opt/tip/config/tip-config.sh\n", path),
        (true, false)
    );
    assert_eq!(
        tip_config_is_sourced(
            "x\n  # Source tip configuration now\nif true; then source /opt/tip/config/tip-config.sh; fi\n",
            path
        ),
        (false, false)
    );
    assert_eq!(tip_config_is_sourced("source /opt/other.sh\n", path), (true, true));
    assert_eq!(tip_config_is_sourced("# Source tip\nconfiguration\n", path), (true, true));
}

#[test]
fn shell_config_validation_appends_what_is_missing() {
    let path = "/opt/tip/config/tip-config.sh";
    let block = "\n# Source tip configuration\nsource /opt/tip/config/tip-config.sh\n";
    for content in ["", "export A=1\n", "# Source tip configuration\n", "source /opt/tip/config/tip-config.sh"] {
        let r = shell_config_validation(content, path);
        assert_eq!(r.outcome, SourceOutcome::Sourced);
        assert_eq!(r.action, FileAction::Append(block.to_string()));
    }
}

#[test]
fn shell_config_validation_appends_once() {
    let path = "/opt/tip/config/tip-config.sh";
    for content in ["", "export A=1\n", "export A=1"] {
        let r = shell_config_validation(content, path);
        let after = r.action.apply(content);
        let r = shell_config_validation(&after, path);
        assert_eq!(r.outcome, SourceOutcome::AlreadySourced);
        assert_eq!(r.action, FileAction::Keep);
    }
}

#[test]
fn delete_config_lines_removes_comment_and_line() {
    let path = "/opt/tip/config/tip-config.sh";
    let content = "export A=1\n\n# Source tip configuration\nsource /opt/tip/config/tip-config.sh\nexport B=2\n";
    assert_eq!(delete_config_lines(content, path), "export A=1\n\nexport B=2\n");
}

#[test]
fn delete_config_lines_looks_past_whitespace_around_a_line() {
    let path = "/opt/tip/config/tip-config.sh";
    let content = "  # Source tip configuration\t\n\tsource /opt/tip/config/tip-config.sh  \r\nx";
    assert_eq!(delete_config_lines(content, path), "x\n");
}

#[test]
fn delete_config_lines_keeps_lines_that_only_hold_the_texts() {
    let path = "/opt/tip/config/tip-config.sh";
    let content = "# Source tip configuration!\nsource /opt/tip/config/tip-config.sh.bak\n#Source tip configuration\n";
    assert_eq!(delete_config_lines(content, path), content);
}

#[test]
fn remove_shell_source_line_writes_the_file_anew() {
    let path = "/opt/tip/config/tip-config.sh";
    let content = "export A=1\n\n# Source tip configuration\nsource /opt/tip/config/tip-config.sh\n";
    let r = remove_shell_source_line(content, path);
    assert_eq!(r.outcome, UnsourceOutcome::Removed);
    assert_eq!(r.action, FileAction::Replace("export A=1\n\n".to_string()));
}

#[test]
fn remove_shell_source_line_when_one_of_the_two_is_there() {
    let path = "/opt/tip/config/tip-config.sh";
    let r = remove_shell_source_line("a\n# Source tip configuration\n", path);
    assert_eq!(r.outcome, UnsourceOutcome::Removed);
    assert_eq!(r.action, FileAction::Replace("a\n".to_string()));
    let r = remove_shell_source_line("source /opt/tip/config/tip-config.sh\nb", path);
    assert_eq!(r.outcome, UnsourceOutcome::Removed);
    assert_eq!(r.action, FileAction::Replace("b\n".to_string()));
}

#[test]
fn remove_shell_source_line_when_nothing_is_there() {
    let path = "/opt/tip/config/tip-config.sh";
    let r = remove_shell_source_line("export A=1\n", path);
    assert_eq!(r.outcome, UnsourceOutcome::NotSourced);
    assert_eq!(r.action, FileAction::Keep);
}

#[test]
fn sourcing_and_removing_gives_the_lines_back() {
    let path = "/opt/tip/config/tip-config.sh";
    let content = "export A=1\n";
    let sourced = shell_config_validation(content, path).action.apply(content);
    let r = remove_shell_source_line(&sourced, path);
    assert_eq!(r.outcome, UnsourceOutcome::Removed);
    assert_eq!(r.action.apply(&sourced), "export A=1\n\n");
}

#[test]
fn install_steps_follow_in_order() {
    assert_eq!(install_tip(None, true), InstallProgress::Next(InstallStep::TargetList));
    assert_eq!(install_tip(None, false), InstallProgress::Next(InstallStep::TargetList));
    assert_eq!(
        install_tip(Some(InstallStep::TargetList), true),
        InstallProgress::Next(InstallStep::TipConfig)
    );
    assert_eq!(
        install_tip(Some(InstallStep::TipConfig), true),
        InstallProgress::Next(InstallStep::ShellConfig)
    );
    assert_eq!(install_tip(Some(InstallStep::ShellConfig), true), InstallProgress::Complete);
}

#[test]
fn install_stops_at_a_failure() {
    for step in [InstallStep::TargetList, InstallStep::TipConfig, InstallStep::ShellConfig] {
        assert_eq!(install_tip(Some(step), false), InstallProgress::Failed);
    }
}
