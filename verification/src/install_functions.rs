//! Wiring the tool into the user's shell: where the shell keeps its
//! start-up file, the configuration script that the shell reads, and the
//! lines in the start-up file that make it read the script.
//!
//! Paths are handled as text, with `/` between their parts.

use vstd::prelude::*;
use crate::file_action::{FileAction, FileChange, Report};
use crate::lines::{
    ended, is_line, join_lines, lemma_lines_of_concat, lemma_lines_of_text_of,
    lemma_text_of_push, lines_of, split_lines, text_of,
};
use crate::text::{
    chars_of, contains, matches_at, occurs_at, occurs_in, push_char, same_chars, string_of, trim,
    trim_bounds,
};

verus! {

/// `dirs::home_dir`: the home directory of the current user, where the
/// environment or the user database gives one. Nothing is claimed of the
/// result. The path is handed on as text; what is not valid UTF-8 in it is
/// replaced as `Path::to_string_lossy` does.
#[verifier::external_body]
fn home_dir() -> (home: Option<String>) {
    match dirs::home_dir() {
        Some(path) => Some(path.to_string_lossy().into_owned()),
        None => None,
    }
}

/// A shell whose start-up file is known.
#[derive(Clone, Copy, Debug, PartialEq, Eq, Structural)]
pub enum Shell {
    Bash,
    Zsh,
}

/// Why the start-up file of the shell could not be named.
#[derive(Clone, Copy, Debug, PartialEq, Eq, Structural)]
pub enum ShellConfigError {
    /// The shell is neither `bash` nor `zsh`.
    UnsupportedShell,
    /// The user has no home directory.
    NoHomeDirectory,
}

/// The name of the shell at `shell_path`: the text after the last `/`, or
/// the whole path where it holds no `/`.
pub open spec fn shell_name(shell_path: Seq<char>) -> Seq<char> {
    match shell_path.index_of_last('/') {
        Some(k) => shell_path.skip(k + 1),
        None => shell_path,
    }
}

/// The shell at `shell_path`, if it is one whose start-up file is known.
pub open spec fn shell_of(shell_path: Seq<char>) -> Option<Shell> {
    if shell_name(shell_path) == "bash"@ {
        Some(Shell::Bash)
    } else if shell_name(shell_path) == "zsh"@ {
        Some(Shell::Zsh)
    } else {
        None
    }
}

/// The name of the start-up file of `shell`, in the home directory.
pub open spec fn config_file_of(shell: Shell) -> Seq<char> {
    match shell {
        Shell::Bash => ".bashrc"@,
        Shell::Zsh => ".zshrc"@,
    }
}

/// The path of `relative` under `directory`. A path that starts with `/`
/// stands for itself. Otherwise it follows the directory, after a `/`
/// unless the directory is empty or ends in one.
pub open spec fn joined_path(directory: Seq<char>, relative: Seq<char>) -> Seq<char> {
    if relative.len() > 0 && relative.first() == '/' {
        relative
    } else if directory.len() == 0 || directory.last() == '/' {
        directory + relative
    } else {
        directory.push('/') + relative
    }
}

/// The start-up file of the shell at `shell_path` for a user whose home
/// directory is `home`.
pub open spec fn shell_config_path(home: Option<Seq<char>>, shell_path: Seq<char>) -> Result<
    Seq<char>,
    ShellConfigError,
> {
    match shell_of(shell_path) {
        None => Err(ShellConfigError::UnsupportedShell),
        Some(shell) => match home {
            None => Err(ShellConfigError::NoHomeDirectory),
            Some(home) => Ok(joined_path(home, config_file_of(shell))),
        },
    }
}

/// The path of `relative_path` under `directory`.
pub fn get_full_path(directory: &str, relative_path: &str) -> (path: String)
    ensures
        path@ == joined_path(directory@, relative_path@),
{
    let dir = chars_of(directory);
    let rel = chars_of(relative_path);
    if rel.len() > 0 && rel[0] == '/' {
        return relative_path.to_owned();
    }
    let mut path = directory.to_owned();
    if dir.len() > 0 && dir[dir.len() - 1] != '/' {
        push_char(&mut path, '/');
    }
    path.append(relative_path);
    path
}

/// The name of the shell at `shell_path`.
pub fn get_shell_name(shell_path: &str) -> (name: String)
    ensures
        name@ == shell_name(shell_path@),
{
    let v = chars_of(shell_path);
    let mut from: usize = v.len();
    while from > 0 && v[from - 1] != '/'
        invariant
            from <= v.len(),
            forall|j: int| from <= j < v.len() ==> v[j] != '/',
        decreases from,
    {
        from -= 1;
    }
    proof {
        v@.index_of_last_ensures('/');
        if from > 0 {
            assert(v@[from - 1] == '/');
            assert(v@.contains('/'));
            assert(v@.subrange(from as int, v.len() as int) =~= v@.skip(from as int));
        } else {
            if v@.contains('/') {
                let j = choose|j: int| 0 <= j < v@.len() && v@[j] == '/';
                assert(v[j] != '/');
            }
            assert(v@.subrange(0, v.len() as int) =~= v@);
        }
    }
    string_of(&v, from, v.len())
}

/// The shell at `shell_path`, if it is one whose start-up file is known.
pub fn detect_shell(shell_path: &str) -> (shell: Option<Shell>)
    ensures
        shell == shell_of(shell_path@),
{
    let name = get_shell_name(shell_path);
    let name = chars_of(name.as_str());
    if same_chars(&name, &chars_of("bash")) {
        Some(Shell::Bash)
    } else if same_chars(&name, &chars_of("zsh")) {
        Some(Shell::Zsh)
    } else {
        None
    }
}

/// The start-up file of the shell at `shell_path` for a user whose home
/// directory is `home`; `None` stands for a user without one.
pub fn shell_config_path_in(home: Option<&str>, shell_path: &str) -> (r: Result<
    String,
    ShellConfigError,
>)
    ensures
        match shell_config_path(
            match home {
                Some(home) => Some(home@),
                None => None,
            },
            shell_path@,
        ) {
            Ok(path) => r matches Ok(p) && p@ == path,
            Err(e) => r matches Err(f) && f == e,
        },
{
    match detect_shell(shell_path) {
        None => Err(ShellConfigError::UnsupportedShell),
        Some(shell) => match home {
            None => Err(ShellConfigError::NoHomeDirectory),
            Some(home) => {
                let file = match shell {
                    Shell::Bash => ".bashrc",
                    Shell::Zsh => ".zshrc",
                };
                Ok(get_full_path(home, file))
            },
        },
    }
}

/// The start-up file of the shell at `shell_path` for the current user,
/// whose home directory is looked up.
///
/// A shell that is neither `bash` nor `zsh` is refused before the home
/// directory is looked at. For the others the result is that of
/// `shell_config_path_in` for whatever the lookup gave.
pub fn get_shell_config_path(shell_path: &str) -> (r: Result<String, ShellConfigError>)
    ensures
        match shell_of(shell_path@) {
            None => r matches Err(e) && e == ShellConfigError::UnsupportedShell,
            Some(shell) => match r {
                Ok(path) => exists|home: Seq<char>|
                    path@ == joined_path(home, config_file_of(shell)),
                Err(e) => e == ShellConfigError::NoHomeDirectory,
            },
        },
{
    if detect_shell(shell_path).is_none() {
        return Err(ShellConfigError::UnsupportedShell);
    }
    match home_dir() {
        Some(home) => {
            let r = shell_config_path_in(Some(home.as_str()), shell_path);
            proof {
                if r is Ok {
                    assert(r->Ok_0@ == joined_path(
                        home@,
                        config_file_of(shell_of(shell_path@)->0),
                    ));
                }
            }
            r
        },
        None => shell_config_path_in(None, shell_path),
    }
}

/// The path of the configuration script, under the directory of the tool.
pub open spec fn tip_config_path() -> Seq<char> {
    "config/tip-config.sh"@
}

/// The path of the configuration script, under the directory of the tool.
pub fn get_tip_config_path() -> (path: String)
    ensures
        path@ == tip_config_path(),
{
    "config/tip-config.sh".to_owned()
}

/// The configuration script. It puts `current_dir` on the `PATH` unless it
/// is there, exports each entry of the registry file at
/// `targets_file_path` as a variable, and defines the shell function `tip`,
/// which runs the tool at `exe_path` and then reads the script at
/// `full_tip_config_path` again.
pub open spec fn tip_config_script(
    current_dir: Seq<char>,
    targets_file_path: Seq<char>,
    exe_path: Seq<char>,
    full_tip_config_path: Seq<char>,
) -> Seq<char> {
    "# Adds tip install folder to PATH if not already added\nif [[ \":$PATH:\" != *\":"@
        + current_dir + ":\"* ]]; then\n    export PATH=\"$PATH:"@ + current_dir
        + "\"\nfi\n\n# Begin tip configuration\nfunction load_targets() {\n    while IFS='=' read -r name address; do\n        export \"$name=$address\"\n    done < \""@
        + targets_file_path
        + "\"\n}\n\n# Call the load_targets function during shell initialization\nload_targets\n\n# Shell function to allow sourcing\nfunction tip() {\n  "@
        + exe_path + " \"$@\"\n  source "@ + full_tip_config_path + "\n}"@
}

/// Writes the configuration script as text.
pub fn create_tip_config(
    current_dir: &str,
    targets_file_path: &str,
    exe_path: &str,
    full_tip_config_path: &str,
) -> (script: String)
    ensures
        script@ == tip_config_script(
            current_dir@,
            targets_file_path@,
            exe_path@,
            full_tip_config_path@,
        ),
{
    let mut script =
        "# Adds tip install folder to PATH if not already added\nif [[ \":$PATH:\" != *\":".to_owned();
    script.append(current_dir);
    script.append(":\"* ]]; then\n    export PATH=\"$PATH:");
    script.append(current_dir);
    script.append(
        "\"\nfi\n\n# Begin tip configuration\nfunction load_targets() {\n    while IFS='=' read -r name address; do\n        export \"$name=$address\"\n    done < \"",
    );
    script.append(targets_file_path);
    script.append(
        "\"\n}\n\n# Call the load_targets function during shell initialization\nload_targets\n\n# Shell function to allow sourcing\nfunction tip() {\n  ",
    );
    script.append(exe_path);
    script.append(" \"$@\"\n  source ");
    script.append(full_tip_config_path);
    script.append("\n}");
    script
}

/// What is done about a file that the installation needs.
#[derive(Clone, Copy, Debug, PartialEq, Eq, Structural)]
pub enum SetupOutcome {
    /// The file is missing and is written.
    Created,
    /// The file exists and nobody was asked yet whether to write it anew.
    Confirm,
    /// The file exists and is written anew.
    Reset,
    /// The file exists and stays.
    Kept,
}

/// What is done about a file that the installation needs, for whether it
/// exists and the answer to the question whether an existing one is to be
/// written anew.
pub open spec fn setup_outcome(exists: bool, answer: Option<bool>) -> SetupOutcome {
    if !exists {
        SetupOutcome::Created
    } else {
        match answer {
            None => SetupOutcome::Confirm,
            Some(true) => SetupOutcome::Reset,
            Some(false) => SetupOutcome::Kept,
        }
    }
}

impl SetupOutcome {
    /// Whether the file is to be written.
    pub open spec fn spec_writes(self) -> bool {
        self == SetupOutcome::Created || self == SetupOutcome::Reset
    }

    /// Whether the file is to be written.
    #[verifier::when_used_as_spec(spec_writes)]
    pub fn writes(self) -> (r: bool)
        ensures
            r == self.spec_writes(),
    {
        match self {
            SetupOutcome::Created | SetupOutcome::Reset => true,
            _ => false,
        }
    }
}

/// Decides what is done about the registry file: a missing one is created
/// empty, an existing one emptied if the user agrees.
///
/// `answer` is the user's answer to the question whether to wipe the list,
/// or `None` while the question has not been asked.
pub fn target_list_validation(exists: bool, answer: Option<bool>) -> (r: Report<SetupOutcome>)
    ensures
        r.outcome == setup_outcome(exists, answer),
        r.action@ == if r.outcome.writes() {
            FileChange::Replace(Seq::empty())
        } else {
            FileChange::Keep
        },
{
    if !exists {
        Report { outcome: SetupOutcome::Created, action: FileAction::Replace(String::new()) }
    } else {
        match answer {
            None => Report { outcome: SetupOutcome::Confirm, action: FileAction::Keep },
            Some(true) => Report {
                outcome: SetupOutcome::Reset,
                action: FileAction::Replace(String::new()),
            },
            Some(false) => Report { outcome: SetupOutcome::Kept, action: FileAction::Keep },
        }
    }
}

/// Decides what is done about the configuration script: a missing one is
/// written, an existing one written anew if the user agrees.
///
/// `answer` is the user's answer to the question whether to reset the
/// script, or `None` while the question has not been asked.
pub fn tip_config_validation(exists: bool, answer: Option<bool>) -> (outcome: SetupOutcome)
    ensures
        outcome == setup_outcome(exists, answer),
{
    if !exists {
        SetupOutcome::Created
    } else {
        match answer {
            None => SetupOutcome::Confirm,
            Some(true) => SetupOutcome::Reset,
            Some(false) => SetupOutcome::Kept,
        }
    }
}

/// The comment that stands above the line by which the shell reads the
/// configuration script.
pub open spec fn source_comment() -> Seq<char> {
    "# Source tip configuration"@
}

/// The line by which the shell reads the configuration script.
pub open spec fn source_line(full_tip_config_path: Seq<char>) -> Seq<char> {
    "source "@ + full_tip_config_path
}

/// What is appended to the start-up file to have the shell read the
/// configuration script: an empty line, the comment and the line.
pub open spec fn source_block(full_tip_config_path: Seq<char>) -> Seq<char> {
    seq!['\n'] + source_comment() + seq!['\n'] + source_line(full_tip_config_path) + seq!['\n']
}

/// Whether one of `lines` holds `needle`.
pub open spec fn mentioned_in(lines: Seq<Seq<char>>, needle: Seq<char>) -> bool {
    exists|i: int| 0 <= i < lines.len() && occurs_in(#[trigger] lines[i], needle)
}

/// The line by which the shell reads the configuration script.
pub fn source_line_text(full_tip_config_path: &str) -> (line: String)
    ensures
        line@ == source_line(full_tip_config_path@),
{
    let mut line = "source ".to_owned();
    line.append(full_tip_config_path);
    line
}

/// Whether one of `lines` holds `needle`.
pub fn any_line_contains(lines: &Vec<String>, needle: &Vec<char>) -> (r: bool)
    ensures
        r == mentioned_in(lines.deep_view(), needle@),
{
    let mut i: usize = 0;
    while i < lines.len()
        invariant
            i <= lines.len(),
            forall|j: int| 0 <= j < i ==> !occurs_in(#[trigger] lines.deep_view()[j], needle@),
        decreases lines.len() - i,
    {
        let line = chars_of(lines[i].as_str());
        if contains(&line, needle) {
            assert(occurs_in(lines.deep_view()[i as int], needle@));
            return true;
        }
        i += 1;
    }
    false
}

/// Looks in the start-up file of the shell for the comment and for the
/// line that reads the configuration script. The first result says that
/// no line holds the comment, the second that no line holds the line.
pub fn tip_config_is_sourced(shell_config: &str, full_tip_config_path: &str) -> (r: (bool, bool))
    ensures
        r.0 == !mentioned_in(lines_of(shell_config@), source_comment()),
        r.1 == !mentioned_in(lines_of(shell_config@), source_line(full_tip_config_path@)),
{
    let lines = split_lines(shell_config);
    let comment = chars_of("# Source tip configuration");
    let line = source_line_text(full_tip_config_path);
    let line = chars_of(line.as_str());
    (!any_line_contains(&lines, &comment), !any_line_contains(&lines, &line))
}

/// What is appended to the start-up file to have the shell read the
/// configuration script.
pub fn source_tip_config(full_tip_config_path: &str) -> (block: String)
    ensures
        block@ == source_block(full_tip_config_path@),
{
    let mut block = String::new();
    push_char(&mut block, '\n');
    block.append("# Source tip configuration");
    push_char(&mut block, '\n');
    block.append("source ");
    block.append(full_tip_config_path);
    push_char(&mut block, '\n');
    assert(block@ =~= source_block(full_tip_config_path@));
    block
}

/// How the attempt to have the shell read the configuration script ended.
#[derive(Clone, Copy, Debug, PartialEq, Eq, Structural)]
pub enum SourceOutcome {
    /// The comment and the line are appended to the start-up file.
    Sourced,
    /// The start-up file holds both already.
    AlreadySourced,
}

/// Whether the start-up file lacks the comment or the line that reads the
/// configuration script.
pub open spec fn lacks_source(lines: Seq<Seq<char>>, full_tip_config_path: Seq<char>) -> bool {
    !mentioned_in(lines, source_comment()) || !mentioned_in(
        lines,
        source_line(full_tip_config_path),
    )
}

/// Has the shell read the configuration script: where the start-up file
/// lacks the comment or the line, both are appended to it.
pub fn shell_config_validation(shell_config: &str, full_tip_config_path: &str) -> (r: Report<
    SourceOutcome,
>)
    ensures
        lacks_source(lines_of(shell_config@), full_tip_config_path@) ==> r.outcome
            == SourceOutcome::Sourced && r.action@ == FileChange::Append(
            source_block(full_tip_config_path@),
        ),
        !lacks_source(lines_of(shell_config@), full_tip_config_path@) ==> r.outcome
            == SourceOutcome::AlreadySourced && r.action@ == FileChange::Keep,
{
    let (comment_not_present, source_line_not_present) = tip_config_is_sourced(
        shell_config,
        full_tip_config_path,
    );
    if comment_not_present || source_line_not_present {
        Report {
            outcome: SourceOutcome::Sourced,
            action: FileAction::Append(source_tip_config(full_tip_config_path)),
        }
    } else {
        Report { outcome: SourceOutcome::AlreadySourced, action: FileAction::Keep }
    }
}

/// Whether `line`, without the whitespace around it, is the comment or the
/// line that reads the configuration script.
pub open spec fn is_source_line(line: Seq<char>, full_tip_config_path: Seq<char>) -> bool {
    trim(line) == source_comment() || trim(line) == source_line(full_tip_config_path)
}

/// `lines` without the comment and the line that reads the configuration
/// script, in their order.
pub open spec fn without_source_lines(
    lines: Seq<Seq<char>>,
    full_tip_config_path: Seq<char>,
) -> Seq<Seq<char>> {
    lines.filter(|line: Seq<char>| !is_source_line(line, full_tip_config_path))
}

/// Whether `line`, without the whitespace around it, is `wanted`.
pub fn trimmed_is(line: &Vec<char>, wanted: &Vec<char>) -> (r: bool)
    ensures
        r == (trim(line@) == wanted@),
{
    let (from, to) = trim_bounds(line);
    if to - from != wanted.len() {
        return false;
    }
    matches_at(line, wanted, from)
}

/// The start-up file without the comment and the line that reads the
/// configuration script: every other line stays, in its order, and each
/// is ended by a line feed.
pub fn delete_config_lines(shell_config: &str, full_tip_config_path: &str) -> (content: String)
    ensures
        content@ == text_of(
            without_source_lines(lines_of(shell_config@), full_tip_config_path@),
        ),
{
    let lines = split_lines(shell_config);
    let comment = chars_of("# Source tip configuration");
    let source = source_line_text(full_tip_config_path);
    let source = chars_of(source.as_str());
    let ghost all = lines.deep_view();
    let ghost kept_if = |line: Seq<char>| !is_source_line(line, full_tip_config_path@);
    let mut kept: Vec<String> = Vec::new();
    let mut i: usize = 0;
    proof {
        reveal(Seq::filter);
        assert(all.take(0) =~= Seq::<Seq<char>>::empty());
        assert(kept.deep_view() =~= all.take(0).filter(kept_if));
    }
    while i < lines.len()
        invariant
            i <= lines.len(),
            all == lines.deep_view(),
            comment@ == source_comment(),
            source@ == source_line(full_tip_config_path@),
            kept_if == |line: Seq<char>| !is_source_line(line, full_tip_config_path@),
            kept.deep_view() == all.take(i as int).filter(kept_if),
        decreases lines.len() - i,
    {
        let ghost before = kept.deep_view();
        proof {
            assert(all.take(i + 1) =~= all.take(i as int).push(all[i as int]));
            all.take(i as int).lemma_filter_push(all[i as int], kept_if);
        }
        let line = chars_of(lines[i].as_str());
        if !trimmed_is(&line, &comment) && !trimmed_is(&line, &source) {
            kept.push(lines[i].clone());
            assert(kept.deep_view() =~= before.push(all[i as int]));
        }
        i += 1;
    }
    assert(all.take(i as int) =~= all);
    join_lines(&kept)
}

/// How the attempt to stop the shell from reading the configuration script
/// ended.
#[derive(Clone, Copy, Debug, PartialEq, Eq, Structural)]
pub enum UnsourceOutcome {
    /// The start-up file is written anew without the comment and the line.
    Removed,
    /// The start-up file holds neither.
    NotSourced,
}

/// Whether the start-up file holds the comment or the line that reads the
/// configuration script.
pub open spec fn holds_source(lines: Seq<Seq<char>>, full_tip_config_path: Seq<char>) -> bool {
    mentioned_in(lines, source_comment()) || mentioned_in(
        lines,
        source_line(full_tip_config_path),
    )
}

/// Stops the shell from reading the configuration script: where the
/// start-up file holds the comment or the line, it is written anew
/// without them.
pub fn remove_shell_source_line(shell_config: &str, full_tip_config_path: &str) -> (r: Report<
    UnsourceOutcome,
>)
    ensures
        holds_source(lines_of(shell_config@), full_tip_config_path@) ==> r.outcome
            == UnsourceOutcome::Removed && r.action@ == FileChange::Replace(
            text_of(without_source_lines(lines_of(shell_config@), full_tip_config_path@)),
        ),
        !holds_source(lines_of(shell_config@), full_tip_config_path@) ==> r.outcome
            == UnsourceOutcome::NotSourced && r.action@ == FileChange::Keep,
{
    let (comment_not_present, source_line_not_present) = tip_config_is_sourced(
        shell_config,
        full_tip_config_path,
    );
    if !comment_not_present || !source_line_not_present {
        Report {
            outcome: UnsourceOutcome::Removed,
            action: FileAction::Replace(delete_config_lines(shell_config, full_tip_config_path)),
        }
    } else {
        Report { outcome: UnsourceOutcome::NotSourced, action: FileAction::Keep }
    }
}

/// A step of the installation, in the order in which the steps are taken.
#[derive(Clone, Copy, Debug, PartialEq, Eq, Structural)]
pub enum InstallStep {
    /// The registry file is created or wiped.
    TargetList,
    /// The configuration script is written.
    TipConfig,
    /// The start-up file of the shell is made to read the script.
    ShellConfig,
}

/// How the installation goes on.
#[derive(Clone, Copy, Debug, PartialEq, Eq, Structural)]
pub enum InstallProgress {
    /// The step is to be taken next.
    Next(InstallStep),
    /// Every step succeeded.
    Complete,
    /// A step failed, and no further step is taken.
    Failed,
}

/// How the installation goes on after the step `done`, which succeeded or
/// failed; `None` stands for the start, where nothing has been done. The
/// steps follow each other in their order, and a failure ends the
/// installation.
pub open spec fn install_progress(done: Option<InstallStep>, succeeded: bool) -> InstallProgress {
    match done {
        None => InstallProgress::Next(InstallStep::TargetList),
        Some(step) => if !succeeded {
            InstallProgress::Failed
        } else {
            match step {
                InstallStep::TargetList => InstallProgress::Next(InstallStep::TipConfig),
                InstallStep::TipConfig => InstallProgress::Next(InstallStep::ShellConfig),
                InstallStep::ShellConfig => InstallProgress::Complete,
            }
        },
    }
}

/// Says how the installation goes on after the step `done`. `succeeded` is
/// looked at only where a step was done.
pub fn install_tip(done: Option<InstallStep>, succeeded: bool) -> (progress: InstallProgress)
    ensures
        progress == install_progress(done, succeeded),
{
    match done {
        None => InstallProgress::Next(InstallStep::TargetList),
        Some(step) => if !succeeded {
            InstallProgress::Failed
        } else {
            match step {
                InstallStep::TargetList => InstallProgress::Next(InstallStep::TipConfig),
                InstallStep::TipConfig => InstallProgress::Next(InstallStep::ShellConfig),
                InstallStep::ShellConfig => InstallProgress::Complete,
            }
        },
    }
}

/// Once the comment and the line that reads the configuration script are
/// appended to a start-up file, the file lacks neither, so that they are
/// not appended a second time. This holds for a path that is read back as
/// it was written: one without a line feed that does not end in a carriage
/// return.
pub proof fn theorem_sourced_once(shell_config: Seq<char>, full_tip_config_path: Seq<char>)
    requires
        is_line(full_tip_config_path),
    ensures
        !lacks_source(
            lines_of(shell_config + source_block(full_tip_config_path)),
            full_tip_config_path,
        ),
{
    let comment = source_comment();
    let line = source_line(full_tip_config_path);
    let head = shell_config.push('\n');
    let rest = text_of(seq![comment, line]);
    let whole = shell_config + source_block(full_tip_config_path);
    reveal_strlit("# Source tip configuration");
    reveal_strlit("source ");
    assert(is_line(comment));
    assert(is_line(line)) by {
        if line.contains('\n') {
            let j = choose|j: int| 0 <= j < line.len() && line[j] == '\n';
            if j >= 7 {
                assert(full_tip_config_path[j - 7] == '\n');
                assert(full_tip_config_path.contains('\n'));
            }
        }
        if full_tip_config_path.len() > 0 {
            assert(line.last() == full_tip_config_path.last());
        }
    }
    lemma_text_of_push(seq![comment], line);
    lemma_text_of_push(Seq::empty(), comment);
    assert(seq![comment, line] =~= seq![comment].push(line));
    assert(seq![comment] =~= Seq::<Seq<char>>::empty().push(comment));
    assert(text_of(Seq::<Seq<char>>::empty()) =~= Seq::<char>::empty()) by {
        assert(ended(Seq::<Seq<char>>::empty()) =~= Seq::<Seq<char>>::empty());
    }
    assert(whole =~= head + rest);
    lemma_lines_of_concat(head, rest);
    lemma_lines_of_text_of(seq![comment, line]);
    let lines = lines_of(whole);
    let n = lines_of(head).len() as int;
    assert(lines[n] == comment);
    assert(lines[n + 1] == line);
    assert(occurs_at(comment, comment, 0)) by {
        assert(comment.subrange(0, comment.len() as int) =~= comment);
    }
    assert(occurs_at(line, line, 0)) by {
        assert(line.subrange(0, line.len() as int) =~= line);
    }
    assert(occurs_in(lines[n], comment));
    assert(occurs_in(lines[n + 1], line));
}

} // verus!
