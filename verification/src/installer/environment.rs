//! Which toolchains this machine has, and which are to be installed.

use vstd::prelude::*;
use crate::failure;
use crate::failure::{Failure, FailureView};
use crate::paths;
use crate::paths::join_path;
use crate::text;
use crate::text::{lossy_string, to_decimal, trimmed};

verus! {

/// Which of the supported toolchains are available.
#[derive(Debug, Clone)]
pub struct EnvironmentReport {
    /// Tools that run npm packages.
    pub js: Vec<ToolAvailability>,
    /// Tools that run Python packages.
    pub python: Vec<ToolAvailability>,
}

/// Whether one executable is available.
#[derive(Debug, Clone, PartialEq, Eq)]
pub struct ToolAvailability {
    /// The executable's name.
    pub name: &'static str,
    /// Where it was found.
    pub path: Option<String>,
}

impl ToolAvailability {
    /// Whether the executable was found.
    pub fn is_available(&self) -> (r: bool)
        ensures
            r == (self.path is Some),
    {
        self.path.is_some()
    }
}

/// Whether none of the tools was found.
pub open spec fn none_available(tools: Seq<ToolAvailability>) -> bool {
    forall|i: int| 0 <= i < tools.len() ==> (#[trigger] tools[i]).path is None
}

fn all_missing(tools: &Vec<ToolAvailability>) -> (r: bool)
    ensures
        r == none_available(tools@),
{
    let mut i: usize = 0;
    while i < tools.len()
        invariant
            i <= tools.len(),
            forall|k: int| 0 <= k < i ==> (#[trigger] tools@[k]).path is None,
        decreases tools.len() - i,
    {
        if tools[i].is_available() {
            return false;
        }
        i += 1;
    }
    true
}

/// The family of operating systems that this machine runs one of.
#[derive(Debug, Clone, Copy, PartialEq, Eq, Structural)]
pub enum HostFamily {
    Unix,
    Windows,
}

/// A toolchain that can be installed.
#[derive(Debug, Clone, Copy, PartialEq, Eq, Structural)]
pub enum InstallTarget {
    /// Deno runs npm packages where npm is missing.
    Deno,
    /// uv runs Python packages.
    Uv,
}

/// The toolchains to install.
#[derive(Debug, Clone)]
pub struct InstallationPlan {
    /// The toolchains, in the order of their installation.
    pub targets: Vec<InstallTarget>,
}

/// The toolchains that are missing: Deno where no tool for npm packages was found, and uv where
/// no tool for Python packages was found.
pub open spec fn missing_targets(report: EnvironmentReport) -> Seq<InstallTarget> {
    (if none_available(report.js@) {
        seq![InstallTarget::Deno]
    } else {
        Seq::empty()
    }) + (if none_available(report.python@) {
        seq![InstallTarget::Uv]
    } else {
        Seq::empty()
    })
}

/// Plans which toolchains are installed.
pub fn plan_installation(report: &EnvironmentReport) -> (r: InstallationPlan)
    ensures
        r.targets@ == missing_targets(*report),
{
    let mut targets: Vec<InstallTarget> = Vec::new();
    if all_missing(&report.js) {
        targets.push(InstallTarget::Deno);
    }
    if all_missing(&report.python) {
        targets.push(InstallTarget::Uv);
    }
    assert(targets@ == missing_targets(*report));
    InstallationPlan { targets }
}

/// What was found for one tool, with a failure to tell as its messages.
pub open spec fn found_view(found: Result<Option<String>, Failure>) -> Result<
    Option<Seq<char>>,
    FailureView,
> {
    match found {
        Ok(path) => Ok(text::opt_text(path)),
        Err(e) => Err(e@),
    }
}

/// Reports the toolchains, given where npm, Deno and uv were found. A search that failed is a
/// failure of the detection; of several, the first counts.
pub fn detect_environment(
    npm: Result<Option<String>, Failure>,
    deno: Result<Option<String>, Failure>,
    uv: Result<Option<String>, Failure>,
) -> (r: Result<EnvironmentReport, Failure>)
    ensures
        match r {
            Ok(report) => {
                &&& report.js@.len() == 2
                &&& report.js@[0].name@ == "npm"@
                &&& found_view(npm) == Ok::<Option<Seq<char>>, FailureView>(
                    text::opt_text(report.js@[0].path),
                )
                &&& report.js@[1].name@ == "deno"@
                &&& found_view(deno) == Ok::<Option<Seq<char>>, FailureView>(
                    text::opt_text(report.js@[1].path),
                )
                &&& report.python@.len() == 1
                &&& report.python@[0].name@ == "uv"@
                &&& found_view(uv) == Ok::<Option<Seq<char>>, FailureView>(
                    text::opt_text(report.python@[0].path),
                )
            },
            Err(e) => match (found_view(npm), found_view(deno), found_view(uv)) {
                (Err(x), _, _) => e@ == x,
                (Ok(_), Err(x), _) => e@ == x,
                (Ok(_), Ok(_), Err(x)) => e@ == x,
                _ => false,
            },
        },
{
    let npm = npm?;
    let deno = deno?;
    let uv = uv?;
    let mut js: Vec<ToolAvailability> = Vec::new();
    js.push(ToolAvailability { name: "npm", path: npm });
    js.push(ToolAvailability { name: "deno", path: deno });
    let mut python: Vec<ToolAvailability> = Vec::new();
    python.push(ToolAvailability { name: "uv", path: uv });
    Ok(EnvironmentReport { js, python })
}

/// The command of an installer: what is shown before it runs, and what runs, both come from it.
#[derive(Debug, Clone, PartialEq, Eq)]
pub struct InstallerCommand {
    /// The program that runs the installer's script.
    pub program: &'static str,
    /// The program's arguments; the last one is the script.
    pub args: Vec<&'static str>,
}

/// The texts of a list of static strings.
pub open spec fn static_texts(list: Seq<&'static str>) -> Seq<Seq<char>> {
    list.map_values(|s: &'static str| s@)
}

/// Each text with a blank in front, one behind the other.
pub open spec fn spaced(texts: Seq<Seq<char>>) -> Seq<char>
    decreases texts.len(),
{
    if texts.len() == 0 {
        Seq::empty()
    } else {
        spaced(texts.drop_last()) + " "@ + texts.last()
    }
}

impl InstallerCommand {
    /// The command line that is shown: the program, its arguments, and the script in quotes.
    pub open spec fn shown(self) -> Seq<char> {
        let texts = static_texts(self.args@);
        self.program@ + spaced(texts.drop_last()) + " \""@ + texts.last() + "\""@
    }

    /// Words the command line that is shown.
    pub fn display(&self) -> (r: String)
        requires
            self.args@.len() > 0,
        ensures
            r@ == self.shown(),
    {
        let ghost texts = static_texts(self.args@);
        let ghost front = texts.drop_last();
        let mut r = self.program.to_owned();
        let last: usize = self.args.len() - 1;
        let mut i: usize = 0;
        assert(front.take(0) == Seq::<Seq<char>>::empty());
        while i < last
            invariant
                i <= last,
                last == self.args.len() - 1,
                texts == static_texts(self.args@),
                front == texts.drop_last(),
                r@ == self.program@ + spaced(front.take(i as int)),
            decreases last - i,
        {
            let ghost before = r@;
            r.append(" ");
            r.append(self.args[i]);
            proof {
                assert(front.take(i + 1).drop_last() == front.take(i as int));
                assert(front.take(i + 1).last() == self.args@[i as int]@);
                assert(r@ == self.program@ + (spaced(front.take(i as int)) + " "@
                    + self.args@[i as int]@));
            }
            i += 1;
        }
        assert(front.take(front.len() as int) == front);
        assert(texts.last() == self.args@[last as int]@);
        r.concat(" \"").concat(self.args[last]).concat("\"")
    }
}

/// The program and the arguments of the official installer.
pub open spec fn official_command(target: InstallTarget, family: HostFamily) -> (
    Seq<char>,
    Seq<Seq<char>>,
) {
    match (family, target) {
        (HostFamily::Windows, InstallTarget::Deno) => (
            "powershell"@,
            seq!["-c"@, "irm https://deno.land/install.ps1 | iex"@],
        ),
        (HostFamily::Windows, InstallTarget::Uv) => (
            "powershell"@,
            seq![
                "-ExecutionPolicy"@,
                "ByPass"@,
                "-c"@,
                "irm https://astral.sh/uv/install.ps1 | iex"@,
            ],
        ),
        (HostFamily::Unix, InstallTarget::Deno) => (
            "sh"@,
            seq!["-c"@, "curl -fsSL https://deno.land/install.sh | sh"@],
        ),
        (HostFamily::Unix, InstallTarget::Uv) => (
            "sh"@,
            seq!["-c"@, "curl -LsSf https://astral.sh/uv/install.sh | sh"@],
        ),
    }
}

impl InstallTarget {
    /// The toolchain's name.
    pub open spec fn name(self) -> Seq<char> {
        match self {
            InstallTarget::Deno => "deno"@,
            InstallTarget::Uv => "uv"@,
        }
    }

    /// Names the toolchain.
    pub fn label(self) -> (r: &'static str)
        ensures
            r@ == self.name(),
    {
        match self {
            InstallTarget::Deno => "deno",
            InstallTarget::Uv => "uv",
        }
    }

    /// Names the executable that the installation brings.
    pub fn program(self) -> (r: &'static str)
        ensures
            r@ == self.name(),
    {
        self.label()
    }

    /// Gives the command of the official installer.
    pub fn installer_command(self, family: HostFamily) -> (r: InstallerCommand)
        ensures
            r.program@ == official_command(self, family).0,
            static_texts(r.args@) == official_command(self, family).1,
            r.args@.len() > 0,
    {
        let mut args: Vec<&'static str> = Vec::new();
        let program = match family {
            HostFamily::Windows => {
                match self {
                    InstallTarget::Deno => {
                        args.push("-c");
                        args.push("irm https://deno.land/install.ps1 | iex");
                    },
                    InstallTarget::Uv => {
                        args.push("-ExecutionPolicy");
                        args.push("ByPass");
                        args.push("-c");
                        args.push("irm https://astral.sh/uv/install.ps1 | iex");
                    },
                }
                "powershell"
            },
            HostFamily::Unix => {
                args.push("-c");
                match self {
                    InstallTarget::Deno => {
                        args.push("curl -fsSL https://deno.land/install.sh | sh");
                    },
                    InstallTarget::Uv => {
                        args.push("curl -LsSf https://astral.sh/uv/install.sh | sh");
                    },
                }
                "sh"
            },
        };
        assert(static_texts(args@) == official_command(self, family).1);
        InstallerCommand { program, args }
    }

    /// Words the command of the official installer, as it is shown before it runs.
    pub fn official_command_display(self, family: HostFamily) -> (r: String)
        ensures
            r@ == ({
                let (program, args) = official_command(self, family);
                program + spaced(args.drop_last()) + " \""@ + args.last() + "\""@
            }),
    {
        self.installer_command(family).display()
    }

    /// The directories below the user's home that an installer puts executables into.
    pub open spec fn bin_directories(self, home: Seq<char>, family: HostFamily) -> Seq<Seq<char>> {
        match self {
            InstallTarget::Deno => seq![paths::join(paths::join(home, ".deno"@), "bin"@)],
            InstallTarget::Uv => {
                let local = paths::join(paths::join(home, ".local"@), "bin"@);
                match family {
                    HostFamily::Windows => seq![
                        local,
                        paths::join(paths::join(home, ".cargo"@), "bin"@),
                    ],
                    HostFamily::Unix => seq![local],
                }
            },
        }
    }

    /// Gives the directories that an installer puts executables into.
    pub fn known_bin_directories(self, home: &str, family: HostFamily) -> (r: Vec<String>)
        ensures
            r.deep_view() == self.bin_directories(home@, family),
    {
        let mut r: Vec<String> = Vec::new();
        match self {
            InstallTarget::Deno => {
                r.push(join_path(join_path(home, ".deno").as_str(), "bin"));
            },
            InstallTarget::Uv => {
                r.push(join_path(join_path(home, ".local").as_str(), "bin"));
                if family == HostFamily::Windows {
                    r.push(join_path(join_path(home, ".cargo").as_str(), "bin"));
                }
            },
        }
        assert(r.deep_view() == self.bin_directories(home@, family));
        r
    }

    /// Whether the installer needs curl.
    pub fn requires_curl(self, family: HostFamily) -> (r: bool)
        ensures
            r == (family == HostFamily::Unix),
    {
        family == HostFamily::Unix
    }
}

/// What is shown is what runs: the line begins with the program, shows every argument, and ends
/// with the script in quotes.
pub proof fn law_shown_command_is_the_one_that_runs(command: InstallerCommand, i: int)
    requires
        0 <= i < command.args@.len(),
    ensures
        command.program@.is_prefix_of(command.shown()),
        text::occurs(command.shown(), command.args@[i]@),
        ("\""@ + command.args@.last()@ + "\""@).is_suffix_of(command.shown()),
{
    reveal_strlit(" \"");
    reveal_strlit("\"");
    let texts = static_texts(command.args@);
    let shown = command.shown();
    let n = command.program@.len() as int;
    let front = spaced(texts.drop_last());
    let script = texts.last();
    assert(script == command.args@.last()@);
    assert(shown.take(n) == command.program@);
    let tail = "\""@ + script + "\""@;
    assert(shown.skip(shown.len() - tail.len()) == tail);
    if i == command.args@.len() - 1 {
        let at = n + front.len() as int + 2;
        assert(shown.subrange(at, at + script.len()) == script);
        assert(text::occurs_at(shown, script, at));
    } else {
        let x = texts.drop_last();
        lemma_spaced(x, i);
        let at = choose|at: int| text::occurs_at(front, x[i], at);
        assert(shown.subrange(n + at, n + at + x[i].len()) == front.subrange(
            at,
            at + x[i].len(),
        ));
        assert(text::occurs_at(shown, x[i], n + at));
    }
}

proof fn lemma_spaced(texts: Seq<Seq<char>>, i: int)
    requires
        0 <= i < texts.len(),
    ensures
        text::occurs(spaced(texts), texts[i]),
    decreases texts.len(),
{
    let all = spaced(texts);
    let front = spaced(texts.drop_last());
    let word = texts[i];
    if i == texts.len() - 1 {
        let at = (front + " "@).len() as int;
        assert(all.subrange(at, at + word.len()) == word);
        assert(text::occurs_at(all, word, at));
    } else {
        lemma_spaced(texts.drop_last(), i);
        let at = choose|at: int| text::occurs_at(front, word, at);
        assert(all.subrange(at, at + word.len()) == front.subrange(at, at + word.len()));
        assert(text::occurs_at(all, word, at));
    }
}

/// A toolchain that was installed and found to work.
#[derive(Debug, Clone)]
pub struct InstallationResult {
    /// The toolchain.
    pub target: InstallTarget,
    /// Where its executable is.
    pub path: String,
    /// Whether the executable can be found as things are.
    pub on_path: bool,
}

/// Refuses to run an installer without what it needs. `curl` says where curl was found.
pub fn ensure_installer_prerequisites(
    target: InstallTarget,
    family: HostFamily,
    curl: Result<Option<String>, Failure>,
) -> (r: Result<(), Failure>)
    ensures
        match r {
            Ok(()) => family == HostFamily::Windows || (curl is Ok && curl->Ok_0 is Some),
            Err(e) => family == HostFamily::Unix && match curl {
                Err(x) => e@ == x@,
                Ok(None) => e@ == failure::failure(
                    "Cannot install "@ + target.name()
                        + " because curl is not available in the current environment"@,
                ),
                Ok(Some(_)) => false,
            },
        },
{
    if !target.requires_curl(family) {
        return Ok(());
    }
    match curl {
        Err(e) => Err(e),
        Ok(Some(_)) => Ok(()),
        Ok(None) => Err(
            Failure::new(
                "Cannot install ".to_owned().concat(target.label()).concat(
                    " because curl is not available in the current environment",
                ),
            ),
        ),
    }
}

/// What a process wrote, with white space at both ends removed.
pub open spec fn shown_output(bytes: Seq<u8>) -> Seq<char> {
    text::trim(text::lossy_text(bytes))
}

/// What there is to show of a process: both outputs, or the one that is not empty.
pub open spec fn rendered_output(stdout: Seq<u8>, stderr: Seq<u8>) -> Seq<char> {
    let out = shown_output(stdout);
    let err = shown_output(stderr);
    if out.len() == 0 && err.len() == 0 {
        "installer exited without any output"@
    } else if err.len() == 0 {
        out
    } else if out.len() == 0 {
        err
    } else {
        out + "\n"@ + err
    }
}

/// Words what there is to show of a process.
pub fn render_output(stdout: &[u8], stderr: &[u8]) -> (r: String)
    ensures
        r@ == rendered_output(stdout@, stderr@),
{
    let out = trimmed(lossy_string(stdout).as_str());
    let err = trimmed(lossy_string(stderr).as_str());
    match (out.as_str().is_empty(), err.as_str().is_empty()) {
        (true, true) => "installer exited without any output".to_owned(),
        (false, true) => out,
        (true, false) => err,
        (false, false) => out.concat("\n").concat(err.as_str()),
    }
}

/// A number in decimal with its sign.
pub open spec fn signed_decimal(n: int) -> Seq<char> {
    if n < 0 {
        "-"@ + text::decimal((-n) as nat)
    } else {
        text::decimal(n as nat)
    }
}

fn to_signed_decimal(n: i32) -> (r: String)
    ensures
        r@ == signed_decimal(n as int),
{
    if n < 0 {
        let magnitude: u128 = (-(n as i64)) as u128;
        "-".to_owned().concat(to_decimal(magnitude).as_str())
    } else {
        to_decimal(n as u128)
    }
}

/// How a process ended, in words.
pub open spec fn status_text(code: Option<i32>, signal: Option<i32>) -> Seq<char> {
    match (code, signal) {
        (Some(c), _) => signed_decimal(c as int),
        (None, Some(s)) => "signal "@ + signed_decimal(s as int),
        (None, None) => "unknown"@,
    }
}

/// Words how a process ended.
pub fn display_status(code: Option<i32>, signal: Option<i32>) -> (r: String)
    ensures
        r@ == status_text(code, signal),
{
    match (code, signal) {
        (Some(c), _) => to_signed_decimal(c),
        (None, Some(s)) => "signal ".to_owned().concat(to_signed_decimal(s).as_str()),
        (None, None) => "unknown".to_owned(),
    }
}

/// What a process came to: how it ended and what it wrote.
#[derive(Debug, Clone)]
pub struct ProcessOutput {
    pub success: bool,
    pub code: Option<i32>,
    pub signal: Option<i32>,
    pub stdout: Vec<u8>,
    pub stderr: Vec<u8>,
}

/// Judges the run of an installer.
pub fn installer_outcome(target: InstallTarget, output: &ProcessOutput) -> (r: Result<
    (),
    Failure,
>)
    ensures
        match r {
            Ok(()) => output.success,
            Err(e) => !output.success && e@ == failure::failure(
                "installer for "@ + target.name() + " failed with status "@ + status_text(
                    output.code,
                    output.signal,
                ) + ": "@ + rendered_output(output.stdout@, output.stderr@),
            ),
        },
{
    if output.success {
        return Ok(());
    }
    Err(
        Failure::new(
            "installer for ".to_owned().concat(target.label()).concat(
                " failed with status ",
            ).concat(display_status(output.code, output.signal).as_str()).concat(": ").concat(
                render_output(output.stdout.as_slice(), output.stderr.as_slice()).as_str(),
            ),
        ),
    )
}

/// Judges the run of a freshly installed executable that was asked for its version.
pub fn version_outcome(subject: &str, output: &ProcessOutput) -> (r: Result<(), Failure>)
    ensures
        match r {
            Ok(()) => output.success,
            Err(e) => !output.success && e@ == failure::failure(
                "verification failed for "@ + subject@ + ": "@ + rendered_output(
                    output.stdout@,
                    output.stderr@,
                ),
            ),
        },
{
    if output.success {
        return Ok(());
    }
    Err(
        Failure::new(
            "verification failed for ".to_owned().concat(subject).concat(": ").concat(
                render_output(output.stdout.as_slice(), output.stderr.as_slice()).as_str(),
            ),
        ),
    )
}

/// Where a freshly installed executable is: where it can be found as things are, or in one of the
/// directories that the installer uses.
pub open spec fn installed_at(
    target: InstallTarget,
    home: Option<Seq<char>>,
    on_path: Result<Option<Seq<char>>, FailureView>,
    elsewhere: Result<Option<Seq<char>>, FailureView>,
) -> Result<(Seq<char>, bool), FailureView> {
    match (home, on_path, elsewhere) {
        (None, _, _) => Err(failure::failure("unable to determine the home directory"@)),
        (Some(_), Err(e), _) => Err(e),
        (Some(_), Ok(Some(path)), _) => Ok((path, true)),
        (Some(_), Ok(None), Err(e)) => Err(e),
        (Some(_), Ok(None), Ok(Some(path))) => Ok((path, false)),
        (Some(_), Ok(None), Ok(None)) => Err(
            failure::failure(
                "verification failed for "@ + target.name() + ": "@ + target.name()
                    + " was not found after installation"@,
            ),
        ),
    }
}

/// Finds a freshly installed executable. `on_path` says where it can be found as things are, and
/// `elsewhere` where it is with the installer's directories searched first.
pub fn locate_installation(
    target: InstallTarget,
    home: Option<&str>,
    on_path: Result<Option<String>, Failure>,
    elsewhere: Result<Option<String>, Failure>,
) -> (r: Result<InstallationResult, Failure>)
    ensures
        match r {
            Ok(found) => found.target == target && installed_at(
                target,
                text::text_option(home),
                found_view(on_path),
                found_view(elsewhere),
            ) == Ok::<(Seq<char>, bool), FailureView>((found.path@, found.on_path)),
            Err(e) => installed_at(
                target,
                text::text_option(home),
                found_view(on_path),
                found_view(elsewhere),
            ) == Err::<(Seq<char>, bool), FailureView>(e@),
        },
{
    if home.is_none() {
        return Err(Failure::new("unable to determine the home directory".to_owned()));
    }
    match on_path {
        Err(e) => Err(e),
        Ok(Some(path)) => Ok(InstallationResult { target, path, on_path: true }),
        Ok(None) => match elsewhere {
            Err(e) => Err(e),
            Ok(Some(path)) => Ok(InstallationResult { target, path, on_path: false }),
            Ok(None) => Err(
                Failure::new(
                    "verification failed for ".to_owned().concat(target.label()).concat(
                        ": ",
                    ).concat(target.program()).concat(" was not found after installation"),
                ),
            ),
        },
    }
}

/// The directories that a program is searched in: the preferred ones, then those of the search
/// path. Without any, nothing is found.
pub fn search_directories(preferred: &Vec<String>, search_path: Option<Vec<String>>) -> (r: Option<
    Vec<String>,
>)
    ensures
        ({
            let all = preferred.deep_view() + crate::runner::texts_or_empty(search_path);
            match r {
                Some(list) => all.len() > 0 && list.deep_view() == all,
                None => all.len() == 0,
            }
        }),
{
    let ghost all = preferred.deep_view() + crate::runner::texts_or_empty(search_path);
    let mut list: Vec<String> = Vec::new();
    assert(list.deep_view() == Seq::<Seq<char>>::empty());
    crate::runner::push_texts(&mut list, preferred);
    if let Some(entries) = &search_path {
        crate::runner::push_texts(&mut list, entries);
    }
    assert(list.deep_view() == all);
    assert(list.deep_view().len() == list@.len());
    if list.len() == 0 {
        None
    } else {
        Some(list)
    }
}

/// An installation plan that is being carried out, one toolchain after the other.
#[derive(Debug)]
pub struct InstallationRun {
    pub targets: Vec<InstallTarget>,
    /// The toolchains that are installed, in the order of the plan.
    pub results: Vec<InstallationResult>,
    /// What stopped the installation.
    pub failed: Option<Failure>,
}

impl InstallationRun {
    /// Whether the results are those of the first toolchains of the plan.
    pub open spec fn in_plan_order(self) -> bool {
        &&& self.results@.len() <= self.targets@.len()
        &&& forall|i: int|
            0 <= i < self.results@.len() ==> (#[trigger] self.results@[i]).target
                == self.targets@[i]
    }

    /// A run that has installed nothing.
    pub fn new(plan: &InstallationPlan) -> (r: InstallationRun)
        ensures
            r.targets@ == plan.targets@,
            r.results@.len() == 0,
            r.failed is None,
            r.in_plan_order(),
    {
        let mut targets: Vec<InstallTarget> = Vec::new();
        let mut i: usize = 0;
        while i < plan.targets.len()
            invariant
                i <= plan.targets.len(),
                targets@ == plan.targets@.take(i as int),
            decreases plan.targets.len() - i,
        {
            targets.push(plan.targets[i]);
            assert(plan.targets@.take(i + 1) == plan.targets@.take(i as int).push(
                plan.targets@[i as int],
            ));
            i += 1;
        }
        assert(plan.targets@.take(plan.targets@.len() as int) == plan.targets@);
        InstallationRun { targets, results: Vec::new(), failed: None }
    }

    /// The toolchain to install next; none after a failure, and none at the end.
    pub fn next_target(&self) -> (r: Option<InstallTarget>)
        requires
            self.in_plan_order(),
        ensures
            match r {
                Some(target) => self.failed is None && self.results@.len() < self.targets@.len()
                    && target == self.targets@[self.results@.len() as int],
                None => self.failed is Some || self.results@.len() == self.targets@.len(),
            },
    {
        if self.failed.is_some() || self.results.len() >= self.targets.len() {
            None
        } else {
            Some(self.targets[self.results.len()])
        }
    }

    /// Takes note of what came of installing the next toolchain.
    pub fn record(&mut self, result: Result<InstallationResult, Failure>)
        requires
            old(self).in_plan_order(),
            old(self).failed is None,
            old(self).results@.len() < old(self).targets@.len(),
            result is Ok ==> result->Ok_0.target == old(self).targets@[old(self).results@.len() as int],
        ensures
            final(self).in_plan_order(),
            final(self).targets@ == old(self).targets@,
            match result {
                Ok(found) => final(self).results@ == old(self).results@.push(found) && final(self).failed is None,
                Err(e) => final(self).results@ == old(self).results@ && final(self).failed == Some(
                    e,
                ),
            },
    {
        match result {
            Ok(found) => {
                self.results.push(found);
            },
            Err(e) => {
                self.failed = Some(e);
            },
        }
    }

    /// What the run came to: the results, or what stopped it.
    pub fn finish(self) -> (r: Result<Vec<InstallationResult>, Failure>)
        ensures
            match r {
                Ok(results) => self.failed is None && results@ == self.results@,
                Err(e) => self.failed == Some(e),
            },
    {
        match self.failed {
            Some(e) => Err(e),
            None => Ok(self.results),
        }
    }
}

/// A toolchain is installed exactly if none of the tools that could stand in for it was found.
pub proof fn law_only_missing_toolchains_are_installed(report: EnvironmentReport)
    ensures
        missing_targets(report).contains(InstallTarget::Deno) <==> forall|i: int|
            0 <= i < report.js@.len() ==> (#[trigger] report.js@[i]).path is None,
        missing_targets(report).contains(InstallTarget::Uv) <==> forall|i: int|
            0 <= i < report.python@.len() ==> (#[trigger] report.python@[i]).path is None,
        missing_targets(report).no_duplicates(),
        missing_targets(report).len() == 2 ==> missing_targets(report).first()
            == InstallTarget::Deno,
{
    let targets = missing_targets(report);
    let js = none_available(report.js@);
    let python = none_available(report.python@);
    if js && python {
        assert(targets =~= seq![InstallTarget::Deno, InstallTarget::Uv]);
        assert(targets[0] == InstallTarget::Deno && targets[1] == InstallTarget::Uv);
    } else if js {
        assert(targets =~= seq![InstallTarget::Deno]);
        assert(targets[0] == InstallTarget::Deno);
    } else if python {
        assert(targets =~= seq![InstallTarget::Uv]);
        assert(targets[0] == InstallTarget::Uv);
    } else {
        assert(targets =~= Seq::<InstallTarget>::empty());
    }
}

/// Every toolchain is installed by the installer of its own makers, in the shell of the machine.
pub proof fn law_toolchains_come_from_their_makers(target: InstallTarget)
    ensures
        official_command(target, HostFamily::Unix).0 == "sh"@,
        official_command(target, HostFamily::Windows).0 == "powershell"@,
        official_command(InstallTarget::Deno, HostFamily::Unix).1 == seq![
            "-c"@,
            "curl -fsSL https://deno.land/install.sh | sh"@,
        ],
        official_command(InstallTarget::Uv, HostFamily::Unix).1 == seq![
            "-c"@,
            "curl -LsSf https://astral.sh/uv/install.sh | sh"@,
        ],
        official_command(InstallTarget::Deno, HostFamily::Windows).1.last()
            == "irm https://deno.land/install.ps1 | iex"@,
        official_command(InstallTarget::Uv, HostFamily::Windows).1.last()
            == "irm https://astral.sh/uv/install.ps1 | iex"@,
        InstallTarget::Deno.name() == "deno"@,
        InstallTarget::Uv.name() == "uv"@,
{
}

/// A toolchain is looked for below the home directory, where its installer puts it.
pub proof fn law_toolchains_are_looked_for_at_home(home: Seq<char>, family: HostFamily)
    ensures
        InstallTarget::Deno.bin_directories(home, family).len() == 1,
        paths::components(InstallTarget::Deno.bin_directories(home, family)[0])
            == paths::components(home) + seq![".deno"@, "bin"@],
        paths::components(InstallTarget::Uv.bin_directories(home, family)[0]) == paths::components(
            home,
        ) + seq![".local"@, "bin"@],
        InstallTarget::Uv.bin_directories(home, HostFamily::Unix).len() == 1,
        InstallTarget::Uv.bin_directories(home, HostFamily::Windows).len() == 2,
        paths::components(InstallTarget::Uv.bin_directories(home, HostFamily::Windows)[1])
            == paths::components(home) + seq![".cargo"@, "bin"@],
{
    reveal_strlit(".deno");
    reveal_strlit(".local");
    reveal_strlit(".cargo");
    reveal_strlit("bin");
    lemma_two_below(home, ".deno"@);
    lemma_two_below(home, ".local"@);
    lemma_two_below(home, ".cargo"@);
}

proof fn lemma_two_below(home: Seq<char>, name: Seq<char>)
    requires
        name.len() > 1,
        !name.contains('/'),
    ensures
        paths::components(paths::join(paths::join(home, name), "bin"@)) == paths::components(home)
            + seq![name, "bin"@],
{
    reveal_strlit("bin");
    assert(name.contains(name[0]));
    paths::law_single_names_are_components(name);
    paths::law_single_names_are_components("bin"@);
    paths::law_join_puts_components_behind(home, name);
    paths::law_join_puts_components_behind(paths::join(home, name), "bin"@);
    assert(paths::components(home) + seq![name] + seq!["bin"@] =~= paths::components(home) + seq![
        name,
        "bin"@,
    ]);
}

/// What an installer wrote is shown, its output before its errors.
pub proof fn law_installer_output_is_shown(stdout: Seq<u8>, stderr: Seq<u8>)
    ensures
        ({
            let out = text::trim(text::lossy_text(stdout));
            let err = text::trim(text::lossy_text(stderr));
            let shown = rendered_output(stdout, stderr);
            &&& out.len() > 0 ==> out.is_prefix_of(shown)
            &&& err.len() > 0 ==> err.is_suffix_of(shown)
            &&& shown.len() > 0
            &&& out.len() > 0 && err.len() > 0 ==> shown.len() == out.len() + 1 + err.len()
        }),
{
    reveal_strlit("\n");
    reveal_strlit("installer exited without any output");
    let out = text::trim(text::lossy_text(stdout));
    let err = text::trim(text::lossy_text(stderr));
    let shown = rendered_output(stdout, stderr);
    if out.len() > 0 {
        assert(shown.take(out.len() as int) =~= out);
    }
    if err.len() > 0 {
        assert(shown.skip(shown.len() - err.len()) =~= err);
    }
}

/// A status is told by its code, or by the signal that ended the process where it has none.
pub proof fn law_statuses_are_told_by_their_numbers(code: i32, signal: Option<i32>)
    requires
        code >= 0,
    ensures
        status_text(Some(code), signal) == text::decimal(code as nat),
        status_text(None, Some(code)) == "signal "@ + text::decimal(code as nat),
        status_text(None, None) == "unknown"@,
        code > 0 ==> status_text(Some((-code) as i32), signal) == "-"@ + text::decimal(code as nat),
{
}

/// An installation is found where the search path leads to, before anywhere else; it is not found
/// exactly if the home directory is unknown, a search failed, or both found nothing.
pub proof fn law_installations_are_found_on_the_path_first(
    target: InstallTarget,
    home: Seq<char>,
    path: Seq<char>,
    on_path: Result<Option<Seq<char>>, FailureView>,
    elsewhere: Result<Option<Seq<char>>, FailureView>,
)
    ensures
        installed_at(target, None, on_path, elsewhere) is Err,
        installed_at(target, Some(home), Ok(Some(path)), elsewhere) == Ok::<
            (Seq<char>, bool),
            FailureView,
        >((path, true)),
        installed_at(target, Some(home), Ok(None), Ok(Some(path))) == Ok::<
            (Seq<char>, bool),
            FailureView,
        >((path, false)),
        installed_at(target, Some(home), Ok(None), Ok(None)) is Err,
        on_path is Err ==> installed_at(target, Some(home), on_path, elsewhere) == Err::<
            (Seq<char>, bool),
            FailureView,
        >(on_path->Err_0),
        elsewhere is Err ==> installed_at(target, Some(home), Ok(None), elsewhere) == Err::<
            (Seq<char>, bool),
            FailureView,
        >(elsewhere->Err_0),
{
}

/// A command with two arguments is shown as it would be typed, the last argument in quotes.
pub proof fn law_commands_are_shown_as_typed(command: InstallerCommand)
    requires
        command.args@.len() == 2,
    ensures
        command.shown() == command.program@ + " "@ + command.args@[0]@ + " \""@
            + command.args@[1]@ + "\""@,
{
    let texts = static_texts(command.args@);
    let first = texts.drop_last();
    assert(first.len() == 1 && first.last() == command.args@[0]@);
    assert(first.drop_last().len() == 0);
    assert(spaced(first.drop_last()) =~= Seq::<char>::empty());
    assert(spaced(first) =~= " "@ + command.args@[0]@);
    assert(texts.last() == command.args@[1]@);
    assert(command.shown() =~= command.program@ + " "@ + command.args@[0]@ + " \""@
        + command.args@[1]@ + "\""@);
}

/// The environment is told of only if every tool could be looked for: npm and Deno for JavaScript,
/// uv for Python, each with the place it was found at.
pub proof fn law_every_tool_is_looked_for(
    npm: Result<Option<String>, Failure>,
    deno: Result<Option<String>, Failure>,
    uv: Result<Option<String>, Failure>,
    r: Result<EnvironmentReport, Failure>,
)
    requires
        call_ensures(detect_environment, (npm, deno, uv), r),
    ensures
        r is Ok <==> npm is Ok && deno is Ok && uv is Ok,
        r is Ok ==> {
            let report = r->Ok_0;
            &&& report.js.len() == 2 && report.python.len() == 1
            &&& report.js@[0].name@ == "npm"@ && text::opt_text(report.js@[0].path)
                == text::opt_text(npm->Ok_0)
            &&& report.js@[1].name@ == "deno"@ && text::opt_text(report.js@[1].path)
                == text::opt_text(deno->Ok_0)
            &&& report.python@[0].name@ == "uv"@ && text::opt_text(report.python@[0].path)
                == text::opt_text(uv->Ok_0)
        },
        npm is Err ==> r is Err && r->Err_0@ == npm->Err_0@,
{
}

/// An installer may be run on Windows in any case, and elsewhere exactly if curl was found.
pub proof fn law_installers_need_curl_on_unix(
    target: InstallTarget,
    family: HostFamily,
    curl: Result<Option<String>, Failure>,
    r: Result<(), Failure>,
)
    requires
        call_ensures(ensure_installer_prerequisites, (target, family, curl), r),
    ensures
        r is Ok <==> family == HostFamily::Windows || curl is Ok && curl->Ok_0 is Some,
        r is Err && curl is Err ==> r->Err_0@ == curl->Err_0@,
{
}

/// Installers and checks count exactly by whether the program ended well, and what one that did not
/// has written is told.
pub proof fn law_programs_count_by_their_end(
    target: InstallTarget,
    subject: &str,
    output: &ProcessOutput,
    installed: Result<(), Failure>,
    checked: Result<(), Failure>,
)
    requires
        call_ensures(installer_outcome, (target, output), installed),
        call_ensures(version_outcome, (subject, output), checked),
    ensures
        installed is Ok <==> output.success,
        checked is Ok <==> output.success,
        installed is Err ==> rendered_output(output.stdout@, output.stderr@).is_suffix_of(
            installed->Err_0@.message,
        ),
        checked is Err ==> rendered_output(output.stdout@, output.stderr@).is_suffix_of(
            checked->Err_0@.message,
        ),
{
    let tail = rendered_output(output.stdout@, output.stderr@);
    if installed is Err {
        let all = installed->Err_0@.message;
        assert(all.skip(all.len() - tail.len()) =~= tail);
    }
    if checked is Err {
        let all = checked->Err_0@.message;
        assert(all.skip(all.len() - tail.len()) =~= tail);
    }
}

/// Preferred directories are searched first, then those of the path, and none is left out.
pub proof fn law_preferred_directories_come_first(
    preferred: &Vec<String>,
    path: Option<Vec<String>>,
    r: Option<Vec<String>>,
)
    requires
        call_ensures(search_directories, (preferred, path), r),
    ensures
        r is Some <==> preferred.len() > 0 || path is Some && path->Some_0.len() > 0,
        r is Some ==> preferred.deep_view().is_prefix_of(r->Some_0.deep_view()),
        r is Some && path is Some ==> path->Some_0.deep_view().is_suffix_of(r->Some_0.deep_view())
            && r->Some_0.len() == preferred.len() + path->Some_0.len(),
{
    if r is Some {
        let all = r->Some_0.deep_view();
        let first = preferred.deep_view();
        assert(all.take(first.len() as int) =~= first);
        if path is Some {
            let last = path->Some_0.deep_view();
            assert(all.skip(all.len() - last.len()) =~= last);
            assert(all.len() == first.len() + last.len());
        }
    }
}

/// Toolchains are installed in the order of the plan, from its first on, until one fails or all are
/// done; what is reported in the end is every result, or the failure.
pub proof fn law_plans_are_carried_out_in_order(
    plan: &InstallationPlan,
    begun: InstallationRun,
    run: InstallationRun,
    next: Option<InstallTarget>,
    done: Result<Vec<InstallationResult>, Failure>,
)
    requires
        run.in_plan_order(),
        call_ensures(InstallationRun::new, (plan,), begun),
        call_ensures(InstallationRun::next_target, (&run,), next),
        call_ensures(InstallationRun::finish, (run,), done),
    ensures
        begun.targets@ == plan.targets@,
        begun.results.len() == 0,
        begun.failed is None,
        next is Some <==> run.failed is None && run.results.len() < run.targets.len(),
        next is Some ==> next->Some_0 == run.targets@[run.results.len() as int],
        done is Ok <==> run.failed is None,
        done is Ok ==> done->Ok_0@ == run.results@,
        done is Err ==> done->Err_0 == run.failed->Some_0,
{
}

/// A result is put behind those before it, and a failure ends the run; neither changes the plan.
pub proof fn law_results_are_put_behind(
    run: &mut InstallationRun,
    result: Result<InstallationResult, Failure>,
)
    requires
        call_ensures(InstallationRun::record, (run, result), ()),
    ensures
        final(run).targets@ == old(run).targets@,
        result is Ok ==> final(run).results.len() == old(run).results.len() + 1 && final(run).results@.last() == result->Ok_0 && final(run).results@.drop_last() == old(run).results@
            && final(run).failed is None,
        result is Err ==> final(run).results@ == old(run).results@ && final(run).failed == Some(
            result->Err_0,
        ),
{
    if result is Ok {
        assert(final(run).results@.drop_last() =~= old(run).results@);
    }
}

} // verus!
