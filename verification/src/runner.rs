//! How a registry agent is run on this machine.

use vstd::prelude::*;
use crate::failure;
use crate::failure::{Failure, FailureView};
use crate::installer::binary::CachedBinary;
use crate::registry::{
    BinaryTarget, Environment, NpxDistribution, Platform, RegistryAgent, UvxDistribution,
};

verus! {

/// The tool that runs a package distribution. It is decided once, for installing and for running,
/// so that an installation prepares exactly what a run uses.
#[derive(Debug, Clone, Copy, PartialEq, Eq, Structural)]
pub enum PackageRunner {
    /// `npm` runs npm packages through `npm exec`.
    Npm,
    /// Deno runs npm packages through `deno x` where npm is missing.
    Deno,
    /// uv runs Python packages through `uvx`.
    Uvx,
}

impl PackageRunner {
    /// The executable's name.
    pub open spec fn program_name(self) -> Seq<char> {
        match self {
            PackageRunner::Npm => "npm"@,
            PackageRunner::Deno => "deno"@,
            PackageRunner::Uvx => "uvx"@,
        }
    }

    /// Names the executable.
    pub fn program(self) -> (r: &'static str)
        ensures
            r@ == self.program_name(),
    {
        match self {
            PackageRunner::Npm => "npm",
            PackageRunner::Deno => "deno",
            PackageRunner::Uvx => "uvx",
        }
    }

    /// Names the tool where installing and removing is reported.
    pub fn install_name(self) -> (r: &'static str)
        ensures
            r@ == match self {
                PackageRunner::Npm => "npm"@,
                PackageRunner::Deno => "deno"@,
                PackageRunner::Uvx => "uv"@,
            },
    {
        match self {
            PackageRunner::Npm => "npm",
            PackageRunner::Deno => "deno",
            PackageRunner::Uvx => "uv",
        }
    }

    /// The runner as text.
    pub fn to_text(self) -> (r: String)
        ensures
            r@ == self.program_name(),
    {
        self.program().to_owned()
    }
}

/// Chooses the runner of npm packages: npm where it is available, and Deno otherwise.
pub fn npm_package_runner(npm_available: bool) -> (r: PackageRunner)
    ensures
        r == if npm_available {
            PackageRunner::Npm
        } else {
            PackageRunner::Deno
        },
{
    if npm_available {
        PackageRunner::Npm
    } else {
        PackageRunner::Deno
    }
}

/// The distribution that is used for an agent on this machine.
#[derive(Debug, Clone, Copy, PartialEq, Eq)]
pub enum ResolvedDistribution<'a> {
    /// An archive for the platform.
    Binary { platform: Platform, target: &'a BinaryTarget },
    /// An npm package and the tool that runs it.
    Npm { distribution: &'a NpxDistribution, runner: PackageRunner },
    /// A Python package.
    Uvx { distribution: &'a UvxDistribution },
}

/// The distribution that is used for `agent`: an archive for the platform comes first, then an
/// npm package, then a Python package. Whether npm can be found matters to an npm package only.
pub open spec fn resolved(
    agent: RegistryAgent,
    platform: Platform,
    npm: Result<bool, FailureView>,
) -> Result<Option<ResolvedDistribution<'static>>, FailureView> {
    let d = agent.distribution;
    if d.binary is Some && d.binary->Some_0.target(platform) is Some {
        Ok(
            Some(
                ResolvedDistribution::Binary {
                    platform,
                    target: &d.binary->Some_0.target(platform)->Some_0,
                },
            ),
        )
    } else if d.npx is Some {
        match npm {
            Err(e) => Err(e),
            Ok(available) => Ok(
                Some(
                    ResolvedDistribution::Npm {
                        distribution: &d.npx->Some_0,
                        runner: if available {
                            PackageRunner::Npm
                        } else {
                            PackageRunner::Deno
                        },
                    },
                ),
            ),
        }
    } else if d.uvx is Some {
        Ok(Some(ResolvedDistribution::Uvx { distribution: &d.uvx->Some_0 }))
    } else {
        Ok(None)
    }
}

/// Whether npm can be found, with a failure to tell as its messages.
pub open spec fn npm_view(npm: Result<bool, Failure>) -> Result<bool, FailureView> {
    match npm {
        Ok(available) => Ok(available),
        Err(e) => Err(e@),
    }
}

/// Resolves the distribution that is used for `agent` on `platform`. `npm` says whether npm can
/// be found.
pub fn resolve_distribution<'a>(
    agent: &'a RegistryAgent,
    platform: Platform,
    npm: Result<bool, Failure>,
) -> (r: Result<Option<ResolvedDistribution<'a>>, Failure>)
    ensures
        match r {
            Ok(d) => resolved(*agent, platform, npm_view(npm)) == Ok::<
                Option<ResolvedDistribution>,
                FailureView,
            >(d),
            Err(e) => resolved(*agent, platform, npm_view(npm)) == Err::<
                Option<ResolvedDistribution>,
                FailureView,
            >(e@),
        },
{
    if let Some(binary) = &agent.distribution.binary {
        if let Some(target) = binary.for_platform(platform) {
            return Ok(Some(ResolvedDistribution::Binary { platform, target }));
        }
    }
    if let Some(distribution) = &agent.distribution.npx {
        let available: bool = match npm {
            Err(e) => {
                return Err(e);
            },
            Ok(available) => available,
        };
        return Ok(
            Some(
                ResolvedDistribution::Npm { distribution, runner: npm_package_runner(available) },
            ),
        );
    }
    match &agent.distribution.uvx {
        Some(distribution) => Ok(Some(ResolvedDistribution::Uvx { distribution })),
        None => Ok(None),
    }
}

/// A process that can be started.
#[derive(Debug, Clone, PartialEq, Eq)]
pub struct CommandSpec {
    pub program: String,
    pub args: Vec<String>,
    pub env: Environment,
    pub current_dir: Option<String>,
}

/// A [`CommandSpec`] over sequences.
#[verifier::ext_equal]
pub struct CommandView {
    pub program: Seq<char>,
    pub args: Seq<Seq<char>>,
    pub env: Seq<(Seq<char>, Seq<char>)>,
    pub current_dir: Option<Seq<char>>,
}

impl View for CommandSpec {
    type V = CommandView;

    open spec fn view(&self) -> CommandView {
        CommandView {
            program: self.program@,
            args: self.args.deep_view(),
            env: self.env.deep_view(),
            current_dir: crate::text::opt_text(self.current_dir),
        }
    }
}

/// The texts of an optional list; none stands for an empty one.
pub open spec fn texts_or_empty(list: Option<Vec<String>>) -> Seq<Seq<char>> {
    match list {
        Some(l) => l.deep_view(),
        None => Seq::empty(),
    }
}

/// Optional environment variables; none stands for an empty list.
pub open spec fn env_or_empty(env: Option<Environment>) -> Seq<(Seq<char>, Seq<char>)> {
    match env {
        Some(e) => e.deep_view(),
        None => Seq::empty(),
    }
}

/// Appends copies of texts.
pub fn push_texts(out: &mut Vec<String>, texts: &Vec<String>)
    ensures
        final(out).deep_view() == old(out).deep_view() + texts.deep_view(),
{
    let ghost start = out.deep_view();
    let ghost all = texts.deep_view();
    let mut i: usize = 0;
    assert(start + all.take(0) == start);
    while i < texts.len()
        invariant
            i <= texts.len(),
            all == texts.deep_view(),
            out.deep_view() == start + all.take(i as int),
        decreases texts.len() - i,
    {
        let ghost before = out.deep_view();
        out.push(texts[i].clone());
        assert(out.deep_view() == before.push(all[i as int]));
        assert(start + all.take(i + 1) == (start + all.take(i as int)).push(all[i as int]));
        i += 1;
    }
    assert(all.take(all.len() as int) == all);
}

fn copy_env(env: &Option<Environment>) -> (r: Environment)
    ensures
        r.deep_view() == env_or_empty(*env),
{
    let mut r: Environment = Vec::new();
    if let Some(list) = env {
        let ghost all = list.deep_view();
        let mut i: usize = 0;
        assert(all.take(0) == r.deep_view());
        while i < list.len()
            invariant
                i <= list.len(),
                all == list.deep_view(),
                r.deep_view() == all.take(i as int),
            decreases list.len() - i,
        {
            let ghost before = r.deep_view();
            r.push((list[i].0.clone(), list[i].1.clone()));
            assert(r.deep_view() == before.push(all[i as int]));
            assert(all.take(i + 1) == all.take(i as int).push(all[i as int]));
            i += 1;
        }
        assert(all.take(all.len() as int) == all);
    }
    assert(r.deep_view() == env_or_empty(*env));
    r
}

/// The command that runs a package: the runner's own arguments, the package, the arguments that
/// the registry declares, and those of the user.
pub open spec fn package_command(
    program: Seq<char>,
    runner_args: Seq<Seq<char>>,
    package: Seq<char>,
    default_args: Option<Vec<String>>,
    env: Option<Environment>,
    user_args: Seq<Seq<char>>,
) -> CommandView {
    CommandView {
        program,
        args: runner_args.push(package) + texts_or_empty(default_args) + user_args,
        env: env_or_empty(env),
        current_dir: None,
    }
}

/// The arguments with which a tool runs an npm package.
pub open spec fn npm_runner_args(runner: PackageRunner) -> Seq<Seq<char>> {
    match runner {
        PackageRunner::Npm => seq!["exec"@, "--"@],
        PackageRunner::Deno => seq!["x"@, "--allow-all"@, "--minimum-dependency-age"@, "0"@],
        PackageRunner::Uvx => Seq::empty(),
    }
}

fn package_command_spec(
    program: &str,
    runner_args: Vec<String>,
    package: &str,
    default_args: &Option<Vec<String>>,
    env: &Option<Environment>,
    user_args: &Vec<String>,
) -> (r: CommandSpec)
    ensures
        r@ == package_command(
            program@,
            runner_args.deep_view(),
            package@,
            *default_args,
            *env,
            user_args.deep_view(),
        ),
{
    let ghost lead = runner_args.deep_view();
    let mut args = runner_args;
    args.push(package.to_owned());
    assert(args.deep_view() == lead.push(package@));
    if let Some(defaults) = default_args {
        push_texts(&mut args, defaults);
    }
    assert(args.deep_view() == lead.push(package@) + texts_or_empty(*default_args));
    push_texts(&mut args, user_args);
    CommandSpec { program: program.to_owned(), args, env: copy_env(env), current_dir: None }
}

/// Builds the command that runs an npm package.
pub fn npm_command_spec(
    runner: PackageRunner,
    package: &str,
    default_args: &Option<Vec<String>>,
    env: &Option<Environment>,
    user_args: &Vec<String>,
) -> (r: CommandSpec)
    requires
        runner != PackageRunner::Uvx,
    ensures
        r@ == package_command(
            runner.program_name(),
            npm_runner_args(runner),
            package@,
            *default_args,
            *env,
            user_args.deep_view(),
        ),
{
    let mut lead: Vec<String> = Vec::new();
    match runner {
        PackageRunner::Npm => {
            lead.push("exec".to_owned());
            lead.push("--".to_owned());
        },
        PackageRunner::Deno => {
            lead.push("x".to_owned());
            lead.push("--allow-all".to_owned());
            lead.push("--minimum-dependency-age".to_owned());
            lead.push("0".to_owned());
        },
        PackageRunner::Uvx => {},
    }
    assert(lead.deep_view() == npm_runner_args(runner));
    package_command_spec(runner.program(), lead, package, default_args, env, user_args)
}

/// Builds the command that runs a Python package.
pub fn uvx_command_spec(distribution: &UvxDistribution, user_args: &Vec<String>) -> (r: CommandSpec)
    ensures
        r@ == package_command(
            "uvx"@,
            Seq::empty(),
            distribution.package@,
            distribution.args,
            distribution.env,
            user_args.deep_view(),
        ),
{
    let lead: Vec<String> = Vec::new();
    assert(lead.deep_view() == Seq::<Seq<char>>::empty());
    package_command_spec(
        "uvx",
        lead,
        distribution.package.as_str(),
        &distribution.args,
        &distribution.env,
        user_args,
    )
}

/// Builds the command that runs a cached binary, in the directory of its payload.
pub fn binary_command_spec(
    cached: &CachedBinary,
    target: &BinaryTarget,
    user_args: &Vec<String>,
) -> (r: CommandSpec)
    ensures
        r@ == (CommandView {
            program: cached.executable_path@,
            args: texts_or_empty(target.args) + user_args.deep_view(),
            env: env_or_empty(target.env),
            current_dir: Some(cached.extracted_dir@),
        }),
{
    let mut args: Vec<String> = Vec::new();
    assert(args.deep_view() == Seq::<Seq<char>>::empty());
    if let Some(defaults) = &target.args {
        push_texts(&mut args, defaults);
    }
    assert(args.deep_view() == texts_or_empty(target.args));
    push_texts(&mut args, user_args);
    CommandSpec {
        program: cached.executable_path.clone(),
        args,
        env: copy_env(&target.env),
        current_dir: Some(cached.extracted_dir.clone()),
    }
}

/// How an agent is started.
#[derive(Debug)]
pub enum LaunchPlan<'a> {
    /// The archive has to be in the cache first; see [`binary_command_spec`].
    Binary { platform: Platform, target: &'a BinaryTarget },
    /// The command of a package, ready to start.
    Package(CommandSpec),
}

/// The failure of an agent that cannot be run here.
pub open spec fn not_runnable(agent_id: Seq<char>) -> FailureView {
    failure::failure("agent \""@ + agent_id + "\" does not have a runnable distribution"@)
}

/// Plans how `agent` is started with the arguments of the user.
pub fn plan_launch<'a>(
    agent: &'a RegistryAgent,
    platform: Platform,
    npm: Result<bool, Failure>,
    user_args: &Vec<String>,
) -> (r: Result<LaunchPlan<'a>, Failure>)
    ensures
        match (resolved(*agent, platform, npm_view(npm)), r) {
            (Err(e), Err(got)) => got@ == e,
            (Ok(None), Err(got)) => got@ == not_runnable(agent.id@),
            (
                Ok(Some(ResolvedDistribution::Binary { platform: p, target: t })),
                Ok(LaunchPlan::Binary { platform: q, target: u }),
            ) => p == q && *t == *u,
            (
                Ok(Some(ResolvedDistribution::Npm { distribution, runner })),
                Ok(LaunchPlan::Package(spec)),
            ) => spec@ == package_command(
                runner.program_name(),
                npm_runner_args(runner),
                distribution.package@,
                distribution.args,
                distribution.env,
                user_args.deep_view(),
            ),
            (
                Ok(Some(ResolvedDistribution::Uvx { distribution })),
                Ok(LaunchPlan::Package(spec)),
            ) => spec@ == package_command(
                "uvx"@,
                Seq::empty(),
                distribution.package@,
                distribution.args,
                distribution.env,
                user_args.deep_view(),
            ),
            _ => false,
        },
{
    match resolve_distribution(agent, platform, npm) {
        Err(e) => Err(e),
        Ok(None) => Err(
            Failure::new(
                "agent \"".to_owned().concat(agent.id.as_str()).concat(
                    "\" does not have a runnable distribution",
                ),
            ),
        ),
        Ok(Some(ResolvedDistribution::Binary { platform, target })) => Ok(
            LaunchPlan::Binary { platform, target },
        ),
        Ok(Some(ResolvedDistribution::Npm { distribution, runner })) => Ok(
            LaunchPlan::Package(
                npm_command_spec(
                    runner,
                    distribution.package.as_str(),
                    &distribution.args,
                    &distribution.env,
                    user_args,
                ),
            ),
        ),
        Ok(Some(ResolvedDistribution::Uvx { distribution })) => Ok(
            LaunchPlan::Package(uvx_command_spec(distribution, user_args)),
        ),
    }
}

/// The arguments of the user come last in every command, in their order.
pub proof fn law_user_arguments_come_last(
    program: Seq<char>,
    runner_args: Seq<Seq<char>>,
    package: Seq<char>,
    default_args: Option<Vec<String>>,
    env: Option<Environment>,
    user_args: Seq<Seq<char>>,
)
    ensures
        user_args.is_suffix_of(
            package_command(program, runner_args, package, default_args, env, user_args).args,
        ),
{
    let args = package_command(program, runner_args, package, default_args, env, user_args).args;
    assert(args.skip(args.len() - user_args.len()) == user_args);
}

/// A distribution is used only where those before it in rank cannot be: the archive for this very
/// platform, then the npm package, with npm where it is there and with Deno where it is not, then
/// the uvx package. A failure is that of looking for npm, and comes only where npm was looked for.
pub proof fn law_distributions_have_their_rank(
    agent: RegistryAgent,
    platform: Platform,
    npm: Result<bool, FailureView>,
)
    ensures
        ({
            let d = agent.distribution;
            let archive: Option<BinaryTarget> = match (d.binary, platform) {
                (None, _) => None,
                (Some(b), Platform::DarwinAarch64) => b.darwin_aarch64,
                (Some(b), Platform::DarwinX86_64) => b.darwin_x86_64,
                (Some(b), Platform::LinuxAarch64) => b.linux_aarch64,
                (Some(b), Platform::LinuxX86_64) => b.linux_x86_64,
                (Some(b), Platform::WindowsAarch64) => b.windows_aarch64,
                (Some(b), Platform::WindowsX86_64) => b.windows_x86_64,
            };
            match resolved(agent, platform, npm) {
                Err(e) => archive is None && d.npx is Some && npm == Err::<bool, FailureView>(e),
                Ok(None) => archive is None && d.npx is None && d.uvx is None,
                Ok(Some(ResolvedDistribution::Binary { platform: p, target })) => p == platform
                    && archive == Some(*target),
                Ok(Some(ResolvedDistribution::Npm { distribution, runner })) => {
                    &&& archive is None
                    &&& d.npx == Some(*distribution)
                    &&& npm is Ok
                    &&& npm->Ok_0 ==> runner == PackageRunner::Npm
                    &&& !npm->Ok_0 ==> runner == PackageRunner::Deno
                },
                Ok(Some(ResolvedDistribution::Uvx { distribution })) => archive is None
                    && d.npx is None && d.uvx == Some(*distribution),
            }
        }),
{
}

/// A package is started with what its runner asks for, then the package, then the arguments of the
/// registry, then those of the user, each once and in order; its environment is that of the
/// registry, and it starts where it is called.
pub proof fn law_package_command_holds_everything_in_turn(
    program: Seq<char>,
    runner_args: Seq<Seq<char>>,
    package: Seq<char>,
    default_args: Vec<String>,
    env: Environment,
    user_args: Seq<Seq<char>>,
)
    ensures
        ({
            let c = package_command(
                program,
                runner_args,
                package,
                Some(default_args),
                Some(env),
                user_args,
            );
            let n = runner_args.len() as int;
            let m = default_args@.len() as int;
            &&& c.program == program
            &&& c.args.len() == n + 1 + m + user_args.len()
            &&& c.args.take(n) == runner_args
            &&& c.args[n] == package
            &&& forall|i: int| 0 <= i < m ==> c.args[n + 1 + i] == (#[trigger] default_args@[i])@
            &&& c.args.skip(n + 1 + m) == user_args
            &&& c.env.len() == env.deep_view().len()
            &&& c.env == env.deep_view()
            &&& c.current_dir is None
        }),
        ({
            let c = package_command(program, runner_args, package, None, None, user_args);
            &&& c.program == program
            &&& c.args.len() == runner_args.len() + 1 + user_args.len()
            &&& c.args.take(runner_args.len() as int) == runner_args
            &&& c.args[runner_args.len() as int] == package
            &&& c.args.skip(runner_args.len() as int + 1) == user_args
            &&& c.env.len() == 0
            &&& c.current_dir is None
        }),
{
    let c = package_command(
        program,
        runner_args,
        package,
        Some(default_args),
        Some(env),
        user_args,
    );
    let n = runner_args.len() as int;
    let m = default_args@.len() as int;
    assert(default_args.deep_view().len() == m);
    assert(c.args.take(n) == runner_args);
    assert(c.args.skip(n + 1 + m) == user_args);
    assert forall|i: int| 0 <= i < m implies c.args[n + 1 + i] == (#[trigger] default_args@[i])@ by {
        assert(default_args.deep_view()[i] == default_args@[i]@);
    }
    let bare = package_command(program, runner_args, package, None, None, user_args);
    assert(bare.args.take(n) == runner_args);
    assert(bare.args.skip(n + 1) == user_args);
}

/// npm is told to execute the package, and that no option of its own follows; Deno is told to
/// execute it with all permissions and whatever its age. Each tool is called by its own name.
pub proof fn law_runners_are_called_their_own_way()
    ensures
        PackageRunner::Npm.program_name() == "npm"@,
        PackageRunner::Deno.program_name() == "deno"@,
        PackageRunner::Uvx.program_name() == "uvx"@,
        npm_runner_args(PackageRunner::Npm).first() == "exec"@,
        npm_runner_args(PackageRunner::Npm).last() == "--"@,
        npm_runner_args(PackageRunner::Npm).len() == 2,
        npm_runner_args(PackageRunner::Deno).first() == "x"@,
        npm_runner_args(PackageRunner::Deno).contains("--allow-all"@),
        npm_runner_args(PackageRunner::Deno).skip(2) == seq!["--minimum-dependency-age"@, "0"@],
        npm_runner_args(PackageRunner::Deno).len() == 4,
{
    let deno = npm_runner_args(PackageRunner::Deno);
    assert(deno[1] == "--allow-all"@);
    assert(deno.skip(2) =~= seq!["--minimum-dependency-age"@, "0"@]);
}

/// Two commands with the same view run the same program with the same arguments in the same
/// environment and directory.
pub proof fn law_command_views_hold_every_field(a: CommandSpec, b: CommandSpec)
    requires
        a@ == b@,
    ensures
        a.program@ == b.program@,
        a.args@.len() == b.args@.len(),
        forall|i: int| 0 <= i < a.args@.len() ==> (#[trigger] a.args@[i])@ == b.args@[i]@,
        a.env.deep_view() == b.env.deep_view(),
        a.current_dir is Some == b.current_dir is Some,
        a.current_dir is Some ==> a.current_dir->Some_0@ == b.current_dir->Some_0@,
{
    assert(a.args.deep_view().len() == a.args@.len());
    assert(b.args.deep_view().len() == b.args@.len());
    assert forall|i: int| 0 <= i < a.args@.len() implies (#[trigger] a.args@[i])@ == b.args@[i]@ by {
        assert(a.args.deep_view()[i] == a.args@[i]@);
        assert(b.args.deep_view()[i] == b.args@[i]@);
    }
}

/// npm runs npm packages where it is there, and Deno where it is not; each runner is installed under
/// the name of its maker's tool.
pub proof fn law_npm_is_preferred(available: bool, runner: PackageRunner, r: PackageRunner, name: &str)
    requires
        call_ensures(npm_package_runner, (available,), r),
        call_ensures(PackageRunner::install_name, (runner,), name),
    ensures
        r is Npm <==> available,
        r is Deno <==> !available,
        runner is Npm ==> name@ == "npm"@,
        runner is Deno ==> name@ == "deno"@,
        runner is Uvx ==> name@ == "uv"@,
{
}

/// The executable of an archive is run where it was unpacked, with the arguments of the archive
/// before those of the user, and in the environment of the archive.
pub proof fn law_executables_are_run_where_they_lie(
    cached: &CachedBinary,
    target: &BinaryTarget,
    user_args: &Vec<String>,
    r: CommandSpec,
)
    requires
        call_ensures(binary_command_spec, (cached, target, user_args), r),
    ensures
        r@.program == cached.executable_path@,
        r@.current_dir == Some(cached.extracted_dir@),
        r@.env == env_or_empty(target.env),
        user_args.deep_view().is_suffix_of(r@.args),
        texts_or_empty(target.args).is_prefix_of(r@.args),
        r@.args.len() == texts_or_empty(target.args).len() + user_args.len(),
{
    let own = texts_or_empty(target.args);
    let users = user_args.deep_view();
    assert(r@.args.take(own.len() as int) =~= own);
    assert(r@.args.skip(r@.args.len() - users.len()) =~= users);
}

/// An agent with an archive for the platform is run from it; one with an npm package by npm or Deno;
/// one with a Python package by uvx. The user's arguments come last, and an agent without any of
/// these is not run.
pub proof fn law_launches_follow_the_distribution(
    agent: &RegistryAgent,
    platform: Platform,
    npm: Result<bool, Failure>,
    user_args: &Vec<String>,
    r: Result<LaunchPlan, Failure>,
)
    requires
        call_ensures(plan_launch, (agent, platform, npm, user_args), r),
    ensures
        ({
            let choice = resolved(*agent, platform, npm_view(npm));
            &&& r is Ok <==> choice is Ok && choice->Ok_0 is Some
            &&& r is Ok && r->Ok_0 is Binary <==> choice is Ok && choice->Ok_0 is Some
                && choice->Ok_0->Some_0 is Binary
            &&& r is Ok && r->Ok_0 is Package ==> user_args.deep_view().is_suffix_of(
                r->Ok_0->Package_0@.args,
            )
            &&& r is Ok && choice->Ok_0->Some_0 is Uvx ==> r->Ok_0->Package_0@.program == "uvx"@
            &&& r is Ok && choice->Ok_0->Some_0 is Npm ==> r->Ok_0->Package_0@.program
                == choice->Ok_0->Some_0->Npm_runner.program_name()
        }),
{
    if r is Ok && r->Ok_0 is Package {
        let all = r->Ok_0->Package_0@.args;
        let users = user_args.deep_view();
        assert(all.skip(all.len() - users.len()) =~= users);
    }
}

} // verus!
