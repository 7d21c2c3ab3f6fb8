//! Telling of the tools that agents need, and asking whether they may be installed.

use vstd::prelude::*;
use crate::commands;
use crate::commands::join_lines;
use crate::installer::environment;
use crate::installer::environment::{
    EnvironmentReport, HostFamily, InstallTarget, InstallationPlan, InstallationResult,
    ToolAvailability,
};
use crate::text;
use crate::text::{same, to_ascii_lower, trimmed};

verus! {

/// The row of a tool.
pub open spec fn tool_row(tool: ToolAvailability) -> Seq<char> {
    match tool.path {
        Some(path) => tool.name@ + ": available ("@ + path@ + ")"@,
        None => tool.name@ + ": missing"@,
    }
}

/// The rows of tools, one by one.
pub open spec fn tool_rows(tools: Seq<ToolAvailability>) -> Seq<Seq<char>> {
    tools.map_values(|t: ToolAvailability| tool_row(t))
}

fn push_tools(rows: &mut Vec<String>, tools: &Vec<ToolAvailability>)
    ensures
        final(rows).deep_view() == old(rows).deep_view() + tool_rows(tools@),
{
    let ghost before = rows.deep_view();
    let mut i: usize = 0;
    assert(rows.deep_view() =~= before + tool_rows(tools@).take(0));
    while i < tools.len()
        invariant
            i <= tools.len(),
            rows.deep_view() == before + tool_rows(tools@).take(i as int),
        decreases tools.len() - i,
    {
        let tool = &tools[i];
        let row: String = match &tool.path {
            Some(path) => tool.name.to_owned().concat(": available (").concat(
                path.as_str(),
            ).concat(")"),
            None => tool.name.to_owned().concat(": missing"),
        };
        let ghost was = rows.deep_view();
        rows.push(row);
        i += 1;
        assert(rows.deep_view() =~= was.push(row@));
        assert(rows.deep_view() =~= before + tool_rows(tools@).take(i as int));
    }
    assert(tool_rows(tools@).take(tools@.len() as int) =~= tool_rows(tools@));
}

/// Prints which tools were found.
pub fn write_detection_report(report: &EnvironmentReport) -> (r: String)
    ensures
        r@ == commands::lines(
            seq!["Environment detection results:"@, "JavaScript tools:"@] + tool_rows(report.js@)
                + seq!["Python tools:"@] + tool_rows(report.python@),
        ),
{
    let mut rows: Vec<String> = vec![
        "Environment detection results:".to_owned(),
        "JavaScript tools:".to_owned(),
    ];
    assert(rows.deep_view() =~= seq!["Environment detection results:"@, "JavaScript tools:"@]);
    push_tools(&mut rows, &report.js);
    let ghost was = rows.deep_view();
    rows.push("Python tools:".to_owned());
    assert(rows.deep_view() =~= was + seq!["Python tools:"@]);
    push_tools(&mut rows, &report.python);
    join_lines(&rows)
}

/// The row of a planned installation.
pub open spec fn plan_row(target: InstallTarget, family: HostFamily) -> Seq<char> {
    target.name() + ": "@ + shown_command(target, family)
}

/// The command that installs a tool, as it is shown.
pub open spec fn shown_command(target: InstallTarget, family: HostFamily) -> Seq<char> {
    let (program, args) = environment::official_command(target, family);
    program + environment::spaced(args.drop_last()) + " \""@ + args.last() + "\""@
}

/// The rows of planned installations, one by one.
pub open spec fn plan_rows(targets: Seq<InstallTarget>, family: HostFamily) -> Seq<Seq<char>> {
    targets.map_values(|t: InstallTarget| plan_row(t, family))
}

/// Prints what is going to be installed.
pub fn write_installation_plan(plan: &InstallationPlan, family: HostFamily) -> (r: String)
    ensures
        r@ == commands::lines(
            seq![Seq::empty(), "Planned installation:"@] + plan_rows(plan.targets@, family),
        ),
{
    let mut rows: Vec<String> = vec![String::new(), "Planned installation:".to_owned()];
    let ghost head = seq![Seq::<char>::empty(), "Planned installation:"@];
    assert(rows.deep_view() =~= head);
    let mut i: usize = 0;
    assert(rows.deep_view() =~= head + plan_rows(plan.targets@, family).take(0));
    while i < plan.targets.len()
        invariant
            i <= plan.targets.len(),
            rows.deep_view() == head + plan_rows(plan.targets@, family).take(i as int),
        decreases plan.targets.len() - i,
    {
        let target: InstallTarget = plan.targets[i];
        let row: String = target.label().to_owned().concat(": ").concat(
            target.official_command_display(family).as_str(),
        );
        let ghost was = rows.deep_view();
        rows.push(row);
        i += 1;
        assert(rows.deep_view() =~= was.push(row@));
        assert(rows.deep_view() =~= head + plan_rows(plan.targets@, family).take(i as int));
    }
    assert(plan_rows(plan.targets@, family).take(plan.targets@.len() as int) =~= plan_rows(
        plan.targets@,
        family,
    ));
    join_lines(&rows)
}

/// What an answer means.
#[derive(Debug, Clone, Copy, PartialEq, Eq, Structural)]
pub enum Answer {
    Yes,
    No,
    /// It means nothing: ask again.
    Unclear,
}

/// The meaning of an answer; the end of the input is one too.
pub open spec fn meaning(input: Option<Seq<char>>) -> Answer {
    match input {
        None => Answer::Yes,
        Some(s) => {
            let word = text::ascii_lower(text::trim(s));
            if word.len() == 0 || word == "y"@ || word == "yes"@ {
                Answer::Yes
            } else if word == "n"@ || word == "no"@ {
                Answer::No
            } else {
                Answer::Unclear
            }
        },
    }
}

/// Finds the meaning of an answer.
pub fn judge_answer(input: Option<&str>) -> (r: Answer)
    ensures
        r == meaning(text::text_option(input)),
{
    match input {
        None => Answer::Yes,
        Some(s) => {
            let lower = to_ascii_lower(trimmed(s).as_str());
            let word = lower.as_str();
            if word.is_empty() || same(word, "y") || same(word, "yes") {
                Answer::Yes
            } else if same(word, "n") || same(word, "no") {
                Answer::No
            } else {
                Answer::Unclear
            }
        },
    }
}

/// The question.
pub const QUESTION: &'static str = "Proceed with installation? [Y/n]: ";

/// What is said to an answer that means nothing.
pub const COMPLAINT: &'static str = "Please answer with y or n.\n";

/// What comes of the question when these lines are typed from the one at `at` on: the decision, and
/// what is printed.
pub open spec fn dialogue(inputs: Seq<Seq<char>>, at: int) -> (bool, Seq<char>)
    decreases inputs.len() - at,
{
    if at < 0 || at >= inputs.len() {
        (true, QUESTION@)
    } else {
        match meaning(Some(inputs[at])) {
            Answer::Yes => (true, QUESTION@),
            Answer::No => (false, QUESTION@),
            Answer::Unclear => {
                let rest = dialogue(inputs, at + 1);
                (rest.0, QUESTION@ + COMPLAINT@ + rest.1)
            },
        }
    }
}

/// Asks until the answer is clear or the input ends. Gives the decision, and what is printed.
pub fn prompt_for_installation(inputs: &Vec<String>) -> (r: (bool, String))
    ensures
        r.0 == dialogue(inputs.deep_view(), 0).0,
        r.1@ == dialogue(inputs.deep_view(), 0).1,
{
    let mut output = String::new();
    let mut i: usize = 0;
    let ghost all = inputs.deep_view();
    while i < inputs.len()
        invariant
            i <= inputs.len(),
            all == inputs.deep_view(),
            dialogue(all, 0).0 == dialogue(all, i as int).0,
            dialogue(all, 0).1 == output@ + dialogue(all, i as int).1,
        decreases inputs.len() - i,
    {
        assert(all[i as int] == inputs@[i as int]@);
        output.append(QUESTION);
        match judge_answer(Some(inputs[i].as_str())) {
            Answer::Yes => {
                return (true, output);
            },
            Answer::No => {
                return (false, output);
            },
            Answer::Unclear => {
                let ghost was = output@;
                output.append(COMPLAINT);
                proof {
                    let rest = dialogue(all, i + 1).1;
                    assert(was + (COMPLAINT@ + rest) =~= (was + COMPLAINT@) + rest);
                }
            },
        }
        i += 1;
    }
    output.append(QUESTION);
    (true, output)
}

/// What is printed when the answer is no.
pub fn write_cancelled() -> (r: &'static str)
    ensures
        r@ == "Installation cancelled.\n"@,
{
    "Installation cancelled.\n"
}

/// What is printed when nothing is missing.
pub fn write_nothing_to_install() -> (r: &'static str)
    ensures
        r@ == "\nEnvironment already satisfies the requirements. No installation is needed.\n"@,
{
    "\nEnvironment already satisfies the requirements. No installation is needed.\n"
}

/// What is printed before the installation.
pub fn write_installation_start() -> (r: &'static str)
    ensures
        r@ == "\nStarting installation...\n"@,
{
    "\nStarting installation...\n"
}

/// The rows about one installed tool.
pub open spec fn result_rows(result: InstallationResult) -> Seq<Seq<char>> {
    let found = result.target.name() + " installed and verified at "@ + result.path@;
    if result.on_path {
        seq![found]
    } else {
        seq![
            found,
            "Note: "@ + result.target.name()
                + " was installed outside the current PATH. Open a new shell if the command is not yet recognized."@,
        ]
    }
}

/// The rows about all installed tools.
pub open spec fn all_result_rows(results: Seq<InstallationResult>) -> Seq<Seq<char>>
    decreases results.len(),
{
    if results.len() == 0 {
        Seq::empty()
    } else {
        all_result_rows(results.drop_last()) + result_rows(results.last())
    }
}

/// Prints what was installed.
pub fn write_installation_complete(results: &Vec<InstallationResult>) -> (r: String)
    ensures
        r@ == commands::lines(
            seq![Seq::empty()] + all_result_rows(results@)
                + seq!["Environment installation complete."@],
        ),
{
    let mut rows: Vec<String> = vec![String::new()];
    let ghost head = seq![Seq::<char>::empty()];
    assert(results@.take(0) =~= Seq::<InstallationResult>::empty());
    assert(rows.deep_view() =~= head + all_result_rows(results@.take(0)));
    let mut i: usize = 0;
    while i < results.len()
        invariant
            i <= results.len(),
            rows.deep_view() == head + all_result_rows(results@.take(i as int)),
        decreases results.len() - i,
    {
        let result = &results[i];
        let ghost was = rows.deep_view();
        rows.push(
            result.target.label().to_owned().concat(" installed and verified at ").concat(
                result.path.as_str(),
            ),
        );
        if !result.on_path {
            rows.push(
                "Note: ".to_owned().concat(result.target.program()).concat(
                    " was installed outside the current PATH. Open a new shell if the command is not yet recognized.",
                ),
            );
        }
        assert(rows.deep_view() =~= was + result_rows(*result));
        proof {
            let next = results@.take(i + 1);
            assert(next.drop_last() =~= results@.take(i as int));
            assert(next.last() == *result);
            assert(rows.deep_view() =~= head + all_result_rows(next));
        }
        i += 1;
    }
    assert(results@.take(results@.len() as int) =~= results@);
    let ghost was = rows.deep_view();
    rows.push("Environment installation complete.".to_owned());
    assert(rows.deep_view() =~= was + seq!["Environment installation complete."@]);
    join_lines(&rows)
}

/// A tool is told of by its name: that it is missing, or where it is.
pub proof fn law_tools_are_told_of_by_name(tool: ToolAvailability)
    ensures
        tool.name@.is_prefix_of(tool_row(tool)),
        tool.path is None ==> tool_row(tool) == tool.name@ + ": missing"@,
        tool.path matches Some(path) ==> (": available ("@ + path@ + ")"@).is_suffix_of(
            tool_row(tool),
        ) && tool_row(tool).len() == tool.name@.len() + ": available ("@.len() + path@.len() + 1,
{
    reveal_strlit(")");
    let row = tool_row(tool);
    assert(row.take(tool.name@.len() as int) =~= tool.name@);
    if tool.path is Some {
        let tail = ": available ("@ + tool.path->Some_0@ + ")"@;
        assert(row.skip(row.len() - tail.len()) =~= tail);
    }
}

/// Every tool and every planned toolchain has its row, in turn.
pub proof fn law_rows_come_in_turn(
    tools: Seq<ToolAvailability>,
    targets: Seq<InstallTarget>,
    family: HostFamily,
    i: int,
)
    ensures
        tool_rows(tools).len() == tools.len(),
        0 <= i < tools.len() ==> tool_rows(tools)[i] == tool_row(tools[i]),
        plan_rows(targets, family).len() == targets.len(),
        0 <= i < targets.len() ==> (targets[i].name() + ": "@).is_prefix_of(
            plan_rows(targets, family)[i],
        ),
{
    if 0 <= i < targets.len() {
        let row = plan_rows(targets, family)[i];
        let head = targets[i].name() + ": "@;
        assert(row =~= head + shown_command(targets[i], family));
        assert(row.take(head.len() as int) =~= head);
    }
}

/// An answer is a matter of its letters only, and not of their case nor of the blanks around them.
/// No answer, and an empty one, is taken as consent.
pub proof fn law_answers_are_read_in_any_case(a: Seq<char>, b: Seq<char>)
    ensures
        text::same_letters(text::trim(a), text::trim(b)) ==> meaning(Some(a)) == meaning(Some(b)),
        text::trim(a).len() == 0 ==> meaning(Some(a)) == Answer::Yes,
        meaning(None) == Answer::Yes,
        meaning(Some(a)) == Answer::No <==> text::same_letters(text::trim(a), "n"@)
            || text::same_letters(text::trim(a), "no"@),
        meaning(Some(a)) == Answer::Yes <==> text::trim(a).len() == 0 || text::same_letters(
            text::trim(a),
            "y"@,
        ) || text::same_letters(text::trim(a), "yes"@),
{
    reveal_strlit("y");
    reveal_strlit("yes");
    reveal_strlit("n");
    reveal_strlit("no");
    let word = text::trim(a);
    text::law_lower_case_forgets_case_only(word, text::trim(b));
    text::law_lower_case_changes_capitals_only(word);
    text::law_lower_case_forgets_case_only(word, "y"@);
    text::law_lower_case_forgets_case_only(word, "yes"@);
    text::law_lower_case_forgets_case_only(word, "n"@);
    text::law_lower_case_forgets_case_only(word, "no"@);
    assert(text::ascii_lower("y"@) =~= "y"@);
    assert(text::ascii_lower("yes"@) =~= "yes"@);
    assert(text::ascii_lower("n"@) =~= "n"@);
    assert(text::ascii_lower("no"@) =~= "no"@);
    let low = text::ascii_lower(word);
    assert(low == "y"@ || low == "yes"@ ==> low[0] == 'y');
    assert(low == "n"@ || low == "no"@ ==> low[0] == 'n');
    assert("y"@[0] == 'y' && "yes"@[0] == 'y' && "n"@[0] == 'n' && "no"@[0] == 'n');
}

/// The first clear answer decides, whatever was typed before it and whatever comes after; without
/// any, the answer is yes. The question is put once for every line that was read and once more.
pub proof fn law_the_first_clear_answer_decides(inputs: Seq<Seq<char>>, at: int, clear: int)
    requires
        0 <= at <= clear <= inputs.len(),
        forall|i: int|
            at <= i < clear ==> meaning(Some(#[trigger] inputs[i])) == Answer::Unclear,
        clear < inputs.len() ==> meaning(Some(inputs[clear])) != Answer::Unclear,
    ensures
        dialogue(inputs, at).0 <==> clear == inputs.len() || meaning(Some(inputs[clear]))
            == Answer::Yes,
        dialogue(inputs, at).1.len() == QUESTION@.len() + (clear - at) * (QUESTION@.len()
            + COMPLAINT@.len()),
        QUESTION@.is_prefix_of(dialogue(inputs, at).1),
        QUESTION@.is_suffix_of(dialogue(inputs, at).1),
    decreases clear - at,
{
    let all = dialogue(inputs, at).1;
    let q = QUESTION@;
    let both = QUESTION@.len() + COMPLAINT@.len();
    if at < clear {
        law_the_first_clear_answer_decides(inputs, at + 1, clear);
        let rest = dialogue(inputs, at + 1).1;
        assert(meaning(Some(inputs[at])) == Answer::Unclear);
        assert(all =~= q + COMPLAINT@ + rest);
        assert(all.take(q.len() as int) =~= q);
        assert(rest.skip(rest.len() - q.len()) =~= q);
        assert(all.skip(all.len() - q.len()) =~= rest.skip(rest.len() - q.len()));
        assert((clear - at) * both == both + (clear - (at + 1)) * both) by (nonlinear_arith);
    } else {
        assert(all == q);
        assert((clear - at) * both == 0) by (nonlinear_arith)
            requires
                clear == at,
        ;
        assert(q.take(q.len() as int) =~= q);
        assert(q.skip(q.len() - q.len()) =~= q);
    }
}

/// What was installed is told with its name and its place, and nothing more unless it is off the
/// path; the rows of several come one after the other.
pub proof fn law_results_tell_the_place(
    result: InstallationResult,
    results: Seq<InstallationResult>,
)
    ensures
        result_rows(result).len() == if result.on_path {
            1int
        } else {
            2int
        },
        result.target.name().is_prefix_of(result_rows(result)[0]),
        result.path@.is_suffix_of(result_rows(result)[0]),
        all_result_rows(results.push(result)) == all_result_rows(results) + result_rows(result),
        all_result_rows(Seq::empty()).len() == 0,
{
    let row = result_rows(result)[0];
    let name = result.target.name();
    let path = result.path@;
    assert(row.take(name.len() as int) =~= name);
    assert(row.skip(row.len() - path.len()) =~= path);
    assert(results.push(result).drop_last() =~= results);
}

/// A planned command is shown with its program first and its last argument in quotes.
pub proof fn law_planned_commands_are_shown_as_typed(target: InstallTarget, family: HostFamily)
    ensures
        ({
            let (program, args) = environment::official_command(target, family);
            &&& program.is_prefix_of(shown_command(target, family))
            &&& (" \""@ + args.last() + "\""@).is_suffix_of(shown_command(target, family))
            &&& args.len() == 2 ==> shown_command(target, family) == program + " "@ + args[0]
                + " \""@ + args[1] + "\""@
        }),
{
    let (program, args) = environment::official_command(target, family);
    let all = shown_command(target, family);
    let tail = " \""@ + args.last() + "\""@;
    assert(all.take(program.len() as int) =~= program);
    assert(all.skip(all.len() - tail.len()) =~= tail);
    if args.len() == 2 {
        let first = args.drop_last();
        assert(first.len() == 1 && first.last() == args[0]);
        assert(first.drop_last().len() == 0);
        assert(environment::spaced(first.drop_last()) =~= Seq::<char>::empty());
        assert(environment::spaced(first) =~= " "@ + args[0]);
        assert(all =~= program + " "@ + args[0] + " \""@ + args[1] + "\""@);
    }
}

} // verus!
