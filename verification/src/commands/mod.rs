//! What the command line prints, and how it ends.

use vstd::prelude::*;
use crate::failure::{Failure, FailureView};

pub mod agents;
pub mod cache;
pub mod environment;
pub mod list;
pub mod server;

verus! {

/// How the command line ends.
#[derive(Debug, Clone, Copy, PartialEq, Eq, Structural)]
pub enum CliExit {
    Success,
    Code(i32),
}

/// Ends as the process did that was run: with its exit code, or with 1 if a signal ended it.
pub fn exit_from_status(code: Option<i32>, success: bool) -> (r: CliExit)
    ensures
        r == match code {
            Some(0) => CliExit::Success,
            Some(n) => CliExit::Code(n),
            None => if success {
                CliExit::Success
            } else {
                CliExit::Code(1)
            },
        },
{
    match code {
        Some(n) => {
            if n != 0 {
                return CliExit::Code(n);
            }
            CliExit::Success
        },
        None => {
            if !success {
                return CliExit::Code(1);
            }
            CliExit::Success
        },
    }
}

/// What is done with an agent.
#[derive(Debug, Clone, Copy, PartialEq, Eq, Structural)]
pub enum AgentCommand {
    Install,
    Run,
    Serve,
}

impl AgentCommand {
    /// The verb.
    pub open spec fn verb(self) -> Seq<char> {
        match self {
            AgentCommand::Install => "install"@,
            AgentCommand::Run => "run"@,
            AgentCommand::Serve => "serve"@,
        }
    }

    /// The failure of a command.
    pub open spec fn failure(self, agent_id: Seq<char>, cause: FailureView) -> FailureView {
        cause.within("failed to "@ + self.verb() + " agent \""@ + agent_id + "\""@)
    }

    /// Reports that a command failed.
    pub fn report(self, agent_id: &str, cause: Failure) -> (r: Failure)
        ensures
            r@ == self.failure(agent_id@, cause@),
    {
        let verb = match self {
            AgentCommand::Install => "install",
            AgentCommand::Run => "run",
            AgentCommand::Serve => "serve",
        };
        cause.within(
            "failed to ".to_owned().concat(verb).concat(" agent \"").concat(agent_id).concat("\""),
        )
    }
}

/// Rows of text, each ended by a newline.
pub open spec fn lines(rows: Seq<Seq<char>>) -> Seq<char>
    decreases rows.len(),
{
    if rows.len() == 0 {
        Seq::empty()
    } else {
        lines(rows.drop_last()) + rows.last() + "\n"@
    }
}

/// Puts rows of text together, each ended by a newline.
pub fn join_lines(rows: &Vec<String>) -> (r: String)
    ensures
        r@ == lines(rows.deep_view()),
{
    let mut r = String::new();
    let ghost all = rows.deep_view();
    let mut i: usize = 0;
    assert(all.take(0) =~= Seq::<Seq<char>>::empty());
    while i < rows.len()
        invariant
            i <= rows.len(),
            all == rows.deep_view(),
            r@ == lines(all.take(i as int)),
        decreases rows.len() - i,
    {
        r.append(rows[i].as_str());
        r.append("\n");
        proof {
            let next = all.take(i + 1);
            assert(next.drop_last() =~= all.take(i as int));
            assert(next.last() == rows@[i as int]@);
        }
        i += 1;
    }
    assert(all.take(all.len() as int) =~= all);
    r
}

/// A text with blanks behind it, so that it is at least `width` characters wide.
pub open spec fn padded(s: Seq<char>, width: nat) -> Seq<char> {
    s + Seq::new(
        if s.len() < width {
            (width - s.len()) as nat
        } else {
            0
        },
        |i: int| ' ',
    )
}

/// Puts blanks behind a text until it is at least `width` characters wide.
pub fn pad_right(s: &str, width: usize) -> (r: String)
    ensures
        r@ == padded(s@, width as nat),
{
    let mut r = s.to_owned();
    let mut n: usize = s.unicode_len();
    let ghost start = n as int;
    while n < width
        invariant
            start <= n,
            start == s@.len(),
            n <= width || n == start,
            r@ == s@ + Seq::new((n - start) as nat, |i: int| ' '),
        decreases width - n,
    {
        r.push(' ');
        n += 1;
        assert(r@ =~= s@ + Seq::new((n - start) as nat, |i: int| ' '));
    }
    assert(r@ =~= padded(s@, width as nat));
    r
}

/// Rows are printed one after the other, each with the end of its line.
pub proof fn law_rows_are_printed_in_turn(before: Seq<Seq<char>>, after: Seq<Seq<char>>, row: Seq<char>)
    ensures
        lines(before + after) == lines(before) + lines(after),
        lines(seq![row]) == row.push('\n'),
        lines(Seq::empty()) == Seq::<char>::empty(),
    decreases after.len(),
{
    reveal_strlit("\n");
    let single = seq![row];
    assert(single.drop_last().len() == 0);
    assert(lines(single.drop_last()) =~= Seq::<char>::empty());
    assert(lines(single) =~= row.push('\n'));
    if after.len() == 0 {
        assert(before + after =~= before);
        assert(lines(before + after) =~= lines(before) + lines(after));
    } else {
        law_rows_are_printed_in_turn(before, after.drop_last(), row);
        let all = before + after;
        assert(all.drop_last() =~= before + after.drop_last());
        assert(all.last() == after.last());
        assert(lines(all) =~= lines(before) + lines(after));
    }
}

/// A column begins with its text and is filled up with blanks; a text that is too long is not cut.
pub proof fn law_columns_are_filled_up(s: Seq<char>, width: nat, i: int)
    ensures
        padded(s, width).len() == if s.len() < width {
            width
        } else {
            s.len()
        },
        padded(s, width).take(s.len() as int) == s,
        s.len() <= i < padded(s, width).len() ==> padded(s, width)[i] == ' ',
{
    assert(padded(s, width).take(s.len() as int) =~= s);
}

/// What failed is said of the command and the agent, with its cause behind it.
pub proof fn law_failures_name_the_command(
    a: AgentCommand,
    b: AgentCommand,
    agent_id: Seq<char>,
    cause: FailureView,
)
    ensures
        a.verb() == b.verb() ==> a == b,
        a.failure(agent_id, cause).message == "failed to "@ + a.verb() + " agent \""@ + agent_id
            + "\""@,
        a.failure(agent_id, cause).causes == seq![cause.message] + cause.causes,
{
    reveal_strlit("install");
    reveal_strlit("run");
    reveal_strlit("serve");
    assert("install"@[0] == 'i' && "run"@[0] == 'r' && "serve"@[0] == 's');
}

/// A program that ended well ends this one well; a code of its own is passed on, and one that was
/// ended without a code counts as a failure.
pub proof fn law_programs_pass_on_their_code(code: Option<i32>, success: bool, r: CliExit)
    requires
        call_ensures(exit_from_status, (code, success), r),
    ensures
        r is Success <==> code == Some(0i32) || code is None && success,
        code is Some && code->Some_0 != 0 ==> r == CliExit::Code(code->Some_0),
        code is None && !success ==> r is Code && r->Code_0 != 0,
{
}

} // verus!
