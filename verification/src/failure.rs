//! The failure that the library's operations report.

use vstd::prelude::*;

verus! {

/// A failed operation: what was attempted, and what lies beneath it.
#[derive(Debug, Clone)]
pub struct Failure {
    /// What went wrong, in the words of the outermost operation.
    pub message: String,
    /// The messages of the failures beneath, outermost first.
    pub causes: Vec<String>,
}

/// What a [`Failure`] says.
#[verifier::ext_equal]
pub struct FailureView {
    pub message: Seq<char>,
    pub causes: Seq<Seq<char>>,
}

impl View for Failure {
    type V = FailureView;

    open spec fn view(&self) -> FailureView {
        FailureView { message: self.message@, causes: self.causes.deep_view() }
    }
}

/// A failure with nothing beneath it.
pub open spec fn failure(message: Seq<char>) -> FailureView {
    FailureView { message, causes: Seq::empty() }
}

impl FailureView {
    /// This failure, reported by an operation that puts its own message above it.
    pub open spec fn within(self, message: Seq<char>) -> FailureView {
        FailureView { message, causes: seq![self.message] + self.causes }
    }

    /// All messages, outermost first, separated by a colon and a blank.
    pub open spec fn chain(self) -> Seq<char> {
        self.message + chained(self.causes)
    }
}

/// The messages of `causes`, each led by a colon and a blank.
pub open spec fn chained(causes: Seq<Seq<char>>) -> Seq<char>
    decreases causes.len(),
{
    if causes.len() == 0 {
        Seq::empty()
    } else {
        chained(causes.drop_last()) + ": "@ + causes.last()
    }
}

impl Failure {
    /// A failure with nothing beneath it.
    pub fn new(message: String) -> (r: Failure)
        ensures
            r@ == failure(message@),
    {
        let r = Failure { message, causes: Vec::new() };
        assert(r.causes.deep_view() == Seq::<Seq<char>>::empty());
        r
    }

    /// Puts `message` above this failure.
    pub fn within(self, message: String) -> (r: Failure)
        ensures
            r@ == self@.within(message@),
    {
        let ghost before = self@;
        let mut causes = self.causes;
        let ghost tail = causes@;
        causes.insert(0, self.message);
        let r = Failure { message, causes };
        assert(r.causes.deep_view() == seq![before.message] + before.causes);
        r
    }

    /// All messages on one line, outermost first.
    pub fn chain(&self) -> (r: String)
        ensures
            r@ == self@.chain(),
    {
        let mut r = self.message.clone();
        let ghost causes = self.causes.deep_view();
        let mut i: usize = 0;
        assert(causes.take(0) == Seq::<Seq<char>>::empty());
        assert(r@ == self.message@ + chained(causes.take(0)));
        while i < self.causes.len()
            invariant
                i <= self.causes.len(),
                causes == self.causes.deep_view(),
                r@ == self.message@ + chained(causes.take(i as int)),
            decreases self.causes.len() - i,
        {
            r.append(": ");
            r.append(self.causes[i].as_str());
            proof {
                let next = causes.take(i + 1);
                assert(next.drop_last() == causes.take(i as int));
                assert(next.last() == self.causes@[i as int]@);
                assert(r@ == self.message@ + (chained(causes.take(i as int)) + ": "@ + next.last()));
            }
            i += 1;
        }
        assert(causes.take(causes.len() as int) == causes);
        r
    }
}

proof fn lemma_chained_first(first: Seq<char>, rest: Seq<Seq<char>>)
    ensures
        chained(seq![first] + rest) == ": "@ + first + chained(rest),
    decreases rest.len(),
{
    let all = seq![first] + rest;
    if rest.len() == 0 {
        assert(all.drop_last() =~= Seq::<Seq<char>>::empty());
        assert(all.last() == first);
        assert(chained(all.drop_last()) =~= Seq::<char>::empty());
        assert(chained(all) =~= ": "@ + first + chained(rest));
    } else {
        lemma_chained_first(first, rest.drop_last());
        assert(all.drop_last() =~= seq![first] + rest.drop_last());
        assert(all.last() == rest.last());
        assert(chained(all) =~= ": "@ + first + chained(rest));
    }
}

/// A failure is told from the outside in: what it happened within comes first, then a colon, then
/// what was told before.
pub proof fn law_failures_are_told_from_the_outside_in(e: FailureView, message: Seq<char>)
    ensures
        failure(message).chain() == message,
        failure(message).message == message,
        e.within(message).message == message,
        e.within(message).chain() == message + ": "@ + e.chain(),
{
    assert(failure(message).chain() =~= message);
    lemma_chained_first(e.message, e.causes);
    assert(e.within(message).chain() =~= message + ": "@ + e.chain());
}

/// Failures with the same view say the same.
pub proof fn law_failure_views_hold_every_message(a: Failure, b: Failure)
    requires
        a@ == b@,
    ensures
        a.message@ == b.message@,
        a.causes@.len() == b.causes@.len(),
        forall|i: int| 0 <= i < a.causes@.len() ==> (#[trigger] a.causes@[i])@ == b.causes@[i]@,
{
    assert(a.causes.deep_view().len() == a.causes@.len());
    assert(b.causes.deep_view().len() == b.causes@.len());
    assert forall|i: int| 0 <= i < a.causes@.len() implies (#[trigger] a.causes@[i])@
        == b.causes@[i]@ by {
        assert(a.causes.deep_view()[i] == a.causes@[i]@);
        assert(b.causes.deep_view()[i] == b.causes@[i]@);
    }
}

} // verus!
