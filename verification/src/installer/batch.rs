//! Operations on several agents at once: they end in any order, and are told of in the order in
//! which they were asked for.

use vstd::prelude::*;
use crate::failure;
use crate::failure::Failure;
use crate::text::same;

verus! {

/// What became of the operation on one agent.
#[derive(Debug)]
pub struct Finished<T> {
    pub id: String,
    pub result: Result<T, Failure>,
}

/// What became of an operation that panicked.
pub fn panicked<T>(id: &str, words: &str) -> (r: Finished<T>)
    ensures
        r.id@ == id@,
        r.result is Err,
        r.result->Err_0@ == failure::failure(
            "operation for agent \""@ + id@ + "\" panicked: "@ + words@,
        ),
{
    Finished {
        id: id.to_owned(),
        result: Err(
            Failure::new(
                "operation for agent \"".to_owned().concat(id).concat("\" panicked: ").concat(
                    words,
                ),
            ),
        ),
    }
}

/// Whether `list[at]` is about the agent `id`.
pub open spec fn is_about<T>(list: Seq<Finished<T>>, id: Seq<char>, at: int) -> bool {
    0 <= at < list.len() && list[at].id@ == id
}

/// Whether there is a result about the agent `id`.
pub open spec fn has_result<T>(list: Seq<Finished<T>>, id: Seq<char>) -> bool {
    exists|at: int| is_about(list, id, at)
}

/// Whether each of `ids`, which are all different, has one result among `done`.
pub open spec fn one_each<T>(ids: Seq<Seq<char>>, done: Seq<Finished<T>>) -> bool {
    &&& ids.no_duplicates()
    &&& forall|i: int| 0 <= i < ids.len() ==> has_result(done, #[trigger] ids[i])
    &&& forall|i: int, j: int|
        0 <= i < j < done.len() ==> (#[trigger] done[i]).id@ != (#[trigger] done[j]).id@
}

/// Puts the results in the order in which they were asked for.
pub fn in_request_order<T>(ids: &Vec<String>, done: Vec<Finished<T>>) -> (r: Vec<Finished<T>>)
    requires
        one_each(ids.deep_view(), done@),
    ensures
        r.len() == ids.len(),
        forall|i: int|
            0 <= i < ids.len() ==> (#[trigger] r@[i]).id@ == ids.deep_view()[i] && done@.contains(
                r@[i],
            ),
{
    let ghost asked = ids.deep_view();
    let ghost all = done@;
    let mut rest = done;
    let mut r: Vec<Finished<T>> = Vec::new();
    let mut i: usize = 0;
    while i < ids.len()
        invariant
            i <= ids.len(),
            r.len() == i,
            asked == ids.deep_view(),
            asked.no_duplicates(),
            forall|k: int| i <= k < asked.len() ==> has_result(rest@, #[trigger] asked[k]),
            forall|j: int| 0 <= j < rest.len() ==> all.contains(#[trigger] rest@[j]),
            forall|k: int|
                0 <= k < i ==> (#[trigger] r@[k]).id@ == asked[k] && all.contains(r@[k]),
        decreases ids.len() - i,
    {
        let ghost before = rest@;
        assert(has_result(rest@, asked[i as int]));
        let ghost want = choose|j: int| is_about(rest@, asked[i as int], j);
        assert(is_about(rest@, asked[i as int], want));
        let mut j: usize = 0;
        while !same(rest[j].id.as_str(), ids[i].as_str())
            invariant
                i < ids.len(),
                asked == ids.deep_view(),
                rest@ == before,
                j <= want < rest.len(),
                is_about(before, asked[i as int], want),
            decreases rest.len() - j,
        {
            assert(asked[i as int] == ids@[i as int]@);
            j += 1;
        }
        assert(asked[i as int] == ids@[i as int]@);
        let found = rest.remove(j);
        assert(all.contains(before[j as int]));
        proof {
            assert forall|k: int| i < k < asked.len() implies has_result(
                rest@,
                #[trigger] asked[k],
            ) by {
                assert(has_result(before, asked[k]));
                let m = choose|m: int| is_about(before, asked[k], m);
                assert(is_about(before, asked[k], m));
                assert(asked[k] != asked[i as int]);
                assert(m != j);
                let n = if m < j {
                    m
                } else {
                    m - 1
                };
                assert(rest@[n] == before[m]);
                assert(is_about(rest@, asked[k], n));
            }
            assert forall|m: int| 0 <= m < rest.len() implies all.contains(#[trigger] rest@[m]) by {
                let n = if m < j {
                    m
                } else {
                    m + 1
                };
                assert(rest@[m] == before[n]);
            }
        }
        r.push(found);
        i += 1;
    }
    r
}

/// Results come in the order in which they were asked for, one for each id, and are those that came
/// in; an operation that panicked is reported as a failure of its own agent.
pub proof fn law_results_come_in_the_order_of_the_ids<T>(
    ids: &Vec<String>,
    done: Vec<Finished<T>>,
    r: Vec<Finished<T>>,
    i: int,
    k: int,
)
    requires
        one_each(ids.deep_view(), done@),
        call_ensures(in_request_order::<T>, (ids, done), r),
    ensures
        r.len() == ids.len(),
        0 <= i < ids.len() ==> r@[i].id@ == ids@[i]@,
        0 <= i < ids.len() && 0 <= k < done.len() && done@[k].id@ == ids@[i]@ ==> r@[i] == done@[k],
{
    if 0 <= i < ids.len() {
        assert(ids.deep_view()[i] == ids@[i]@);
        assert(r@[i].id@ == ids.deep_view()[i]);
        if 0 <= k < done.len() && done@[k].id@ == ids@[i]@ {
            assert(done@.contains(r@[i]));
            let j = choose|j: int| 0 <= j < done@.len() && done@[j] == r@[i];
            assert(done@[j].id@ == done@[k].id@);
            if j < k {
                assert(done@[j].id@ != done@[k].id@);
            } else if k < j {
                assert(done@[k].id@ != done@[j].id@);
            }
        }
    }
}

} // verus!
