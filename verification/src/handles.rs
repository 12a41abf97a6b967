//! Which serial devices there are to chat over.

use crate::firmware::{error_status, status_not_found};
use vstd::prelude::*;
use vstd::string::*;

verus! {

/// The handles for which the flag is set, in their order.
pub open spec fn flagged<H>(handles: Seq<H>, flags: Seq<bool>) -> Seq<H>
    decreases handles.len(),
{
    if handles.len() == 0 {
        seq![]
    } else if flags[handles.len() - 1] {
        flagged(handles.drop_last(), flags).push(handles.last())
    } else {
        flagged(handles.drop_last(), flags)
    }
}

/// Why a search for serial devices failed.
#[derive(Debug, PartialEq, Eq)]
pub struct SearchError {
    /// The status code that the firmware reported.
    pub status: usize,
    /// What was being done, for the user.
    pub context: String,
}

/// Takes the result of a search for serial devices. That there are none is no
/// error; any other status is reported, together with what was being done.
pub fn find_serial_handles<H>(found: Result<Vec<H>, usize>) -> (handles: Result<
    Vec<H>,
    SearchError,
>)
    ensures
        match found {
            Ok(list) => handles == Ok::<Vec<H>, SearchError>(list),
            Err(status) => if status == error_status(14) {
                handles matches Ok(list) && list@ == Seq::<H>::empty()
            } else {
                &&& handles matches Err(err)
                &&& err.status == status
                &&& err.context@ == "finding serial device handles"@
            },
        },
{
    match found {
        Ok(list) => Ok(list),
        Err(status) => if status == status_not_found() {
            Ok(Vec::new())
        } else {
            Err(SearchError { status, context: "finding serial device handles".to_owned() })
        },
    }
}

/// Retains only those handles on which the protocol can be opened, as the flags
/// say. UEFI is sometimes weird!
pub fn retain_openable<H>(handles: Vec<H>, openable: &Vec<bool>) -> (retained: Vec<H>)
    requires
        handles@.len() == openable@.len(),
    ensures
        retained@ == flagged(handles@, openable@),
{
    let mut handles = handles;
    let ghost all = handles@;
    let n: usize = handles.len();
    let mut kept: usize = 0;
    let mut i: usize = 0;
    proof {
        assert(all.take(0) =~= Seq::<H>::empty());
        assert(handles@ =~= flagged(all.take(0), openable@) + all.skip(0));
    }
    while i < n
        invariant
            i <= n,
            n == all.len(),
            n == openable@.len(),
            kept == flagged(all.take(i as int), openable@).len(),
            kept <= i,
            handles@ == flagged(all.take(i as int), openable@) + all.skip(i as int),
        decreases n - i,
    {
        let ghost front = flagged(all.take(i as int), openable@);
        let ghost before = handles@;
        proof {
            assert(all.take(i + 1).drop_last() =~= all.take(i as int));
            assert(all.take(i + 1).last() == all[i as int]);
            assert(before[kept as int] == all[i as int]);
        }
        if openable[i] {
            kept = kept + 1;
            proof {
                assert(before =~= front.push(all[i as int]) + all.skip(i + 1));
            }
        } else {
            handles.remove(kept);
            proof {
                assert(handles@ =~= front + all.skip(i + 1));
            }
        }
        i = i + 1;
    }
    proof {
        assert(all.take(n as int) =~= all);
        assert(handles@ =~= flagged(all, openable@));
    }
    handles
}

/// Every handle that is retained was there before and can be opened.
pub proof fn law_retained_can_be_opened<H>(handles: Seq<H>, openable: Seq<bool>, k: int)
    requires
        handles.len() <= openable.len(),
        0 <= k < flagged(handles, openable).len(),
    ensures
        exists|i: int|
            0 <= i < handles.len() && #[trigger] openable[i] && handles[i] == flagged(
                handles,
                openable,
            )[k],
    decreases handles.len(),
{
    let front = flagged(handles.drop_last(), openable);
    if k < front.len() {
        law_retained_can_be_opened(handles.drop_last(), openable, k);
        let i = choose|i: int|
            0 <= i < handles.drop_last().len() && #[trigger] openable[i] && handles.drop_last()[i]
                == front[k];
        assert(openable[i] && handles[i] == flagged(handles, openable)[k]);
    } else {
        assert(openable[handles.len() - 1]);
    }
}

/// Every handle that can be opened is retained.
pub proof fn law_openable_are_retained<H>(handles: Seq<H>, openable: Seq<bool>, i: int)
    requires
        handles.len() <= openable.len(),
        0 <= i < handles.len(),
        openable[i],
    ensures
        flagged(handles, openable).contains(handles[i]),
    decreases handles.len(),
{
    let all = flagged(handles, openable);
    let front = flagged(handles.drop_last(), openable);
    if i == handles.len() - 1 {
        assert(all[all.len() - 1] == handles[i]);
    } else {
        law_openable_are_retained(handles.drop_last(), openable, i);
        let k = choose|k: int| 0 <= k < front.len() && front[k] == handles[i];
        assert(all[k] == handles[i]);
    }
}

/// Retaining goes handle by handle, in order: of two lists, one after the other,
/// what is retained of the first comes before what is retained of the second.
pub proof fn law_retaining_keeps_order<H>(
    a: Seq<H>,
    b: Seq<H>,
    openable_a: Seq<bool>,
    openable_b: Seq<bool>,
    handle: H,
)
    requires
        a.len() == openable_a.len(),
        b.len() == openable_b.len(),
    ensures
        flagged(a + b, openable_a + openable_b) == flagged(a, openable_a) + flagged(b, openable_b),
        flagged(seq![handle], seq![true]) == seq![handle],
        flagged(seq![handle], seq![false]) == Seq::<H>::empty(),
    decreases b.len(),
{
    assert(seq![handle].drop_last() =~= Seq::<H>::empty());
    assert(Seq::<H>::empty().push(handle) =~= seq![handle]);
    reveal_with_fuel(flagged, 2);
    let all = openable_a + openable_b;
    if b.len() == 0 {
        assert(a + b =~= a);
        lemma_flags_beyond_do_not_count(a, openable_a, all);
        assert(flagged(a, openable_a) + flagged(b, openable_b) =~= flagged(a, openable_a));
    } else {
        let front = openable_b.drop_last();
        assert((a + b).drop_last() =~= a + b.drop_last());
        law_retaining_keeps_order(a, b.drop_last(), openable_a, front, handle);
        lemma_flags_beyond_do_not_count(a + b.drop_last(), openable_a + front, all);
        lemma_flags_beyond_do_not_count(b.drop_last(), front, openable_b);
        assert(flagged(a + b, all) =~= flagged(a, openable_a) + flagged(b, openable_b));
    }
}

proof fn lemma_flags_beyond_do_not_count<H>(handles: Seq<H>, a: Seq<bool>, b: Seq<bool>)
    requires
        forall|i: int| 0 <= i < handles.len() ==> a[i] == b[i],
    ensures
        flagged(handles, a) == flagged(handles, b),
    decreases handles.len(),
{
    if handles.len() > 0 {
        lemma_flags_beyond_do_not_count(handles.drop_last(), a, b);
    }
}

} // verus!
