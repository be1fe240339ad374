//! The terminator's bookkeeping: turning the raw output of a process
//! enumeration into the list of matched process identifiers, and recording
//! per-process kill results into a `TerminationOutcome`. The signalling
//! itself is a platform side effect performed by the embedding program;
//! everything here is verified, pure bookkeeping around it.

use vstd::prelude::*;
use vstd::string::*;
use crate::digits::{all_digits, digits_val, parse_u32_digits};

verus! {

/// The report of one enforcement action: every process identifier whose
/// command line matched the identity, and for each of them whether the
/// kill signal was accepted. Zero matches is not an error; a failed kill
/// never aborts the batch.
#[derive(Debug, PartialEq, Eq)]
pub struct TerminationOutcome {
    pub matched: Vec<u32>,
    pub killed: Vec<u32>,
    pub failed: Vec<u32>,
}

/// `s` split at every newline. The split of the empty string is one empty
/// line, and every newline ends the current line and opens a new one, so a
/// trailing newline leaves a final empty line.
pub open spec fn split_lines(s: Seq<char>) -> Seq<Seq<char>>
    decreases s.len(),
{
    if s.len() == 0 {
        seq![Seq::<char>::empty()]
    } else if s.last() == '\n' {
        split_lines(s.drop_last()).push(Seq::<char>::empty())
    } else {
        let prev = split_lines(s.drop_last());
        prev.update(prev.len() - 1, prev.last().push(s.last()))
    }
}

/// A line stands for a process identifier when it is a non-empty decimal
/// numeral whose value fits in a `u32`.
pub open spec fn is_pid_line(l: Seq<char>) -> bool {
    l.len() > 0 && all_digits(l) && digits_val(l) <= u32::MAX
}

/// What one line contributes to the identifier list: its value if it
/// stands for a process identifier, nothing otherwise.
pub open spec fn line_pids(l: Seq<char>) -> Seq<u32> {
    if is_pid_line(l) {
        seq![digits_val(l) as u32]
    } else {
        Seq::<u32>::empty()
    }
}

/// The process identifiers named by a sequence of lines, in order.
pub open spec fn pids_of_lines(ls: Seq<Seq<char>>) -> Seq<u32>
    decreases ls.len(),
{
    if ls.len() == 0 {
        Seq::<u32>::empty()
    } else {
        pids_of_lines(ls.drop_last()) + line_pids(ls.last())
    }
}

/// The process identifiers named by the raw enumeration output: one per
/// line that is a decimal numeral, in the order the lines appear.
pub open spec fn spec_pids(s: Seq<char>) -> Seq<u32> {
    pids_of_lines(split_lines(s))
}

proof fn lemma_split_lines_nonempty(s: Seq<char>)
    ensures
        split_lines(s).len() >= 1,
    decreases s.len(),
{
    if s.len() > 0 {
        lemma_split_lines_nonempty(s.drop_last());
    }
}

/// Appends what `line` contributes to the identifier list.
fn push_line_pid(pids: &mut Vec<u32>, line: &str)
    ensures
        final(pids)@ == old(pids)@ + line_pids(line@),
{
    match parse_u32_digits(line) {
        Some(v) => {
            pids.push(v);
            proof {
                assert(pids@ =~= old(pids)@ + line_pids(line@));
            }
        },
        None => {
            proof {
                assert(pids@ =~= old(pids)@ + line_pids(line@));
            }
        },
    }
}

/// Parses the raw output of the process enumeration: the output is split
/// at newlines, and every line that is a decimal numeral fitting a `u32`
/// names one matched process, in order. Empty and malformed lines name
/// none, so empty output yields an empty list.
pub fn parse_pid_lines(s: &str) -> (pids: Vec<u32>)
    ensures
        pids@ == spec_pids(s@),
{
    let n = s.unicode_len();
    let mut pids: Vec<u32> = Vec::new();
    let mut li: usize = 0;
    let mut i: usize = 0;
    proof {
        assert(s@.subrange(0, 0) =~= Seq::<char>::empty());
        assert(split_lines(s@.subrange(0, 0)).last() =~= s@.subrange(0, 0));
    }
    while i < n
        invariant
            0 <= li <= i <= n,
            n == s@.len(),
            split_lines(s@.subrange(0, i as int)).len() >= 1,
            split_lines(s@.subrange(0, i as int)).last() == s@.subrange(li as int, i as int),
            pids@ == pids_of_lines(split_lines(s@.subrange(0, i as int)).drop_last()),
        decreases n - i,
    {
        let ghost pre = s@.subrange(0, i as int);
        let ghost post = s@.subrange(0, i + 1);
        proof {
            assert(post.drop_last() =~= pre);
            lemma_split_lines_nonempty(pre);
        }
        let c = s.get_char(i);
        if c == '\n' {
            let line = s.substring_char(li, i);
            push_line_pid(&mut pids, line);
            proof {
                assert(split_lines(post) == split_lines(pre).push(Seq::<char>::empty()));
                assert(split_lines(post).drop_last() =~= split_lines(pre));
                assert(pids_of_lines(split_lines(pre)) == pids_of_lines(
                    split_lines(pre).drop_last(),
                ) + line_pids(line@));
                assert(split_lines(post).last() =~= s@.subrange(i + 1, i + 1));
            }
            li = i + 1;
        } else {
            proof {
                let prev = split_lines(pre);
                let cur = split_lines(post);
                assert(cur == prev.update(prev.len() - 1, prev.last().push(s@[i as int])));
                assert(cur.drop_last() =~= prev.drop_last());
                assert(cur.last() == prev.last().push(s@[i as int]));
                assert(s@.subrange(li as int, i as int).push(s@[i as int]) =~= s@.subrange(
                    li as int,
                    i + 1,
                ));
            }
        }
        i = i + 1;
    }
    proof {
        assert(s@.subrange(0, n as int) =~= s@);
        lemma_split_lines_nonempty(s@);
    }
    let line = s.substring_char(li, n);
    push_line_pid(&mut pids, line);
    proof {
        assert(pids_of_lines(split_lines(s@)) == pids_of_lines(split_lines(s@).drop_last())
            + line_pids(line@));
    }
    pids
}

/// The identifiers of all results, in order.
pub open spec fn pids_of(rs: Seq<(u32, bool)>) -> Seq<u32>
    decreases rs.len(),
{
    if rs.len() == 0 {
        Seq::<u32>::empty()
    } else {
        pids_of(rs.drop_last()).push(rs.last().0)
    }
}

/// The identifiers whose kill signal was accepted, in order.
pub open spec fn killed_of(rs: Seq<(u32, bool)>) -> Seq<u32>
    decreases rs.len(),
{
    if rs.len() == 0 {
        Seq::<u32>::empty()
    } else if rs.last().1 {
        killed_of(rs.drop_last()).push(rs.last().0)
    } else {
        killed_of(rs.drop_last())
    }
}

/// The identifiers whose kill signal was refused, in order.
pub open spec fn failed_of(rs: Seq<(u32, bool)>) -> Seq<u32>
    decreases rs.len(),
{
    if rs.len() == 0 {
        Seq::<u32>::empty()
    } else if !rs.last().1 {
        failed_of(rs.drop_last()).push(rs.last().0)
    } else {
        failed_of(rs.drop_last())
    }
}

/// Records per-process kill results into an outcome: every identifier is
/// reported as matched, and each is reported as killed or failed according
/// to its own result alone, in order.
pub fn outcome_from_results(results: &Vec<(u32, bool)>) -> (o: TerminationOutcome)
    ensures
        o.matched@ == pids_of(results@),
        o.killed@ == killed_of(results@),
        o.failed@ == failed_of(results@),
{
    let mut matched: Vec<u32> = Vec::new();
    let mut killed: Vec<u32> = Vec::new();
    let mut failed: Vec<u32> = Vec::new();
    let n = results.len();
    let mut i: usize = 0;
    while i < n
        invariant
            0 <= i <= n,
            n == results@.len(),
            matched@ == pids_of(results@.subrange(0, i as int)),
            killed@ == killed_of(results@.subrange(0, i as int)),
            failed@ == failed_of(results@.subrange(0, i as int)),
        decreases n - i,
    {
        proof {
            assert(results@.subrange(0, i + 1).drop_last() =~= results@.subrange(0, i as int));
        }
        let (pid, ok) = results[i];
        matched.push(pid);
        if ok {
            killed.push(pid);
        } else {
            failed.push(pid);
        }
        i = i + 1;
    }
    proof {
        assert(results@.subrange(0, n as int) =~= results@);
    }
    TerminationOutcome { matched, killed, failed }
}

/// Termination is best-effort and zero matches is not an error: with no
/// matching live process, the outcome has empty `matched`, `killed` and
/// `failed`, and no other report is possible.
pub proof fn lemma_termination_best_effort(rs: Seq<(u32, bool)>)
    requires
        rs.len() == 0,
    ensures
        pids_of(rs) == Seq::<u32>::empty(),
        killed_of(rs) == Seq::<u32>::empty(),
        failed_of(rs) == Seq::<u32>::empty(),
{
}

/// Killed and failed processes together account for every match: one
/// process's failure never drops another from the report.
pub proof fn lemma_outcome_partition(rs: Seq<(u32, bool)>)
    ensures
        killed_of(rs).len() + failed_of(rs).len() == pids_of(rs).len(),
        pids_of(rs).len() == rs.len(),
    decreases rs.len(),
{
    if rs.len() > 0 {
        lemma_outcome_partition(rs.drop_last());
    }
}

/// Partial failure is isolated: each process's own result alone decides
/// whether it is reported as killed or as failed, whatever happened to the
/// others in the batch.
pub proof fn lemma_partial_failure_isolation(rs: Seq<(u32, bool)>, k: int)
    requires
        0 <= k < rs.len(),
    ensures
        rs[k].1 ==> killed_of(rs).contains(rs[k].0),
        !rs[k].1 ==> failed_of(rs).contains(rs[k].0),
    decreases rs.len(),
{
    if k == rs.len() - 1 {
        if rs.last().1 {
            let s = killed_of(rs);
            assert(s.last() == rs[k].0);
            assert(s.contains(rs[k].0));
        } else {
            let s = failed_of(rs);
            assert(s.last() == rs[k].0);
            assert(s.contains(rs[k].0));
        }
    } else {
        lemma_partial_failure_isolation(rs.drop_last(), k);
        assert(rs.drop_last()[k] == rs[k]);
        if rs[k].1 {
            let sub = killed_of(rs.drop_last());
            let j = choose|j: int| 0 <= j < sub.len() && sub[j] == rs[k].0;
            assert(killed_of(rs)[j] == rs[k].0);
            assert(killed_of(rs).contains(rs[k].0));
        } else {
            let sub = failed_of(rs.drop_last());
            let j = choose|j: int| 0 <= j < sub.len() && sub[j] == rs[k].0;
            assert(failed_of(rs)[j] == rs[k].0);
            assert(failed_of(rs).contains(rs[k].0));
        }
    }
}

} // verus!
