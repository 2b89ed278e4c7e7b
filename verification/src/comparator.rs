//! The comparator: the stored outputs of the two program variants are paired
//! in order, each pair is accepted where the two files hold the same bytes,
//! and the verdicts are counted.

use vstd::prelude::*;
use vstd::string::{StrSliceExecFns, StringExecFns};
use vstd::utf8::encode_utf8;
use crate::paths::{file_name, file_name_of};
use crate::print_console::{painted, Hue, PrintColorize};
use crate::text::{decimal, push_decimal};

verus! {

/// The output file of one program variant for one test case. A file that is
/// missing is held with empty content.
#[derive(Debug)]
pub struct StoredOutput {
    pub path: String,
    pub content: Vec<u8>,
}

/// The verdict on one test case.
#[derive(Debug)]
pub struct ComparisonOutcome {
    /// The name of the reference variant's output file.
    pub test_case_id: String,
    pub accepted: bool,
}

/// The verdicts of one comparison and their counts.
#[derive(Debug)]
pub struct Summary {
    pub accepted_count: usize,
    pub wrong_answer_count: usize,
    pub outcomes: Vec<ComparisonOutcome>,
}

/// A `ComparisonOutcome` as plain text.
pub ghost struct Verdict {
    pub test_case_id: Seq<char>,
    pub accepted: bool,
}

/// A `Summary` as plain numbers and verdicts.
pub ghost struct Tally {
    pub accepted_count: nat,
    pub wrong_answer_count: nat,
    pub outcomes: Seq<Verdict>,
}

impl View for ComparisonOutcome {
    type V = Verdict;

    open spec fn view(&self) -> Verdict {
        Verdict { test_case_id: self.test_case_id@, accepted: self.accepted }
    }
}

impl View for Summary {
    type V = Tally;

    open spec fn view(&self) -> Tally {
        Tally {
            accepted_count: self.accepted_count as nat,
            wrong_answer_count: self.wrong_answer_count as nat,
            outcomes: Seq::new(self.outcomes@.len(), |i: int| self.outcomes@[i]@),
        }
    }
}

impl Tally {
    /// Whether the counts are those of the verdicts: as many accepted as the
    /// verdicts say, and every other verdict a wrong answer.
    pub open spec fn consistent(self) -> bool {
        &&& self.accepted_count == accepted_in(self.outcomes)
        &&& self.accepted_count + self.wrong_answer_count == self.outcomes.len()
    }
}

/// How many test cases two lists of stored outputs pair up: as many as the
/// shorter list holds.
pub open spec fn paired(a: Seq<StoredOutput>, b: Seq<StoredOutput>) -> nat {
    if a.len() <= b.len() {
        a.len()
    } else {
        b.len()
    }
}

/// The verdict on the pair at position `i`: accepted exactly where the two
/// files hold the same bytes, and named after the file of the first list.
pub open spec fn verdict_at(a: Seq<StoredOutput>, b: Seq<StoredOutput>, i: int) -> Verdict {
    Verdict { test_case_id: file_name_of(a[i].path@), accepted: a[i].content@ == b[i].content@ }
}

/// The verdicts on all pairs, in order.
pub open spec fn verdicts(a: Seq<StoredOutput>, b: Seq<StoredOutput>) -> Seq<Verdict> {
    Seq::new(paired(a, b), |i: int| verdict_at(a, b, i))
}

/// How many of `v` are accepted.
pub open spec fn accepted_in(v: Seq<Verdict>) -> nat
    decreases v.len(),
{
    if v.len() == 0 {
        0
    } else {
        accepted_in(v.drop_last()) + if v.last().accepted {
            1nat
        } else {
            0nat
        }
    }
}

/// The summary of comparing `a` with `b`: the verdicts on all pairs, the
/// number of accepted ones, and the number of the others.
pub open spec fn tally_of(a: Seq<StoredOutput>, b: Seq<StoredOutput>) -> Tally {
    let all = verdicts(a, b);
    Tally {
        accepted_count: accepted_in(all),
        wrong_answer_count: (all.len() - accepted_in(all)) as nat,
        outcomes: all,
    }
}

/// No more verdicts are accepted than there are.
pub proof fn lemma_accepted_bounded(v: Seq<Verdict>)
    ensures
        accepted_in(v) <= v.len(),
    decreases v.len(),
{
    if v.len() > 0 {
        lemma_accepted_bounded(v.drop_last());
    }
}

/// Whether `a` and `b` hold the same bytes.
pub fn same_bytes(a: &Vec<u8>, b: &Vec<u8>) -> (same: bool)
    ensures
        same == (a@ == b@),
{
    if a.len() != b.len() {
        return false;
    }
    let mut i: usize = 0;
    while i < a.len()
        invariant
            i <= a.len(),
            a.len() == b.len(),
            forall|k: int| 0 <= k < i ==> a@[k] == b@[k],
        decreases a.len() - i,
    {
        if a[i] != b[i] {
            return false;
        }
        i += 1;
    }
    assert(a@ =~= b@);
    true
}

/// What the file that was read as `content` holds; a missing file holds
/// nothing.
pub open spec fn content_of(content: Option<Vec<u8>>) -> Seq<u8> {
    match content {
        Some(bytes) => bytes@,
        None => Seq::empty(),
    }
}

impl StoredOutput {
    /// The output file at `path` as it was read: with its bytes, or with
    /// empty content where the file is missing.
    pub fn from_file(path: String, content: Option<Vec<u8>>) -> (stored: StoredOutput)
        ensures
            stored.path == path,
            stored.content@ == content_of(content),
    {
        match content {
            Some(bytes) => StoredOutput { path, content: bytes },
            None => StoredOutput { path, content: Vec::new() },
        }
    }

    /// The output file at `path` that holds `text`, as the bytes of its
    /// UTF-8 encoding.
    pub fn of_text(path: String, text: &str) -> (stored: StoredOutput)
        ensures
            stored.path == path,
            stored.content@ == encode_utf8(text@),
    {
        StoredOutput { path, content: text.as_bytes_vec() }
    }
}

/// Compares the stored outputs of the reference variant with those of the
/// candidate, pair by pair in the order of the two lists.
pub fn compare_result(smart: &Vec<StoredOutput>, stupid: &Vec<StoredOutput>) -> (summary: Summary)
    ensures
        summary@ == tally_of(smart@, stupid@),
        summary@.consistent(),
        summary.outcomes.len() == paired(smart@, stupid@),
        summary.accepted_count + summary.wrong_answer_count == paired(smart@, stupid@),
        forall|i: int|
            0 <= i < summary.outcomes.len() ==> ((#[trigger] summary.outcomes[i]).accepted
                <==> smart[i].content@ == stupid[i].content@),
{
    let pairs: usize = if smart.len() <= stupid.len() {
        smart.len()
    } else {
        stupid.len()
    };
    let mut outcomes: Vec<ComparisonOutcome> = Vec::new();
    let mut accepted: usize = 0;
    let mut wrong_answer: usize = 0;
    let mut i: usize = 0;
    let ghost all = verdicts(smart@, stupid@);
    assert(all.take(0) =~= Seq::<Verdict>::empty());
    while i < pairs
        invariant
            i <= pairs,
            pairs == paired(smart@, stupid@),
            all == verdicts(smart@, stupid@),
            outcomes.len() == i,
            forall|k: int| 0 <= k < i ==> outcomes@[k]@ == all[k],
            accepted as nat == accepted_in(all.take(i as int)),
            accepted + wrong_answer == i,
        decreases pairs - i,
    {
        let same = same_bytes(&smart[i].content, &stupid[i].content);
        let name = file_name(smart[i].path.as_str());
        proof {
            assert(all.take(i + 1).drop_last() =~= all.take(i as int));
            assert(all.take(i + 1).last() == all[i as int]);
            assert(all[i as int] == verdict_at(smart@, stupid@, i as int));
        }
        if same {
            accepted += 1;
        } else {
            wrong_answer += 1;
        }
        outcomes.push(ComparisonOutcome { test_case_id: name, accepted: same });
        i += 1;
    }
    let summary = Summary { accepted_count: accepted, wrong_answer_count: wrong_answer, outcomes };
    proof {
        assert(all.take(pairs as int) =~= all);
        assert(summary@.outcomes =~= all);
        assert forall|i: int| 0 <= i < summary.outcomes.len() implies ((
            #[trigger] summary.outcomes[i]).accepted <==> smart[i].content@
            == stupid[i].content@) by {
            assert(summary.outcomes@[i]@ == all[i]);
        }
    }
    summary
}

/// The summary line: `AC: <n>, WA: <m> (testcase: <n+m>)`.
pub open spec fn summary_text(accepted: nat, wrong_answer: nat) -> Seq<char> {
    "AC: "@ + decimal(accepted) + ", WA: "@ + decimal(wrong_answer) + " (testcase: "@ + decimal(
        accepted + wrong_answer,
    ) + ")"@
}

/// The summary line as the console shows it: after the label `[ result ]` in
/// bold cyan, with `AC` in bold green and `WA` in bold yellow.
pub open spec fn summary_console_text(accepted: nat, wrong_answer: nat) -> Seq<char> {
    painted(Hue::Cyan, "[ result ]"@) + " "@ + painted(Hue::Green, "AC"@) + ": "@ + decimal(
        accepted,
    ) + ", "@ + painted(Hue::Yellow, "WA"@) + ": "@ + decimal(wrong_answer) + " (testcase: "@
        + decimal(accepted + wrong_answer) + ")"@
}

/// How one verdict is told on the console: `[ test ]` in bold cyan, then
/// `AC` in bold green or `WA` in bold yellow, then the name of the test case.
pub open spec fn verdict_console_text(verdict: Verdict) -> Seq<char> {
    painted(Hue::Cyan, "[ test ]"@) + " "@ + (if verdict.accepted {
        painted(Hue::Green, "AC"@)
    } else {
        painted(Hue::Yellow, "WA"@)
    }) + ": "@ + verdict.test_case_id
}

impl ComparisonOutcome {
    /// The line that tells this verdict on the console.
    pub fn console_line(&self) -> (line: String)
        ensures
            line@ == verdict_console_text(self@),
    {
        let mut line = PrintColorize::print_cyan(String::from_str("[ test ]"));
        line.append(" ");
        let mark = if self.accepted {
            PrintColorize::print_green(String::from_str("AC"))
        } else {
            PrintColorize::print_yellow(String::from_str("WA"))
        };
        line.append(mark.as_str());
        line.append(": ");
        line.append(self.test_case_id.as_str());
        assert(line@ =~= verdict_console_text(self@));
        line
    }
}

impl Summary {
    /// The summary line, without colour.
    pub fn line(&self) -> (line: String)
        ensures
            line@ == summary_text(self.accepted_count as nat, self.wrong_answer_count as nat),
    {
        let mut line = String::from_str("AC: ");
        push_decimal(&mut line, self.accepted_count as u128);
        line.append(", WA: ");
        push_decimal(&mut line, self.wrong_answer_count as u128);
        line.append(" (testcase: ");
        push_decimal(&mut line, self.accepted_count as u128 + self.wrong_answer_count as u128);
        line.append(")");
        assert(line@ =~= summary_text(
            self.accepted_count as nat,
            self.wrong_answer_count as nat,
        ));
        line
    }

    /// The summary line as the console shows it.
    pub fn console_line(&self) -> (line: String)
        ensures
            line@ == summary_console_text(
                self.accepted_count as nat,
                self.wrong_answer_count as nat,
            ),
    {
        let mut line = PrintColorize::print_cyan(String::from_str("[ result ]"));
        line.append(" ");
        line.append(PrintColorize::print_green(String::from_str("AC")).as_str());
        line.append(": ");
        push_decimal(&mut line, self.accepted_count as u128);
        line.append(", ");
        line.append(PrintColorize::print_yellow(String::from_str("WA")).as_str());
        line.append(": ");
        push_decimal(&mut line, self.wrong_answer_count as u128);
        line.append(" (testcase: ");
        push_decimal(&mut line, self.accepted_count as u128 + self.wrong_answer_count as u128);
        line.append(")");
        assert(line@ =~= summary_console_text(
            self.accepted_count as nat,
            self.wrong_answer_count as nat,
        ));
        line
    }
}

/// The exit status of a whole run: 0 where no worker failed or timed out and
/// every pair was accepted, 1 otherwise.
pub fn exit_status(failed_cases: usize, summary: &Summary) -> (status: i32)
    ensures
        status == 0 <==> failed_cases == 0 && summary.wrong_answer_count == 0,
        status == 0 || status == 1,
{
    if failed_cases == 0 && summary.wrong_answer_count == 0 {
        0
    } else {
        1
    }
}

/// A pair is accepted exactly where the two files hold the same bytes.
pub proof fn lemma_accepted_iff_identical(a: Seq<StoredOutput>, b: Seq<StoredOutput>, i: int)
    requires
        0 <= i < paired(a, b),
    ensures
        tally_of(a, b).outcomes[i].accepted <==> a[i].content@ == b[i].content@,
{
}

/// Every pair is counted once: the accepted and the wrong answers together
/// are as many as the pairs, and there is one verdict for each pair.
pub proof fn lemma_counts_cover_pairs(a: Seq<StoredOutput>, b: Seq<StoredOutput>)
    ensures
        tally_of(a, b).accepted_count + tally_of(a, b).wrong_answer_count == paired(a, b),
        tally_of(a, b).outcomes.len() == paired(a, b),
{
    lemma_accepted_bounded(verdicts(a, b));
}

/// Comparing the same stored outputs again gives the same summary: two
/// summaries that `compare_result` may return for the files of `a` and `b`
/// agree in every count and verdict, whatever the paths of the second list
/// are called.
pub proof fn lemma_comparison_repeats(
    a: Seq<StoredOutput>,
    b: Seq<StoredOutput>,
    a_again: Seq<StoredOutput>,
    b_again: Seq<StoredOutput>,
    first: Summary,
    second: Summary,
)
    requires
        a.len() == a_again.len(),
        b.len() == b_again.len(),
        forall|i: int|
            0 <= i < a.len() ==> a[i].path@ == a_again[i].path@ && a[i].content@
                == a_again[i].content@,
        forall|i: int| 0 <= i < b.len() ==> b[i].content@ == b_again[i].content@,
        first@ == tally_of(a, b),
        second@ == tally_of(a_again, b_again),
    ensures
        first@ == second@,
{
    assert(verdicts(a, b) =~= verdicts(a_again, b_again));
}

} // verus!
