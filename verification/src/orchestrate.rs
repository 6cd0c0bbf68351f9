//! The verification orchestrator for one file: candidates are evaluated
//! strictly in locator order; each attempt is rebuilt by the caller through
//! the external build oracle, and the rewrite is committed only when the
//! normalized build output equals the normalized baseline.  Equivalence is
//! always checked against the original baseline, never against a later
//! state: that transitivity is the correctness contract of a commit.

use vstd::prelude::*;
use crate::locator::Candidate;
use crate::normalize::{normalize, normalize_spec};
use crate::text::eq_vec;
use crate::transduce::{convert_one, convert_one_spec};

verus! {

/// What the external build oracle returned: the artifact's text, or the
/// captured diagnostic of a failed build.
pub enum BuildOutcome {
    Output(Vec<char>),
    Failure(Vec<char>),
}

/// Why a candidate was rejected.
pub enum FailureDetail {
    /// Both builds succeeded but the normalized outputs differ.
    Mismatch {
        before_raw: Vec<char>,
        before_norm: Vec<char>,
        after_raw: Vec<char>,
        after_norm: Vec<char>,
    },
    /// The rebuild itself failed.
    BuildError { error: Vec<char> },
}

/// Artifact bundle for one rejected candidate: created only on mismatch or
/// build error, never on success.
pub struct FailureRecord {
    /// The original file content.
    pub before_src: Vec<char>,
    /// The rejected attempt.
    pub after_src: Vec<char>,
    pub detail: FailureDetail,
}

/// Candidate spans are ordered by non-increasing start, disjoint, and each
/// span is a well-formed range.
pub open spec fn spans_chain(cands: Seq<Candidate>) -> bool {
    &&& forall|i: int| 0 <= i < cands.len() ==> #[trigger] cands[i].start <= cands[i].end
    &&& forall|i: int|
        0 <= i && i + 1 < cands.len() ==> #[trigger] cands[i + 1].end <= cands[i].start
}

/// Every candidate at or after `next` lies inside a text of length `len`.
pub open spec fn spans_within(cands: Seq<Candidate>, next: int, len: int) -> bool {
    forall|j: int| next <= j < cands.len() ==> #[trigger] cands[j].end <= len
}

/// Per-file migration state: the working content with all committed
/// rewrites applied, the immutable baseline, and the candidates still to
/// evaluate.
pub struct Migration {
    /// The file's original content.
    pub initial: Vec<char>,
    /// The working content: the original with every committed rewrite
    /// applied.
    pub content: Vec<char>,
    /// Raw baseline build output.
    pub baseline_raw: Vec<char>,
    /// Normalized baseline build output; never changes after construction.
    pub baseline_norm: Vec<char>,
    /// All candidates, in locator order (non-increasing start offset).
    pub candidates: Vec<Candidate>,
    /// Index of the next candidate to evaluate.
    pub next: usize,
}

impl Migration {
    /// The state invariant: remaining spans are ordered, disjoint and lie
    /// inside the working content, and the stored baseline normalization
    /// is the normalizer's result on the raw baseline.
    pub open spec fn inv(&self) -> bool {
        &&& self.next <= self.candidates@.len()
        &&& spans_chain(self.candidates@)
        &&& spans_within(self.candidates@, self.next as int, self.content@.len() as int)
        &&& self.baseline_norm@ == normalize_spec(self.baseline_raw@)
    }

    /// The attempt for the current candidate: the working content with
    /// that one span transduced.
    pub open spec fn attempt_spec(&self) -> Seq<char> {
        let c = self.candidates@[self.next as int];
        convert_one_spec(self.content@, c.start as int, c.end as int, c.requires_parens)
    }

    /// Starts a migration, establishing the invariant; refuses candidate
    /// sequences that are not ordered, disjoint spans inside the content.
    pub fn new(content: Vec<char>, candidates: Vec<Candidate>, baseline_raw: Vec<char>) -> (m:
        Option<Migration>)
        ensures
            match m {
                Some(mg) => {
                    &&& mg.inv()
                    &&& mg.initial@ == content@
                    &&& mg.content@ == content@
                    &&& mg.baseline_raw@ == baseline_raw@
                    &&& mg.baseline_norm@ == normalize_spec(baseline_raw@)
                    &&& mg.candidates@ == candidates@
                    &&& mg.next == 0
                },
                None => !(spans_chain(candidates@) && spans_within(
                    candidates@,
                    0,
                    content@.len() as int,
                )),
            },
    {
        let n = candidates.len();
        let mut i: usize = 0;
        while i < n
            invariant
                i <= n,
                n == candidates@.len(),
                forall|j: int| 0 <= j < i ==> #[trigger] candidates@[j].start <= candidates@[j].end,
                forall|j: int| 0 <= j < i ==> #[trigger] candidates@[j].end <= content@.len(),
                forall|j: int|
                    0 <= j && j + 1 < n && j + 1 <= i ==> #[trigger] candidates@[j + 1].end
                        <= candidates@[j].start,
            decreases n - i,
        {
            if candidates[i].start > candidates[i].end || candidates[i].end > content.len() {
                return None;
            }
            if i + 1 < n {
                if candidates[i + 1].end > candidates[i].start {
                    return None;
                }
            }
            i += 1;
        }
        proof {
            assert forall|a: int| 0 <= a < candidates@.len() implies #[trigger] candidates@[
                a
            ].start <= candidates@[a].end by {
                assert(0 <= a && a < i);
            }
            assert forall|a: int|
                0 <= a && a + 1 < candidates@.len() implies #[trigger] candidates@[a + 1].end
                <= candidates@[a].start by {
                assert(0 <= a && a + 1 < n && a + 1 <= i);
            }
            assert(spans_chain(candidates@));
            assert(spans_within(candidates@, 0, content@.len() as int));
        }
        let baseline_norm = normalize(&baseline_raw);
        let initial = crate::rules::copy_vec(&content);
        Some(
            Migration {
                initial,
                content,
                baseline_raw,
                baseline_norm,
                candidates,
                next: 0,
            },
        )
    }

    /// All candidates have been evaluated.
    pub fn done(&self) -> (r: bool)
        ensures
            r == (self.next == self.candidates@.len()),
    {
        self.next == self.candidates.len()
    }

    /// The rewritten content to hand to the build oracle for the current
    /// candidate.
    pub fn current_attempt(&self) -> (r: Option<Vec<char>>)
        requires
            self.inv(),
        ensures
            match r {
                Some(a) => self.next < self.candidates@.len() && a@ == self.attempt_spec(),
                None => self.next == self.candidates@.len(),
            },
    {
        if self.next == self.candidates.len() {
            return None;
        }
        let c = self.candidates[self.next];
        proof {
            assert(self.candidates@[self.next as int].end <= self.content@.len());
        }
        Some(convert_one(&self.content, c.start, c.end, c.requires_parens))
    }

    /// Decides the current candidate from the build outcome of its
    /// attempt.  A success whose normalization equals the original
    /// baseline's commits the attempt into the working content; everything
    /// else leaves the content unchanged and yields a failure record.  The
    /// baseline itself never changes, so every commit is equivalent to the
    /// very first build.
    #[verifier::rlimit(100)]
    pub fn report(&mut self, outcome: BuildOutcome) -> (r: Option<FailureRecord>)
        requires
            old(self).inv(),
            old(self).next < old(self).candidates@.len(),
        ensures
            final(self).inv(),
            final(self).next == old(self).next + 1,
            final(self).initial@ == old(self).initial@,
            final(self).baseline_raw@ == old(self).baseline_raw@,
            final(self).baseline_norm@ == old(self).baseline_norm@,
            final(self).candidates@ == old(self).candidates@,
            match outcome {
                BuildOutcome::Failure(e) => {
                    &&& final(self).content@ == old(self).content@
                    &&& match r {
                        Some(rec) => {
                            &&& rec.before_src@ == old(self).initial@
                            &&& rec.after_src@ == old(self).attempt_spec()
                            &&& rec.detail matches FailureDetail::BuildError { error } && error@
                                == e@
                        },
                        None => false,
                    }
                },
                BuildOutcome::Output(raw) => {
                    if normalize_spec(raw@) == old(self).baseline_norm@ {
                        &&& final(self).content@ == old(self).attempt_spec()
                        &&& r is None
                    } else {
                        &&& final(self).content@ == old(self).content@
                        &&& match r {
                            Some(rec) => {
                                &&& rec.before_src@ == old(self).initial@
                                &&& rec.after_src@ == old(self).attempt_spec()
                                &&& rec.detail matches FailureDetail::Mismatch {
                                    before_raw,
                                    before_norm,
                                    after_raw,
                                    after_norm,
                                } && before_raw@ == old(self).baseline_raw@ && before_norm@
                                    == old(self).baseline_norm@ && after_raw@ == raw@
                                    && after_norm@ == normalize_spec(raw@)
                            },
                            None => false,
                        }
                    }
                },
            },
    {
        let n = self.candidates.len();
        let c = self.candidates[self.next];
        proof {
            assert(self.next < n);
            assert(self.candidates@[self.next as int].end <= self.content@.len());
        }
        let attempt = convert_one(&self.content, c.start, c.end, c.requires_parens);
        let result = match outcome {
            BuildOutcome::Failure(e) => {
                let before_src = crate::rules::copy_vec(&self.initial);
                Some(
                    FailureRecord {
                        before_src,
                        after_src: attempt,
                        detail: FailureDetail::BuildError { error: e },
                    },
                )
            },
            BuildOutcome::Output(raw) => {
                let after_norm = normalize(&raw);
                if eq_vec(&after_norm, &self.baseline_norm) {
                    proof {
                        self.lemma_commit_keeps_spans(attempt@);
                    }
                    self.content = attempt;
                    None
                } else {
                    let before_src = crate::rules::copy_vec(&self.initial);
                    let before_raw = crate::rules::copy_vec(&self.baseline_raw);
                    let before_norm = crate::rules::copy_vec(&self.baseline_norm);
                    Some(
                        FailureRecord {
                            before_src,
                            after_src: attempt,
                            detail: FailureDetail::Mismatch {
                                before_raw,
                                before_norm,
                                after_raw: raw,
                                after_norm,
                            },
                        },
                    )
                }
            },
        };
        self.next = self.next + 1;
        result
    }

    /// After a commit at the current candidate, every later span still
    /// lies inside the new content: later spans end at or before this
    /// one's start, and the rewrite only changes the text from that start
    /// on.
    proof fn lemma_commit_keeps_spans(&self, att: Seq<char>)
        requires
            self.inv(),
            self.next < self.candidates@.len(),
            att == self.attempt_spec(),
        ensures
            spans_within(self.candidates@, self.next + 1, att.len() as int),
    {
        let c = self.candidates@[self.next as int];
        assert(att.len() >= c.start) by {
            assert(att == self.content@.subrange(0, c.start as int) + (if c.requires_parens {
                "("@
            } else {
                Seq::<char>::empty()
            }) + "lib.mdDoc "@ + crate::transduce::convert_chunk_spec(
                self.content@.subrange(c.start as int, c.end as int),
            ) + (if c.requires_parens {
                ")"@
            } else {
                Seq::<char>::empty()
            }) + self.content@.subrange(c.end as int, self.content@.len() as int));
        }
        assert forall|j: int|
            self.next + 1 <= j < self.candidates@.len() implies #[trigger] self.candidates@[j].end
            <= att.len() by {
            lemma_chain_step(self.candidates@, self.next as int, j);
        }
    }
}

/// In an ordered, disjoint chain, every later span ends at or before an
/// earlier span's start.
proof fn lemma_chain_step(cands: Seq<Candidate>, a: int, b: int)
    requires
        spans_chain(cands),
        0 <= a < b < cands.len(),
    ensures
        cands[b].end <= cands[a].start,
    decreases b - a,
{
    if b == a + 1 {
    } else {
        lemma_chain_step(cands, a + 1, b);
    }
}

} // verus!
