//! The candidate locator: walks a configuration-language syntax tree and
//! finds the spans to rewrite — the argument of an enable-flag constructor,
//! and description entries inside an option declaration's attribute set —
//! skipping any site already wrapped in the migrated-marker call.
//!
//! The tree is held as an arena: node `0` is the root and every node's
//! children have larger indices, so traversal is well-founded.

use vstd::prelude::*;
use crate::text::{eq_vec, lit};

verus! {

/// Node kinds the locator distinguishes; everything else is `Other`.
pub enum NodeKind {
    /// A function application; children `[callee, argument]`.
    Apply,
    /// An attribute set; children are its entries.
    AttrSet,
    /// An identifier, carrying its text.
    Ident(Vec<char>),
    /// A two-part selection; children `[set, index]`.
    Select,
    /// A parenthesized expression; children `[inner]`.
    Paren,
    /// A key-value entry, carrying its key path; children `[value]`.
    KeyValue(Vec<Vec<char>>),
    /// Any other node kind.
    Other,
}

/// One syntax node: kind, byte-range span, and child indices.
pub struct Node {
    pub kind: NodeKind,
    pub start: usize,
    pub end: usize,
    pub children: Vec<usize>,
}

/// A rewrite candidate: the span to rewrite and whether the rewritten text
/// must be parenthesized to stay a single expression.
#[derive(Clone, Copy, PartialEq, Eq, Structural, Debug)]
pub struct Candidate {
    pub start: usize,
    pub end: usize,
    pub requires_parens: bool,
}

/// Every node's children lie strictly after it and inside the arena.
pub open spec fn tree_wf(t: Seq<Node>) -> bool {
    forall|i: int, k: int|
        0 <= i < t.len() && 0 <= k < t[i].children@.len() ==> i < #[trigger] t[i].children@[k]
            < t.len()
}

/// Node `i` is an identifier with text `name`.
pub open spec fn ident_is(t: Seq<Node>, i: int, name: Seq<char>) -> bool {
    &&& 0 <= i < t.len()
    &&& t[i].kind matches NodeKind::Ident(n) && n@ == name
}

/// Node `i` is a selection `lib.<name>`.
pub open spec fn select_is(t: Seq<Node>, i: int, name: Seq<char>) -> bool {
    &&& 0 <= i < t.len()
    &&& t[i].kind is Select
    &&& t[i].children@.len() >= 2
    &&& ident_is(t, t[i].children@[0] as int, "lib"@)
    &&& ident_is(t, t[i].children@[1] as int, name)
}

/// Node `i` is a function application whose callee is the identifier
/// `name` or the selection `lib.<name>`.
pub open spec fn is_call_spec(t: Seq<Node>, i: int, name: Seq<char>) -> bool {
    &&& 0 <= i < t.len()
    &&& t[i].kind is Apply
    &&& t[i].children@.len() >= 1
    &&& (ident_is(t, t[i].children@[0] as int, name) || select_is(
        t,
        t[i].children@[0] as int,
        name,
    ))
}

/// Node `i` is a call to one of the option-declaration constructors.
pub open spec fn is_option_ctor(t: Seq<Node>, i: int) -> bool {
    ||| is_call_spec(t, i, "mkOption"@)
    ||| is_call_spec(t, i, "mkNullOrBoolOption"@)
    ||| is_call_spec(t, i, "mkNullOrStrOption"@)
    ||| is_call_spec(t, i, "mkInternalOption"@)
    ||| is_call_spec(t, i, "mkNullableOption"@)
}

/// The enable-flag argument `a` is already migrated: parenthesized, and
/// the inner expression is a call to the migrated-marker function.
pub open spec fn migrated_arg(t: Seq<Node>, a: int) -> bool {
    &&& 0 <= a < t.len()
    &&& t[a].kind is Paren
    &&& t[a].children@.len() >= 1
    &&& is_call_spec(t, t[a].children@[0] as int, "mdDoc"@)
}

/// Entry `c` is an unmigrated single-segment `description` entry with a
/// value.
pub open spec fn is_desc_entry(t: Seq<Node>, c: int) -> bool {
    &&& 0 <= c < t.len()
    &&& t[c].kind matches NodeKind::KeyValue(path) && path@.len() == 1 && path@[0]@
        == "description"@
    &&& t[c].children@.len() >= 1
    &&& 0 <= t[c].children@[0] < t.len()
    &&& !is_call_spec(t, t[c].children@[0] as int, "mdDoc"@)
}

/// The candidate over the value of the description entry `c`.
pub open spec fn desc_candidate(t: Seq<Node>, c: int) -> Candidate {
    let v = t[c].children@[0] as int;
    Candidate { start: t[v].start, end: t[v].end, requires_parens: false }
}

/// Candidates contributed by the subtree rooted at node `i`, in traversal
/// order; `opt` says whether the parent context is an option declaration.
pub open spec fn node_cands(t: Seq<Node>, i: int, opt: bool) -> Seq<Candidate>
    decreases t.len() - i, 1int, 0int,
{
    if !(0 <= i < t.len()) {
        Seq::empty()
    } else {
        match t[i].kind {
            NodeKind::Apply => {
                if t[i].children@.len() >= 2 {
                    let arg = t[i].children@[1] as int;
                    if i < arg < t.len() {
                        (if is_call_spec(t, i, "mkEnableOption"@) && !migrated_arg(t, arg) {
                            seq![
                                Candidate {
                                    start: t[arg].start,
                                    end: t[arg].end,
                                    requires_parens: true,
                                },
                            ]
                        } else {
                            Seq::empty()
                        }) + node_cands(t, arg, is_option_ctor(t, i))
                    } else {
                        Seq::empty()
                    }
                } else {
                    children_cands(t, t[i].children@, 0, i)
                }
            },
            NodeKind::AttrSet => desc_cands(t, t[i].children@, 0, opt) + children_cands(
                t,
                t[i].children@,
                0,
                i,
            ),
            _ => children_cands(t, t[i].children@, 0, i),
        }
    }
}

/// Candidates of the children `cs[k..]` of node `i`, traversed in order
/// with the option context reset.
pub open spec fn children_cands(t: Seq<Node>, cs: Seq<usize>, k: int, i: int) -> Seq<Candidate>
    decreases t.len() - i, 0int, cs.len() - k,
{
    if k < 0 || k >= cs.len() {
        Seq::empty()
    } else {
        let c = cs[k] as int;
        (if i < c < t.len() {
            node_cands(t, c, false)
        } else {
            Seq::empty()
        }) + children_cands(t, cs, k + 1, i)
    }
}

/// Description candidates among the entries `cs[k..]` of an attribute set,
/// provided the set stands in an option declaration.
pub open spec fn desc_cands(t: Seq<Node>, cs: Seq<usize>, k: int, opt: bool) -> Seq<Candidate>
    decreases cs.len() - k,
{
    if k < 0 || k >= cs.len() {
        Seq::empty()
    } else {
        (if opt && is_desc_entry(t, cs[k] as int) {
            seq![desc_candidate(t, cs[k] as int)]
        } else {
            Seq::empty()
        }) + desc_cands(t, cs, k + 1, opt)
    }
}

/// All candidates of the tree, in traversal order.
pub open spec fn tree_cands(t: Seq<Node>) -> Seq<Candidate> {
    if t.len() > 0 {
        node_cands(t, 0, false)
    } else {
        Seq::empty()
    }
}

/// Start offsets never increase along the sequence.
pub open spec fn sorted_desc(s: Seq<Candidate>) -> bool {
    forall|a: int, b: int| 0 <= a < b < s.len() ==> s[a].start >= s[b].start
}

/// A parsed source file, held as a well-formed arena of nodes.
pub struct SyntaxTree {
    nodes: Vec<Node>,
}

impl SyntaxTree {
    /// The nodes of the tree.
    pub closed spec fn nodes_view(&self) -> Seq<Node> {
        self.nodes@
    }

    /// The arena is well-formed.
    pub open spec fn wf(&self) -> bool {
        tree_wf(self.nodes_view())
    }

    /// Builds a tree from an arena, checking that every child index points
    /// strictly past its parent and into the arena.
    pub fn new(nodes: Vec<Node>) -> (t: Option<SyntaxTree>)
        ensures
            match t {
                Some(tr) => tr.wf() && tr.nodes_view() == nodes@,
                None => !tree_wf(nodes@),
            },
    {
        let mut i: usize = 0;
        while i < nodes.len()
            invariant
                i <= nodes.len(),
                forall|a: int, k: int|
                    0 <= a < i && 0 <= k < nodes@[a].children@.len() ==> a
                        < #[trigger] nodes@[a].children@[k] < nodes@.len(),
            decreases nodes.len() - i,
        {
            let m = nodes[i].children.len();
            let mut k: usize = 0;
            while k < m
                invariant
                    i < nodes@.len(),
                    k <= m,
                    m == nodes@[i as int].children@.len(),
                    forall|q: int|
                        0 <= q < k ==> i < #[trigger] nodes@[i as int].children@[q]
                            < nodes@.len(),
                decreases m - k,
            {
                let c = nodes[i].children[k];
                if c <= i || c >= nodes.len() {
                    proof {
                        assert(!tree_wf(nodes@));
                    }
                    return None;
                }
                k += 1;
            }
            i += 1;
        }
        Some(SyntaxTree { nodes })
    }

    /// Number of nodes.
    pub fn len(&self) -> (n: usize)
        ensures
            n == self.nodes_view().len(),
    {
        self.nodes.len()
    }

    /// Is node `i` a call to the function named `name`, either directly or
    /// through a `lib.` selection?
    pub fn is_call_to(&self, i: usize, name: &Vec<char>) -> (r: bool)
        requires
            self.wf(),
            i < self.nodes_view().len(),
        ensures
            r == is_call_spec(self.nodes_view(), i as int, name@),
    {
        match &self.nodes[i].kind {
            NodeKind::Apply => {
                if self.nodes[i].children.len() < 1 {
                    return false;
                }
                let c0 = self.nodes[i].children[0];
                proof {
                    assert(i < self.nodes@[i as int].children@[0] < self.nodes@.len());
                }
                if self.ident_text_is(c0, name) {
                    return true;
                }
                self.select_of_lib_is(c0, name)
            },
            _ => false,
        }
    }

    /// Is node `i` the identifier `name`?
    fn ident_text_is(&self, i: usize, name: &Vec<char>) -> (r: bool)
        requires
            i < self.nodes_view().len(),
        ensures
            r == ident_is(self.nodes@, i as int, name@),
    {
        match &self.nodes[i].kind {
            NodeKind::Ident(n) => eq_vec(n, name),
            _ => false,
        }
    }

    /// Is node `i` the selection `lib.<name>`?
    fn select_of_lib_is(&self, i: usize, name: &Vec<char>) -> (r: bool)
        requires
            self.wf(),
            i < self.nodes_view().len(),
        ensures
            r == select_is(self.nodes@, i as int, name@),
    {
        match &self.nodes[i].kind {
            NodeKind::Select => {
                if self.nodes[i].children.len() < 2 {
                    return false;
                }
                let a = self.nodes[i].children[0];
                let b = self.nodes[i].children[1];
                proof {
                    assert(i < self.nodes@[i as int].children@[0] < self.nodes@.len());
                    assert(i < self.nodes@[i as int].children@[1] < self.nodes@.len());
                }
                self.ident_text_is(a, &lit("lib")) && self.ident_text_is(b, name)
            },
            _ => false,
        }
    }

    /// Is node `i` a call to one of the option-declaration constructors?
    fn is_option_call(&self, i: usize) -> (r: bool)
        requires
            self.wf(),
            i < self.nodes_view().len(),
        ensures
            r == is_option_ctor(self.nodes@, i as int),
    {
        self.is_call_to(i, &lit("mkOption")) || self.is_call_to(i, &lit("mkNullOrBoolOption"))
            || self.is_call_to(i, &lit("mkNullOrStrOption")) || self.is_call_to(
            i,
            &lit("mkInternalOption"),
        ) || self.is_call_to(i, &lit("mkNullableOption"))
    }

    /// Is the enable-flag argument `a` already migrated?
    fn is_migrated_arg(&self, a: usize) -> (r: bool)
        requires
            self.wf(),
            a < self.nodes_view().len(),
        ensures
            r == migrated_arg(self.nodes@, a as int),
    {
        match &self.nodes[a].kind {
            NodeKind::Paren => {
                if self.nodes[a].children.len() < 1 {
                    return false;
                }
                let c0 = self.nodes[a].children[0];
                proof {
                    assert(a < self.nodes@[a as int].children@[0] < self.nodes@.len());
                }
                self.is_call_to(c0, &lit("mdDoc"))
            },
            _ => false,
        }
    }

    fn collect_descs(&self, i: usize, opt: bool, out: &mut Vec<Candidate>)
        requires
            self.wf(),
            i < self.nodes_view().len(),
        ensures
            final(out)@ == old(out)@ + desc_cands(
                self.nodes@,
                self.nodes@[i as int].children@,
                0,
                opt,
            ),
        decreases self.nodes@.len() - i, 0int, 0int,
    {
        let ghost t = self.nodes@;
        let ghost cs = self.nodes@[i as int].children@;
        let n = self.nodes[i].children.len();
        let mut k: usize = 0;
        while k < n
            invariant
                self.wf(),
                i < t.len(),
                t == self.nodes@,
                cs == t[i as int].children@,
                k <= n,
                n == cs.len(),
                old(out)@ + desc_cands(t, cs, 0, opt) == out@ + desc_cands(t, cs, k as int, opt),
            decreases n - k,
        {
            let c = self.nodes[i].children[k];
            proof {
                assert(i < t[i as int].children@[k as int] < t.len());
            }
            let ghost out_prev = out@;
            if opt {
                match &self.nodes[c].kind {
                    NodeKind::KeyValue(path) => {
                        if path.len() == 1 && self.nodes[c].children.len() >= 1 {
                            if eq_vec(&path[0], &lit("description")) {
                                let v = self.nodes[c].children[0];
                                proof {
                                    assert(c < t[c as int].children@[0] < t.len());
                                }
                                if !self.is_call_to(v, &lit("mdDoc")) {
                                    out.push(
                                        Candidate {
                                            start: self.nodes[v].start,
                                            end: self.nodes[v].end,
                                            requires_parens: false,
                                        },
                                    );
                                }
                            }
                        }
                    },
                    _ => {},
                }
            }
            proof {
                assert(desc_cands(t, cs, k as int, opt) == (if opt && is_desc_entry(
                    t,
                    cs[k as int] as int,
                ) {
                    seq![desc_candidate(t, cs[k as int] as int)]
                } else {
                    Seq::empty()
                }) + desc_cands(t, cs, k as int + 1, opt));
                assert(out@ + desc_cands(t, cs, k as int + 1, opt) =~= out_prev + desc_cands(
                    t,
                    cs,
                    k as int,
                    opt,
                ));
            }
            k += 1;
        }
        proof {
            assert(desc_cands(t, cs, n as int, opt) == Seq::<Candidate>::empty());
            assert(out@ + Seq::<Candidate>::empty() =~= out@);
            assert(final(out)@ =~= old(out)@ + desc_cands(t, cs, 0, opt));
        }
    }

    fn collect_children(&self, i: usize, out: &mut Vec<Candidate>)
        requires
            self.wf(),
            i < self.nodes_view().len(),
        ensures
            final(out)@ == old(out)@ + children_cands(
                self.nodes@,
                self.nodes@[i as int].children@,
                0,
                i as int,
            ),
        decreases self.nodes@.len() - i, 0int, 0int,
    {
        let ghost t = self.nodes@;
        let ghost cs = self.nodes@[i as int].children@;
        let n = self.nodes[i].children.len();
        let mut k: usize = 0;
        while k < n
            invariant
                self.wf(),
                i < t.len(),
                t == self.nodes@,
                cs == t[i as int].children@,
                k <= n,
                n == cs.len(),
                old(out)@ + children_cands(t, cs, 0, i as int) == out@ + children_cands(
                    t,
                    cs,
                    k as int,
                    i as int,
                ),
            decreases n - k,
        {
            let c = self.nodes[i].children[k];
            proof {
                assert(i < t[i as int].children@[k as int] < t.len());
                assert(children_cands(t, cs, k as int, i as int) == node_cands(
                    t,
                    c as int,
                    false,
                ) + children_cands(t, cs, k as int + 1, i as int));
            }
            self.collect(c, false, out);
            proof {
                assert(out@ + children_cands(t, cs, k as int + 1, i as int) =~= old(out)@
                    + children_cands(t, cs, 0, i as int));
            }
            k += 1;
        }
        proof {
            assert(children_cands(t, cs, n as int, i as int) == Seq::<Candidate>::empty());
            assert(final(out)@ =~= old(out)@ + children_cands(t, cs, 0, i as int));
        }
    }

    fn collect(&self, i: usize, opt: bool, out: &mut Vec<Candidate>)
        requires
            self.wf(),
            i < self.nodes_view().len(),
        ensures
            final(out)@ == old(out)@ + node_cands(self.nodes@, i as int, opt),
        decreases self.nodes@.len() - i, 1int, 0int,
    {
        let ghost t = self.nodes@;
        match &self.nodes[i].kind {
            NodeKind::Apply => {
                if self.nodes[i].children.len() >= 2 {
                    let arg = self.nodes[i].children[1];
                    proof {
                        assert(i < t[i as int].children@[1] < t.len());
                    }
                    let enable = self.is_call_to(i, &lit("mkEnableOption"));
                    if enable && !self.is_migrated_arg(arg) {
                        out.push(
                            Candidate {
                                start: self.nodes[arg].start,
                                end: self.nodes[arg].end,
                                requires_parens: true,
                            },
                        );
                    }
                    let opt2 = self.is_option_call(i);
                    self.collect(arg, opt2, out);
                    proof {
                        assert(final(out)@ =~= old(out)@ + node_cands(t, i as int, opt));
                    }
                } else {
                    self.collect_children(i, out);
                }
            },
            NodeKind::AttrSet => {
                self.collect_descs(i, opt, out);
                self.collect_children(i, out);
                proof {
                    assert(final(out)@ =~= old(out)@ + node_cands(t, i as int, opt));
                }
            },
            _ => {
                self.collect_children(i, out);
            },
        }
    }

    /// Finds all rewrite candidates of the tree, ordered by non-increasing
    /// start offset: rewrites are applied back to front so that earlier
    /// spans stay valid.
    pub fn find_candidates(&self) -> (out: Vec<Candidate>)
        requires
            self.wf(),
        ensures
            sorted_desc(out@),
            out@.to_multiset() == tree_cands(self.nodes_view()).to_multiset(),
    {
        let mut raw: Vec<Candidate> = Vec::new();
        if self.nodes.len() > 0 {
            self.collect(0, false, &mut raw);
        }
        proof {
            assert(raw@ =~= tree_cands(self.nodes@));
        }
        sort_candidates(raw)
    }
}

/// Every node's span is a well-formed range inside a text of length `len`.
pub open spec fn spans_bounded(t: Seq<Node>, len: int) -> bool {
    forall|i: int|
        0 <= i < t.len() ==> #[trigger] t[i].start <= t[i].end && t[i].end <= len
}

/// The candidate's span is a well-formed range inside a text of length
/// `len`.
pub open spec fn cand_in_text(c: Candidate, len: int) -> bool {
    c.start <= c.end <= len
}

/// Every candidate of the sequence lies inside a text of length `len`.
pub open spec fn all_in_text(s: Seq<Candidate>, len: int) -> bool {
    forall|k: int| 0 <= k < s.len() ==> cand_in_text(#[trigger] s[k], len)
}

proof fn lemma_concat_in_text(a: Seq<Candidate>, b: Seq<Candidate>, len: int)
    requires
        all_in_text(a, len),
        all_in_text(b, len),
    ensures
        all_in_text(a + b, len),
{
    assert forall|k: int| 0 <= k < (a + b).len() implies cand_in_text(
        #[trigger] (a + b)[k],
        len,
    ) by {
        if k < a.len() {
            assert((a + b)[k] == a[k]);
        } else {
            assert((a + b)[k] == b[k - a.len()]);
        }
    }
}

proof fn lemma_descs_in_text(t: Seq<Node>, cs: Seq<usize>, k: int, opt: bool, len: int)
    requires
        spans_bounded(t, len),
    ensures
        all_in_text(desc_cands(t, cs, k, opt), len),
    decreases cs.len() - k,
{
    if k < 0 || k >= cs.len() {
    } else {
        lemma_descs_in_text(t, cs, k + 1, opt, len);
        let local = if opt && is_desc_entry(t, cs[k] as int) {
            seq![desc_candidate(t, cs[k] as int)]
        } else {
            Seq::<Candidate>::empty()
        };
        assert(all_in_text(local, len));
        lemma_concat_in_text(local, desc_cands(t, cs, k + 1, opt), len);
    }
}

proof fn lemma_children_in_text(t: Seq<Node>, cs: Seq<usize>, k: int, i: int, len: int)
    requires
        spans_bounded(t, len),
        0 <= i < t.len(),
    ensures
        all_in_text(children_cands(t, cs, k, i), len),
    decreases t.len() - i, 0int, cs.len() - k,
{
    if k < 0 || k >= cs.len() {
    } else {
        let c = cs[k] as int;
        let local = if i < c < t.len() {
            node_cands(t, c, false)
        } else {
            Seq::<Candidate>::empty()
        };
        if i < c < t.len() {
            lemma_node_in_text(t, c, false, len);
        }
        lemma_children_in_text(t, cs, k + 1, i, len);
        lemma_concat_in_text(local, children_cands(t, cs, k + 1, i), len);
    }
}

proof fn lemma_node_in_text(t: Seq<Node>, i: int, opt: bool, len: int)
    requires
        spans_bounded(t, len),
        0 <= i < t.len(),
    ensures
        all_in_text(node_cands(t, i, opt), len),
    decreases t.len() - i, 1int, 0int,
{
    if t[i].kind is Apply {
        if t[i].children@.len() >= 2 {
            let arg = t[i].children@[1] as int;
            if i < arg < t.len() {
                let local = if is_call_spec(t, i, "mkEnableOption"@) && !migrated_arg(t, arg) {
                    seq![
                        Candidate { start: t[arg].start, end: t[arg].end, requires_parens: true },
                    ]
                } else {
                    Seq::<Candidate>::empty()
                };
                assert(all_in_text(local, len));
                lemma_node_in_text(t, arg, is_option_ctor(t, i), len);
                lemma_concat_in_text(local, node_cands(t, arg, is_option_ctor(t, i)), len);
            }
        } else {
            lemma_children_in_text(t, t[i].children@, 0, i, len);
        }
    } else if t[i].kind is AttrSet {
        lemma_descs_in_text(t, t[i].children@, 0, opt, len);
        lemma_children_in_text(t, t[i].children@, 0, i, len);
        lemma_concat_in_text(
            desc_cands(t, t[i].children@, 0, opt),
            children_cands(t, t[i].children@, 0, i),
            len,
        );
    } else {
        lemma_children_in_text(t, t[i].children@, 0, i, len);
    }
}

/// Every candidate the locator yields takes its span from a node of the
/// tree, so on a tree whose node spans lie inside the file's text, all
/// candidate spans do too.
pub proof fn lemma_candidates_lie_in_text(t: Seq<Node>, len: int)
    requires
        spans_bounded(t, len),
    ensures
        all_in_text(tree_cands(t), len),
{
    if t.len() > 0 {
        lemma_node_in_text(t, 0, false, len);
    }
}

/// The enable-flag rule's guard holds at node `i`: if it is an enable
/// call, its argument already carries the migrated marker.
pub open spec fn apply_guarded(t: Seq<Node>, i: int) -> bool {
    (t[i].kind is Apply && t[i].children@.len() >= 2 && is_call_spec(t, i, "mkEnableOption"@))
        ==> migrated_arg(t, t[i].children@[1] as int)
}

/// The description rule's guard holds at node `i`: none of an attribute
/// set's entries is an unmigrated description.
pub open spec fn attrset_guarded(t: Seq<Node>, i: int) -> bool {
    t[i].kind is AttrSet ==> forall|k: int|
        0 <= k < t[i].children@.len() ==> !is_desc_entry(t, #[trigger] t[i].children@[k] as int)
}

/// Every candidate site of the tree already carries the migrated marker.
pub open spec fn fully_migrated(t: Seq<Node>) -> bool {
    &&& forall|i: int| 0 <= i < t.len() ==> #[trigger] apply_guarded(t, i)
    &&& forall|i: int| 0 <= i < t.len() ==> #[trigger] attrset_guarded(t, i)
}

proof fn lemma_descs_empty(t: Seq<Node>, i: int, cs: Seq<usize>, k: int, opt: bool)
    requires
        fully_migrated(t),
        0 <= i < t.len(),
        t[i].kind is AttrSet,
        cs == t[i].children@,
    ensures
        desc_cands(t, cs, k, opt).len() == 0,
    decreases cs.len() - k,
{
    if k < 0 || k >= cs.len() {
    } else {
        assert(attrset_guarded(t, i));
        assert(!is_desc_entry(t, cs[k] as int));
        lemma_descs_empty(t, i, cs, k + 1, opt);
    }
}

proof fn lemma_children_empty(t: Seq<Node>, cs: Seq<usize>, k: int, i: int)
    requires
        fully_migrated(t),
        0 <= i < t.len(),
    ensures
        children_cands(t, cs, k, i).len() == 0,
    decreases t.len() - i, 0int, cs.len() - k,
{
    if k < 0 || k >= cs.len() {
    } else {
        let c = cs[k] as int;
        if i < c < t.len() {
            lemma_node_empty(t, c, false);
        }
        lemma_children_empty(t, cs, k + 1, i);
    }
}

proof fn lemma_node_empty(t: Seq<Node>, i: int, opt: bool)
    requires
        fully_migrated(t),
        0 <= i < t.len(),
    ensures
        node_cands(t, i, opt).len() == 0,
    decreases t.len() - i, 1int, 0int,
{
    if t[i].kind is Apply {
        if t[i].children@.len() >= 2 {
            let arg = t[i].children@[1] as int;
            if i < arg < t.len() {
                assert(apply_guarded(t, i));
                lemma_node_empty(t, arg, is_option_ctor(t, i));
            }
        } else {
            lemma_children_empty(t, t[i].children@, 0, i);
        }
    } else if t[i].kind is AttrSet {
        lemma_descs_empty(t, i, t[i].children@, 0, opt);
        lemma_children_empty(t, t[i].children@, 0, i);
    } else {
        lemma_children_empty(t, t[i].children@, 0, i);
    }
}

/// Idempotence of migration, at the tree level: on a tree whose every
/// candidate site already carries the migrated marker, the locator finds
/// no candidate at all.
pub proof fn lemma_migrated_tree_has_no_candidates(t: Seq<Node>)
    requires
        fully_migrated(t),
    ensures
        tree_cands(t).len() == 0,
{
    if t.len() > 0 {
        lemma_node_empty(t, 0, false);
    }
}

/// Sorts candidates by non-increasing start offset; the result holds
/// exactly the given candidates.
pub fn sort_candidates(v: Vec<Candidate>) -> (out: Vec<Candidate>)
    ensures
        sorted_desc(out@),
        out@.to_multiset() == v@.to_multiset(),
{
    broadcast use vstd::seq_lib::group_to_multiset_ensures;

    let mut rest = v;
    let mut out: Vec<Candidate> = Vec::new();
    proof {
        assert(out@.to_multiset().add(rest@.to_multiset()) =~= v@.to_multiset());
    }
    while rest.len() > 0
        invariant
            out@.to_multiset().add(rest@.to_multiset()) == v@.to_multiset(),
            sorted_desc(out@),
            forall|a: int, b: int|
                0 <= a < out@.len() && 0 <= b < rest@.len() ==> #[trigger] out@[a].start
                    >= #[trigger] rest@[b].start,
        decreases rest.len(),
    {
        let mut mi: usize = 0;
        let mut k: usize = 1;
        while k < rest.len()
            invariant
                rest@.len() > 0,
                mi < k,
                k <= rest@.len(),
                forall|a: int| 0 <= a < k ==> rest@[mi as int].start >= #[trigger] rest@[a].start,
            decreases rest.len() - k,
        {
            if rest[k].start > rest[mi].start {
                mi = k;
            }
            k += 1;
        }
        let ghost old_rest = rest@;
        let ghost old_out = out@;
        let c = rest.remove(mi);
        out.push(c);
        proof {
            broadcast use vstd::seq_lib::group_to_multiset_ensures;
            broadcast use vstd::multiset::group_multiset_axioms;

            old_rest.remove_ensures(mi as int);
            assert(old_rest[mi as int] == c);
            assert(old_rest.contains(c));
            assert(old_rest.to_multiset().count(c) > 0);
            assert((old_out.push(c)).to_multiset() =~= old_out.to_multiset().insert(c));
            assert((old_rest.remove(mi as int)).to_multiset() =~= old_rest.to_multiset().remove(
                c,
            ));
            assert(out@.to_multiset().add(rest@.to_multiset()) =~= v@.to_multiset());
            assert forall|b: int| 0 <= b < rest@.len() implies c.start
                >= #[trigger] rest@[b].start by {
                if b < mi {
                    assert(rest@[b] == old_rest[b]);
                } else {
                    assert(rest@[b] == old_rest[b + 1]);
                }
            }
        }
    }
    proof {
        broadcast use vstd::seq_lib::group_to_multiset_ensures;
        broadcast use vstd::multiset::group_multiset_axioms;

        assert(rest@.to_multiset().len() == 0);
        assert(out@.to_multiset().add(rest@.to_multiset()) =~= out@.to_multiset());
    }
    out
}

} // verus!
