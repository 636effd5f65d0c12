//! The conditional query compiler: a query skeleton of literal text,
//! inline arguments, and guarded optional fragments is expanded, ahead
//! of execution, into every reachable combination of its branch points.
//! Each combination is an independent parameterized statement; at call
//! time the guards are evaluated in declaration order and exactly one
//! combination runs.

use vstd::prelude::*;

use crate::backend::{placeholder, spec_placeholder, Backend};
use crate::strutil::{clone_string_vec, join_strings, spec_join};

verus! {

/// Failures of the conditional query compiler.
#[derive(Debug, Clone, Copy, PartialEq, Eq, Structural)]
pub enum QueryError {
    /// The skeleton declares more branch points than the enumeration
    /// limit allows; detected at build time, never at run time.
    BranchCapacityExceeded,
    /// No guard matched at dispatch. With an unconditional fallback
    /// branch this cannot happen; reaching it is a programming defect,
    /// not a recoverable condition.
    UnmatchedBranch,
}

/// A fragment inside a branch point: literal text, or an inline
/// argument given by its expression text.
pub enum QueryFragment {
    Lit(String),
    Arg(String),
}

/// Mathematical model of a fragment.
pub ghost enum FragV {
    Lit(Seq<char>),
    Arg(Seq<char>),
}

impl View for QueryFragment {
    type V = FragV;

    open spec fn view(&self) -> FragV {
        match self {
            QueryFragment::Lit(s) => FragV::Lit(s@),
            QueryFragment::Arg(e) => FragV::Arg(e@),
        }
    }
}

impl DeepView for QueryFragment {
    type V = FragV;

    open spec fn deep_view(&self) -> FragV {
        self.view()
    }
}

/// An optional part of the skeleton: its guard, as the text of the
/// pattern-match that decides it at run time, and the fragments it
/// contributes when the guard holds.
pub struct BranchPoint {
    pub guard: String,
    pub frags: Vec<QueryFragment>,
}

/// One token of a query skeleton. Branch points do not nest.
pub enum QueryToken {
    /// Literal query text.
    Lit(String),
    /// An inline argument: a placeholder in the text, the expression
    /// bound to it.
    Arg(String),
    /// A guarded optional sequence of fragments.
    Branch(BranchPoint),
}

/// Mathematical model of a token.
pub ghost enum TokenV {
    Lit(Seq<char>),
    Arg(Seq<char>),
    Branch(Seq<char>, Seq<FragV>),
}

impl View for QueryToken {
    type V = TokenV;

    open spec fn view(&self) -> TokenV {
        match self {
            QueryToken::Lit(s) => TokenV::Lit(s@),
            QueryToken::Arg(e) => TokenV::Arg(e@),
            QueryToken::Branch(bp) => TokenV::Branch(bp.guard@, bp.frags.deep_view()),
        }
    }
}

impl DeepView for QueryToken {
    type V = TokenV;

    open spec fn deep_view(&self) -> TokenV {
        self.view()
    }
}

/// One fully resolved combination of branch-point decisions: the
/// ordinals of the branch points it includes, the accumulated text
/// parts, and the accumulated argument expressions. The statement's
/// text is the parts joined by single spaces.
#[derive(Debug)]
pub struct QueryBranch {
    pub guards: Vec<usize>,
    pub parts: Vec<String>,
    pub args: Vec<String>,
}

/// Mathematical model of a branch.
#[verifier::ext_equal]
pub ghost struct QueryBranchV {
    pub guards: Seq<usize>,
    pub parts: Seq<Seq<char>>,
    pub args: Seq<Seq<char>>,
}

impl View for QueryBranch {
    type V = QueryBranchV;

    open spec fn view(&self) -> QueryBranchV {
        QueryBranchV {
            guards: self.guards@,
            parts: self.parts.deep_view(),
            args: self.args.deep_view(),
        }
    }
}

impl DeepView for QueryBranch {
    type V = QueryBranchV;

    open spec fn deep_view(&self) -> QueryBranchV {
        self.view()
    }
}

/// The branch every expansion starts from: no guards, no text, no
/// arguments.
pub open spec fn spec_empty_branch() -> QueryBranchV {
    QueryBranchV { guards: Seq::empty(), parts: Seq::empty(), args: Seq::empty() }
}

/// Appending literal text to a branch.
pub open spec fn spec_add_lit(br: QueryBranchV, s: Seq<char>) -> QueryBranchV {
    QueryBranchV { guards: br.guards, parts: br.parts.push(s), args: br.args }
}

/// Appending an inline argument to a branch: the branch's next
/// placeholder joins the text, the expression joins the arguments.
pub open spec fn spec_add_arg(br: QueryBranchV, e: Seq<char>, b: Backend) -> QueryBranchV {
    QueryBranchV {
        guards: br.guards,
        parts: br.parts.push(spec_placeholder(b, br.args.len() as int)),
        args: br.args.push(e),
    }
}

/// Appending a guard to a branch.
pub open spec fn spec_add_guard(br: QueryBranchV, g: usize) -> QueryBranchV {
    QueryBranchV { guards: br.guards.push(g), parts: br.parts, args: br.args }
}

/// Appending a branch point's fragments, left to right.
pub open spec fn spec_add_frags(br: QueryBranchV, frags: Seq<FragV>, b: Backend) -> QueryBranchV
    decreases frags.len(),
{
    if frags.len() == 0 {
        br
    } else {
        let prev = spec_add_frags(br, frags.drop_last(), b);
        match frags.last() {
            FragV::Lit(s) => spec_add_lit(prev, s),
            FragV::Arg(e) => spec_add_arg(prev, e, b),
        }
    }
}

/// How many branch points a skeleton prefix declares.
pub open spec fn spec_bp_count(toks: Seq<TokenV>) -> int
    decreases toks.len(),
{
    if toks.len() == 0 {
        0
    } else {
        spec_bp_count(toks.drop_last())
            + match toks.last() {
                TokenV::Branch(_, _) => 1int,
                _ => 0int,
            }
    }
}

/// How many inline arguments a fragment sequence holds.
pub open spec fn spec_frag_args(frags: Seq<FragV>) -> int
    decreases frags.len(),
{
    if frags.len() == 0 {
        0
    } else {
        spec_frag_args(frags.drop_last())
            + match frags.last() {
                FragV::Arg(_) => 1int,
                _ => 0int,
            }
    }
}

/// An upper bound on how many arguments any one branch can accumulate
/// over a skeleton prefix.
pub open spec fn spec_arg_capacity(toks: Seq<TokenV>) -> int
    decreases toks.len(),
{
    if toks.len() == 0 {
        0
    } else {
        spec_arg_capacity(toks.drop_last())
            + match toks.last() {
                TokenV::Lit(_) => 0int,
                TokenV::Arg(_) => 1int,
                TokenV::Branch(_, frags) => spec_frag_args(frags),
            }
    }
}

/// One expansion step. A literal or argument token joins every branch
/// in progress. A branch point doubles the list: the branches extended
/// with its guard and fragments come first, the unchanged originals
/// after them.
pub open spec fn spec_step(bs: Seq<QueryBranchV>, tok: TokenV, cnt: int, b: Backend) -> Seq<
    QueryBranchV,
> {
    match tok {
        TokenV::Lit(s) => bs.map_values(|br: QueryBranchV| spec_add_lit(br, s)),
        TokenV::Arg(e) => bs.map_values(|br: QueryBranchV| spec_add_arg(br, e, b)),
        TokenV::Branch(_, frags) => bs.map_values(
            |br: QueryBranchV| spec_add_frags(spec_add_guard(br, cnt as usize), frags, b),
        ) + bs,
    }
}

/// The branch list after expanding the first `n` tokens.
pub open spec fn spec_expand_upto(toks: Seq<TokenV>, n: int, b: Backend) -> Seq<QueryBranchV>
    decreases n,
{
    if n <= 0 {
        seq![spec_empty_branch()]
    } else {
        spec_step(
            spec_expand_upto(toks, n - 1, b),
            toks[n - 1],
            spec_bp_count(toks.take(n - 1)),
            b,
        )
    }
}

/// The whole skeleton's branch list.
pub open spec fn spec_expand(toks: Seq<TokenV>, b: Backend) -> Seq<QueryBranchV> {
    spec_expand_upto(toks, toks.len() as int, b)
}

/// Whether a branch's guards all hold under a truth assignment, one
/// value per branch point in declaration order.
pub open spec fn spec_guards_hold(br: QueryBranchV, truth: Seq<bool>) -> bool {
    forall|j: int|
        0 <= j < br.guards.len() ==> ((#[trigger] br.guards[j]) < truth.len() && truth[br.guards[j]
            as int])
}

/// The first branch whose guards all hold: branches are tested as an
/// ordered chain, not as a set.
pub open spec fn spec_select(bs: Seq<QueryBranchV>, truth: Seq<bool>) -> Option<int>
    decreases bs.len(),
{
    if bs.len() == 0 {
        None
    } else if spec_guards_hold(bs[0], truth) {
        Some(0)
    } else {
        match spec_select(bs.drop_first(), truth) {
            Some(i) => Some(i + 1),
            None => None,
        }
    }
}

/// The one branch a truth assignment describes, built directly: every
/// unconditional token joins it, and a branch point's fragments join it
/// exactly when the point's truth value is set.
pub open spec fn spec_direct_upto(toks: Seq<TokenV>, truth: Seq<bool>, b: Backend, n: int) -> QueryBranchV
    decreases n,
{
    if n <= 0 {
        spec_empty_branch()
    } else {
        let prev = spec_direct_upto(toks, truth, b, n - 1);
        let cnt = spec_bp_count(toks.take(n - 1));
        match toks[n - 1] {
            TokenV::Lit(s) => spec_add_lit(prev, s),
            TokenV::Arg(e) => spec_add_arg(prev, e, b),
            TokenV::Branch(_, frags) => if truth[cnt] {
                spec_add_frags(spec_add_guard(prev, cnt as usize), frags, b)
            } else {
                prev
            },
        }
    }
}

/// The branch a truth assignment selects from the whole skeleton.
pub open spec fn spec_direct(toks: Seq<TokenV>, truth: Seq<bool>, b: Backend) -> QueryBranchV {
    spec_direct_upto(toks, truth, b, toks.len() as int)
}

/// Appending fragments changes neither the guards nor removes
/// arguments: it adds exactly the fragments' arguments.
pub proof fn lemma_add_frags_props(br: QueryBranchV, frags: Seq<FragV>, b: Backend)
    ensures
        spec_add_frags(br, frags, b).guards == br.guards,
        spec_add_frags(br, frags, b).args.len() == br.args.len() + spec_frag_args(frags),
        spec_frag_args(frags) >= 0,
    decreases frags.len(),
{
    if frags.len() > 0 {
        lemma_add_frags_props(br, frags.drop_last(), b);
    }
}

/// A fragment prefix holds no more arguments than the whole sequence.
pub proof fn lemma_frag_args_mono(frags: Seq<FragV>, k: int)
    requires
        0 <= k <= frags.len(),
    ensures
        spec_frag_args(frags.take(k)) <= spec_frag_args(frags),
        spec_frag_args(frags.take(k)) >= 0,
    decreases frags.len(),
{
    if k == frags.len() {
        assert(frags.take(k) =~= frags);
        lemma_frag_args_nonneg(frags);
    } else {
        lemma_frag_args_mono(frags.drop_last(), k);
        assert(frags.drop_last().take(k) =~= frags.take(k));
        lemma_frag_args_nonneg(frags.drop_last());
    }
}

/// Fragment argument counts are never negative.
pub proof fn lemma_frag_args_nonneg(frags: Seq<FragV>)
    ensures
        spec_frag_args(frags) >= 0,
    decreases frags.len(),
{
    if frags.len() > 0 {
        lemma_frag_args_nonneg(frags.drop_last());
    }
}

/// Branch-point counts lie between zero and the prefix length.
pub proof fn lemma_bp_count_bounds(toks: Seq<TokenV>)
    ensures
        0 <= spec_bp_count(toks) <= toks.len(),
    decreases toks.len(),
{
    if toks.len() > 0 {
        lemma_bp_count_bounds(toks.drop_last());
    }
}

/// Argument capacities are never negative.
pub proof fn lemma_capacity_nonneg(toks: Seq<TokenV>)
    ensures
        spec_arg_capacity(toks) >= 0,
    decreases toks.len(),
{
    if toks.len() > 0 {
        lemma_capacity_nonneg(toks.drop_last());
        match toks.last() {
            TokenV::Branch(_, frags) => lemma_frag_args_nonneg(frags),
            _ => (),
        }
    }
}

/// A prefix's argument capacity never exceeds the whole skeleton's.
pub proof fn lemma_capacity_mono(toks: Seq<TokenV>, n: int)
    requires
        0 <= n <= toks.len(),
    ensures
        spec_arg_capacity(toks.take(n)) <= spec_arg_capacity(toks),
        spec_arg_capacity(toks.take(n)) >= 0,
    decreases toks.len(),
{
    if n == toks.len() {
        assert(toks.take(n) =~= toks);
        lemma_capacity_nonneg(toks);
    } else {
        lemma_capacity_mono(toks.drop_last(), n);
        assert(toks.drop_last().take(n) =~= toks.take(n));
        match toks.last() {
            TokenV::Branch(_, frags) => lemma_frag_args_nonneg(frags),
            _ => (),
        }
    }
}

/// No branch of an expanded prefix accumulates more arguments than the
/// prefix's capacity.
pub proof fn lemma_expand_args_bounded(toks: Seq<TokenV>, n: int, b: Backend)
    requires
        0 <= n <= toks.len(),
    ensures
        forall|i: int|
            0 <= i < spec_expand_upto(toks, n, b).len()
                ==> (#[trigger] spec_expand_upto(toks, n, b)[i]).args.len() <= spec_arg_capacity(
                toks.take(n),
            ),
    decreases n,
{
    if n == 0 {
        assert(toks.take(0) =~= Seq::<TokenV>::empty());
    } else {
        lemma_expand_args_bounded(toks, n - 1, b);
        let bs = spec_expand_upto(toks, n - 1, b);
        let cur = spec_expand_upto(toks, n, b);
        let cnt = spec_bp_count(toks.take(n - 1));
        assert(toks.take(n).drop_last() =~= toks.take(n - 1));
        assert(toks.take(n).last() == toks[n - 1]);
        assert forall|i: int| 0 <= i < cur.len() implies (#[trigger] cur[i]).args.len()
            <= spec_arg_capacity(toks.take(n)) by {
            match toks[n - 1] {
                TokenV::Lit(s) => {
                    assert(cur[i] == spec_add_lit(bs[i], s));
                },
                TokenV::Arg(e) => {
                    assert(cur[i] == spec_add_arg(bs[i], e, b));
                },
                TokenV::Branch(g, frags) => {
                    lemma_frag_args_nonneg(frags);
                    if i < bs.len() {
                        assert(cur[i] == spec_add_frags(
                            spec_add_guard(bs[i], cnt as usize),
                            frags,
                            b,
                        ));
                        lemma_add_frags_props(spec_add_guard(bs[i], cnt as usize), frags, b);
                    } else {
                        assert(cur[i] == bs[i - bs.len()]);
                    }
                },
            }
        }
    }
}

fn clone_usize_vec(v: &Vec<usize>) -> (r: Vec<usize>)
    ensures
        r@ == v@,
{
    let n = v.len();
    let mut r: Vec<usize> = Vec::new();
    let mut i: usize = 0;
    while i < n
        invariant
            i <= n,
            n == v@.len(),
            r@ == v@.take(i as int),
        decreases n - i,
    {
        r.push(v[i]);
        proof {
            assert(r@ =~= v@.take(i + 1));
        }
        i = i + 1;
    }
    proof {
        assert(v@.take(n as int) =~= v@);
    }
    r
}

impl Clone for QueryBranch {
    fn clone(&self) -> (r: Self)
        ensures
            r@ == self@,
    {
        QueryBranch {
            guards: clone_usize_vec(&self.guards),
            parts: clone_string_vec(&self.parts),
            args: clone_string_vec(&self.args),
        }
    }
}

/// Expands a skeleton into its complete branch list, ahead of any
/// execution. Fails, at build time, exactly when the skeleton declares
/// more branch points than `limit` allows; it never truncates.
pub fn build_branches(tokens: &Vec<QueryToken>, b: Backend, limit: u64) -> (r: Result<
    Vec<QueryBranch>,
    QueryError,
>)
    requires
        spec_arg_capacity(tokens.deep_view()) < u64::MAX,
    ensures
        r is Ok <==> spec_bp_count(tokens.deep_view()) <= limit,
        r matches Ok(bs) ==> bs.deep_view() == spec_expand(tokens.deep_view(), b),
        r matches Err(e) ==> e == QueryError::BranchCapacityExceeded,
{
    let ghost tv = tokens.deep_view();
    let n = tokens.len();
    proof {
        assert(tv.len() == n as int);
    }
    // Count the branch points first: the enumeration doubles on each,
    // so the limit is enforced before any expansion happens.
    let mut count: usize = 0;
    let mut i: usize = 0;
    while i < n
        invariant
            i <= n,
            n == tokens@.len(),
            tv == tokens.deep_view(),
            tv.len() == n as int,
            count <= i,
            count as int == spec_bp_count(tv.take(i as int)),
        decreases n - i,
    {
        proof {
            assert(tv.take(i + 1).drop_last() =~= tv.take(i as int));
            assert(tv.take(i + 1).last() == tv[i as int]);
            assert(tv[i as int] == tokens@[i as int]@);
        }
        match &tokens[i] {
            QueryToken::Branch(_) => {
                count = count + 1;
            },
            _ => {},
        }
        i = i + 1;
    }
    proof {
        assert(tv.take(n as int) =~= tv);
    }
    if count as u64 > limit {
        return Err(QueryError::BranchCapacityExceeded);
    }
    // Expand left to right, starting from the one unconditional branch.
    let mut brs: Vec<QueryBranch> = Vec::new();
    brs.push(QueryBranch { guards: Vec::new(), parts: Vec::new(), args: Vec::new() });
    proof {
        assert(brs.deep_view() =~~= seq![spec_empty_branch()]);
        assert(tv.take(0) =~= Seq::<TokenV>::empty());
    }
    let mut bp_idx: usize = 0;
    let mut i: usize = 0;
    while i < n
        invariant
            i <= n,
            n == tokens@.len(),
            tv == tokens.deep_view(),
            tv.len() == n as int,
            spec_arg_capacity(tv) < u64::MAX,
            bp_idx <= i,
            bp_idx as int == spec_bp_count(tv.take(i as int)),
            brs.deep_view() == spec_expand_upto(tv, i as int, b),
        decreases n - i,
    {
        let ghost bs_v = brs.deep_view();
        let ghost cnt = spec_bp_count(tv.take(i as int));
        proof {
            assert(tv.take(i + 1).drop_last() =~= tv.take(i as int));
            assert(tv.take(i + 1).last() == tv[i as int]);
            assert(tv[i as int] == tokens@[i as int]@);
            lemma_expand_args_bounded(tv, i as int, b);
            lemma_capacity_mono(tv, i as int);
            lemma_capacity_mono(tv, i + 1);
        }
        let m = brs.len();
        match &tokens[i] {
            QueryToken::Lit(s) => {
                let mut next: Vec<QueryBranch> = Vec::new();
                let mut j: usize = 0;
                while j < m
                    invariant
                        j <= m,
                        m == brs@.len(),
                        bs_v == brs.deep_view(),
                        tv[i as int] is Lit,
                        s@ == tv[i as int]->Lit_0,
                        next@.len() == j,
                        forall|jj: int|
                            0 <= jj < j ==> (#[trigger] next@[jj])@ == spec_add_lit(
                                bs_v[jj],
                                s@,
                            ),
                    decreases m - j,
                {
                    let mut nb = brs[j].clone();
                    nb.parts.push(s.clone());
                    proof {
                        assert(nb@.parts =~= bs_v[j as int].parts.push(s@));
                        assert(nb@ =~= spec_add_lit(bs_v[j as int], s@));
                    }
                    next.push(nb);
                    j = j + 1;
                }
                brs = next;
                proof {
                    assert(spec_step(bs_v, tv[i as int], cnt, b).len() == m);
                    assert(brs.deep_view() =~= spec_step(bs_v, tv[i as int], cnt, b));
                }
            },
            QueryToken::Arg(e) => {
                let mut next: Vec<QueryBranch> = Vec::new();
                let mut j: usize = 0;
                while j < m
                    invariant
                        j <= m,
                        m == brs@.len(),
                        bs_v == brs.deep_view(),
                        tv[i as int] is Arg,
                        e@ == tv[i as int]->Arg_0,
                        forall|jj: int|
                            0 <= jj < bs_v.len() ==> (#[trigger] bs_v[jj]).args.len()
                                < u64::MAX,
                        next@.len() == j,
                        forall|jj: int|
                            0 <= jj < j ==> (#[trigger] next@[jj])@ == spec_add_arg(
                                bs_v[jj],
                                e@,
                                b,
                            ),
                    decreases m - j,
                {
                    let mut nb = brs[j].clone();
                    let al = nb.args.len();
                    proof {
                        assert(nb@ == bs_v[j as int]);
                        assert(al as int == bs_v[j as int].args.len());
                    }
                    let ph = placeholder(b, al as u64);
                    nb.parts.push(ph);
                    nb.args.push(e.clone());
                    proof {
                        assert(nb@.parts =~= bs_v[j as int].parts.push(
                            spec_placeholder(b, bs_v[j as int].args.len() as int),
                        ));
                        assert(nb@.args =~= bs_v[j as int].args.push(e@));
                        assert(nb@ =~= spec_add_arg(bs_v[j as int], e@, b));
                    }
                    next.push(nb);
                    j = j + 1;
                }
                brs = next;
                proof {
                    assert(spec_step(bs_v, tv[i as int], cnt, b).len() == m);
                    assert(brs.deep_view() =~= spec_step(bs_v, tv[i as int], cnt, b));
                }
            },
            QueryToken::Branch(bp) => {
                let ghost fv = bp.frags.deep_view();
                let nf = bp.frags.len();
                let mut next: Vec<QueryBranch> = Vec::new();
                let mut j: usize = 0;
                while j < m
                    invariant
                        j <= m,
                        m == brs@.len(),
                        bs_v == brs.deep_view(),
                        tv[i as int] matches TokenV::Branch(_, f) && f == fv,
                        fv == bp.frags.deep_view(),
                        nf == bp.frags@.len(),
                        bp_idx as int == cnt,
                        spec_arg_capacity(tv.take(i as int)) + spec_frag_args(fv)
                            <= spec_arg_capacity(tv.take(i + 1)),
                        spec_arg_capacity(tv.take(i + 1)) <= spec_arg_capacity(tv),
                        spec_arg_capacity(tv) < u64::MAX,
                        forall|jj: int|
                            0 <= jj < bs_v.len() ==> (#[trigger] bs_v[jj]).args.len()
                                <= spec_arg_capacity(tv.take(i as int)),
                        next@.len() == j,
                        forall|jj: int|
                            0 <= jj < j ==> (#[trigger] next@[jj])@ == spec_add_frags(
                                spec_add_guard(bs_v[jj], bp_idx),
                                fv,
                                b,
                            ),
                    decreases m - j,
                {
                    let mut nb = brs[j].clone();
                    nb.guards.push(bp_idx);
                    let ghost start = spec_add_guard(bs_v[j as int], bp_idx);
                    proof {
                        assert(nb@.guards =~= start.guards);
                        assert(nb@ =~= start);
                        assert(fv.take(0) =~= Seq::<FragV>::empty());
                        lemma_frag_args_nonneg(fv);
                    }
                    let mut k: usize = 0;
                    while k < nf
                        invariant
                            k <= nf,
                            nf == bp.frags@.len(),
                            fv == bp.frags.deep_view(),
                            start.args.len() + spec_frag_args(fv) < u64::MAX,
                            nb@ == spec_add_frags(start, fv.take(k as int), b),
                        decreases nf - k,
                    {
                        proof {
                            assert(fv.take(k + 1).drop_last() =~= fv.take(k as int));
                            assert(fv.take(k + 1).last() == fv[k as int]);
                            assert(fv[k as int] == bp.frags@[k as int]@);
                            lemma_add_frags_props(start, fv.take(k as int), b);
                            lemma_frag_args_mono(fv, k as int);
                        }
                        match &bp.frags[k] {
                            QueryFragment::Lit(s) => {
                                nb.parts.push(s.clone());
                                proof {
                                    assert(nb@.parts =~= spec_add_frags(
                                        start,
                                        fv.take(k as int),
                                        b,
                                    ).parts.push(s@));
                                    assert(nb@ =~= spec_add_lit(
                                        spec_add_frags(start, fv.take(k as int), b),
                                        s@,
                                    ));
                                }
                            },
                            QueryFragment::Arg(e) => {
                                let al = nb.args.len();
                                let ph = placeholder(b, al as u64);
                                nb.parts.push(ph);
                                nb.args.push(e.clone());
                                proof {
                                    let mid = spec_add_frags(start, fv.take(k as int), b);
                                    assert(nb@.parts =~= mid.parts.push(
                                        spec_placeholder(b, mid.args.len() as int),
                                    ));
                                    assert(nb@.args =~= mid.args.push(e@));
                                    assert(nb@ =~= spec_add_arg(mid, e@, b));
                                }
                            },
                        }
                        k = k + 1;
                    }
                    proof {
                        assert(fv.take(nf as int) =~= fv);
                        assert(nb@ == spec_add_frags(start, fv, b));
                    }
                    next.push(nb);
                    j = j + 1;
                }
                let ghost mapped = next.deep_view();
                next.append(&mut brs);
                brs = next;
                bp_idx = bp_idx + 1;
                proof {
                    assert(brs.deep_view() =~= mapped + bs_v);
                    assert(spec_step(bs_v, tv[i as int], cnt, b) =~= bs_v.map_values(
                        |br: QueryBranchV|
                            spec_add_frags(spec_add_guard(br, cnt as usize), fv, b),
                    ) + bs_v);
                    assert(mapped =~= bs_v.map_values(
                        |br: QueryBranchV|
                            spec_add_frags(spec_add_guard(br, cnt as usize), fv, b),
                    ));
                    assert(bp_idx as int == spec_bp_count(tv.take(i + 1)));
                }
            },
        }
        proof {
            assert(brs.deep_view() =~= spec_expand_upto(tv, i + 1, b));
        }
        i = i + 1;
    }
    proof {
        assert(tv.take(n as int) =~= tv);
    }
    Ok(brs)
}

impl QueryBranch {
    /// The branch's statement text: its parts joined by single spaces.
    pub fn sql(&self) -> (r: String)
        ensures
            r@ == spec_join(self@.parts, " "@),
    {
        proof {
            reveal_strlit(" ");
        }
        join_strings(&self.parts, " ")
    }
}

/// Decides whether every guard of the branch holds under `truth`.
pub fn guards_hold(br: &QueryBranch, truth: &Vec<bool>) -> (r: bool)
    ensures
        r == spec_guards_hold(br@, truth@),
{
    let n = br.guards.len();
    let mut i: usize = 0;
    while i < n
        invariant
            i <= n,
            n == br.guards@.len(),
            forall|j: int|
                0 <= j < i ==> ((#[trigger] br.guards@[j]) < truth@.len() && truth@[br.guards@[j]
                    as int]),
        decreases n - i,
    {
        let g = br.guards[i];
        if g >= truth.len() {
            proof {
                assert(!(br@.guards[i as int] < truth@.len()));
            }
            return false;
        }
        if !truth[g] {
            proof {
                assert(!truth@[br@.guards[i as int] as int]);
            }
            return false;
        }
        i = i + 1;
    }
    true
}

proof fn lemma_select_at(bs: Seq<QueryBranchV>, truth: Seq<bool>, i: int)
    requires
        0 <= i < bs.len(),
        forall|j: int| 0 <= j < i ==> !spec_guards_hold(#[trigger] bs[j], truth),
        spec_guards_hold(bs[i], truth),
    ensures
        spec_select(bs, truth) == Some(i),
    decreases i,
{
    if i > 0 {
        lemma_select_at(bs.drop_first(), truth, i - 1);
    }
}

proof fn lemma_select_none(bs: Seq<QueryBranchV>, truth: Seq<bool>)
    requires
        forall|j: int| 0 <= j < bs.len() ==> !spec_guards_hold(#[trigger] bs[j], truth),
    ensures
        spec_select(bs, truth) is None,
    decreases bs.len(),
{
    if bs.len() > 0 {
        lemma_select_none(bs.drop_first(), truth);
    }
}

/// Finds the first branch whose guards all hold, testing the branches
/// as an ordered chain.
pub fn select_branch(branches: &Vec<QueryBranch>, truth: &Vec<bool>) -> (r: Option<usize>)
    ensures
        (match r {
            Some(i) => Some(i as int),
            None => None,
        }) == spec_select(branches.deep_view(), truth@),
        r matches Some(i) ==> i < branches@.len(),
{
    let n = branches.len();
    let mut i: usize = 0;
    while i < n
        invariant
            i <= n,
            n == branches@.len(),
            forall|j: int|
                0 <= j < i ==> !spec_guards_hold(#[trigger] branches.deep_view()[j], truth@),
        decreases n - i,
    {
        if guards_hold(&branches[i], truth) {
            proof {
                assert(branches.deep_view()[i as int] == branches@[i as int]@);
                lemma_select_at(branches.deep_view(), truth@, i as int);
            }
            return Some(i);
        }
        proof {
            assert(branches.deep_view()[i as int] == branches@[i as int]@);
        }
        i = i + 1;
    }
    proof {
        lemma_select_none(branches.deep_view(), truth@);
    }
    None
}

/// Dispatches one call: the first branch whose guards hold runs. With
/// no match the dispatch traps with `UnmatchedBranch` instead of
/// silently returning nothing; a skeleton whose last-declared branch is
/// unconditional can never reach it.
pub fn dispatch(branches: &Vec<QueryBranch>, truth: &Vec<bool>) -> (r: Result<usize, QueryError>)
    ensures
        r matches Ok(i) ==> spec_select(branches.deep_view(), truth@) == Some(i as int) && i
            < branches@.len(),
        r is Err <==> spec_select(branches.deep_view(), truth@) is None,
        r matches Err(e) ==> e == QueryError::UnmatchedBranch,
{
    match select_branch(branches, truth) {
        Some(i) => Ok(i),
        None => Err(QueryError::UnmatchedBranch),
    }
}

proof fn lemma_select_map_equiv(
    bs: Seq<QueryBranchV>,
    truth: Seq<bool>,
    f: spec_fn(QueryBranchV) -> QueryBranchV,
)
    requires
        forall|i: int|
            0 <= i < bs.len() ==> (spec_guards_hold(f(#[trigger] bs[i]), truth)
                <==> spec_guards_hold(bs[i], truth)),
    ensures
        spec_select(bs.map_values(f), truth) == spec_select(bs, truth),
    decreases bs.len(),
{
    if bs.len() > 0 {
        assert(bs.map_values(f)[0] == f(bs[0]));
        assert(bs.map_values(f).drop_first() =~= bs.drop_first().map_values(f));
        assert forall|i: int| 0 <= i < bs.drop_first().len() implies (spec_guards_hold(
            f(#[trigger] bs.drop_first()[i]),
            truth,
        ) <==> spec_guards_hold(bs.drop_first()[i], truth)) by {
            assert(bs.drop_first()[i] == bs[i + 1]);
        }
        lemma_select_map_equiv(bs.drop_first(), truth, f);
    }
}

proof fn lemma_select_concat(a: Seq<QueryBranchV>, c: Seq<QueryBranchV>, truth: Seq<bool>)
    ensures
        spec_select(a + c, truth) == (match spec_select(a, truth) {
            Some(i) => Some(i),
            None => match spec_select(c, truth) {
                Some(j) => Some(a.len() + j),
                None => None::<int>,
            },
        }),
    decreases a.len(),
{
    if a.len() == 0 {
        assert(a + c =~= c);
    } else {
        assert((a + c)[0] == a[0]);
        assert((a + c).drop_first() =~= a.drop_first() + c);
        lemma_select_concat(a.drop_first(), c, truth);
    }
}

proof fn lemma_bp_count_mono(toks: Seq<TokenV>, n: int)
    requires
        0 <= n <= toks.len(),
    ensures
        spec_bp_count(toks.take(n)) <= spec_bp_count(toks),
    decreases toks.len(),
{
    if n == toks.len() {
        assert(toks.take(n) =~= toks);
    } else {
        lemma_bp_count_mono(toks.drop_last(), n);
        assert(toks.drop_last().take(n) =~= toks.take(n));
        lemma_bp_count_bounds(toks.drop_last());
    }
}

proof fn lemma_dispatch_first_match(toks: Seq<TokenV>, truth: Seq<bool>, b: Backend, n: int)
    requires
        0 <= n <= toks.len(),
        toks.len() <= usize::MAX,
        spec_bp_count(toks) <= truth.len(),
    ensures
        spec_select(spec_expand_upto(toks, n, b), truth) matches Some(sel) && 0 <= sel
            < spec_expand_upto(toks, n, b).len() && spec_expand_upto(toks, n, b)[sel]
            == spec_direct_upto(toks, truth, b, n),
    decreases n,
{
    lemma_bp_count_bounds(toks);
    if n == 0 {
        let bs = spec_expand_upto(toks, 0, b);
        assert(bs[0] == spec_empty_branch());
        assert(spec_guards_hold(bs[0], truth));
        assert(spec_select(bs, truth) == Some(0int));
    } else {
        lemma_dispatch_first_match(toks, truth, b, n - 1);
        let bs = spec_expand_upto(toks, n - 1, b);
        let cur = spec_expand_upto(toks, n, b);
        let cnt = spec_bp_count(toks.take(n - 1));
        let sel = match spec_select(bs, truth) {
            Some(i) => i,
            None => 0,
        };
        assert(toks.take(n).drop_last() =~= toks.take(n - 1));
        assert(toks.take(n).last() == toks[n - 1]);
        lemma_bp_count_mono(toks, n);
        lemma_bp_count_bounds(toks.take(n - 1));
        match toks[n - 1] {
            TokenV::Lit(s) => {
                let f = |br: QueryBranchV| spec_add_lit(br, s);
                assert forall|i: int| 0 <= i < bs.len() implies (spec_guards_hold(
                    f(#[trigger] bs[i]),
                    truth,
                ) <==> spec_guards_hold(bs[i], truth)) by {
                    assert(f(bs[i]).guards == bs[i].guards);
                }
                lemma_select_map_equiv(bs, truth, f);
                assert(cur == bs.map_values(f));
                assert(cur[sel] == f(bs[sel]));
            },
            TokenV::Arg(e) => {
                let f = |br: QueryBranchV| spec_add_arg(br, e, b);
                assert forall|i: int| 0 <= i < bs.len() implies (spec_guards_hold(
                    f(#[trigger] bs[i]),
                    truth,
                ) <==> spec_guards_hold(bs[i], truth)) by {
                    assert(f(bs[i]).guards == bs[i].guards);
                }
                lemma_select_map_equiv(bs, truth, f);
                assert(cur == bs.map_values(f));
                assert(cur[sel] == f(bs[sel]));
            },
            TokenV::Branch(g, frags) => {
                let f = |br: QueryBranchV| spec_add_frags(spec_add_guard(br, cnt as usize), frags, b);
                let mapped = bs.map_values(f);
                assert(cur == mapped + bs);
                // The new guard's truth value exists: this branch point's
                // ordinal is below the total count.
                assert(spec_bp_count(toks.take(n)) == cnt + 1);
                assert(cnt + 1 <= spec_bp_count(toks)) by {
                    lemma_bp_count_mono(toks, n);
                }
                assert(0 <= cnt < truth.len());
                assert(cnt <= toks.len());
                assert((cnt as usize) as int == cnt);
                assert forall|i: int| 0 <= i < bs.len() implies (#[trigger] mapped[i]).guards
                    == bs[i].guards.push(cnt as usize) by {
                    lemma_add_frags_props(spec_add_guard(bs[i], cnt as usize), frags, b);
                }
                if truth[cnt] {
                    // Every clone's guard list gains a guard that holds,
                    // so selection lands on the same position, now
                    // carrying the fragments.
                    assert forall|i: int| 0 <= i < bs.len() implies (spec_guards_hold(
                        f(#[trigger] bs[i]),
                        truth,
                    ) <==> spec_guards_hold(bs[i], truth)) by {
                        let pg = bs[i].guards.push(cnt as usize);
                        assert(mapped[i] == f(bs[i]));
                        if spec_guards_hold(bs[i], truth) {
                            assert forall|j: int| 0 <= j < pg.len() implies ((#[trigger] pg[j])
                                < truth.len() && truth[pg[j] as int]) by {
                                if j < bs[i].guards.len() {
                                    assert(pg[j] == bs[i].guards[j]);
                                } else {
                                    assert(pg[j] == cnt as usize);
                                }
                            }
                        }
                        if spec_guards_hold(f(bs[i]), truth) {
                            assert forall|j: int| 0 <= j < bs[i].guards.len() implies ((
                            #[trigger] bs[i].guards[j]) < truth.len() && truth[bs[i].guards[j]
                                as int]) by {
                                assert(pg[j] == bs[i].guards[j]);
                            }
                        }
                    }
                    lemma_select_map_equiv(bs, truth, f);
                    lemma_select_concat(mapped, bs, truth);
                    assert(spec_select(cur, truth) == Some(sel));
                    assert(cur[sel] == mapped[sel]);
                    assert(mapped[sel] == f(bs[sel]));
                } else {
                    // No clone can match: each carries the failed guard.
                    // Selection falls through to the unchanged originals.
                    assert forall|i: int| 0 <= i < mapped.len() implies !spec_guards_hold(
                        #[trigger] mapped[i],
                        truth,
                    ) by {
                        let pg = bs[i].guards.push(cnt as usize);
                        assert(pg[pg.len() - 1] == cnt as usize);
                        assert(!truth[cnt]);
                    }
                    lemma_select_none(mapped, truth);
                    lemma_select_concat(mapped, bs, truth);
                    assert(spec_select(cur, truth) == Some(mapped.len() + sel));
                    assert(cur[mapped.len() + sel] == bs[sel]);
                }
            },
        }
    }
}

/// For every assignment of truth values to the branch points, dispatch
/// selects exactly one branch, and that branch is precisely the one
/// built by walking the skeleton once and keeping each branch point's
/// fragments if and only if its guard holds: its text is the kept
/// fragments in skeleton order, its arguments are the kept expressions
/// in skeleton order. In particular a dispatch over a fully expanded
/// skeleton never reaches `UnmatchedBranch`.
pub proof fn theorem_first_match_dispatch(toks: Seq<TokenV>, truth: Seq<bool>, b: Backend)
    requires
        toks.len() <= usize::MAX,
        spec_bp_count(toks) <= truth.len(),
    ensures
        spec_select(spec_expand(toks, b), truth) matches Some(sel) && 0 <= sel < spec_expand(
            toks,
            b,
        ).len() && spec_expand(toks, b)[sel] == spec_direct(toks, truth, b),
{
    lemma_dispatch_first_match(toks, truth, b, toks.len() as int);
}

/// The enumeration is combinatorial: each branch point doubles the
/// branch list, so a skeleton with `n` branch points expands into
/// exactly `2^n` variants. This is why the compiler imposes the branch
/// limit at build time.
pub proof fn lemma_expansion_doubles(toks: Seq<TokenV>, b: Backend)
    ensures
        spec_expand(toks, b).len() == vstd::arithmetic::power2::pow2(spec_bp_count(toks) as nat),
{
    lemma_bp_count_bounds(toks);
    lemma_expand_upto_len(toks, toks.len() as int, b);
    assert(toks.take(toks.len() as int) =~= toks);
}

proof fn lemma_expand_upto_len(toks: Seq<TokenV>, n: int, b: Backend)
    requires
        0 <= n <= toks.len(),
    ensures
        spec_expand_upto(toks, n, b).len() == vstd::arithmetic::power2::pow2(
            spec_bp_count(toks.take(n)) as nat,
        ),
    decreases n,
{
    lemma_bp_count_bounds(toks.take(n));
    if n == 0 {
        assert(toks.take(0) =~= Seq::<TokenV>::empty());
        vstd::arithmetic::power2::lemma2_to64();
    } else {
        lemma_expand_upto_len(toks, n - 1, b);
        assert(toks.take(n).drop_last() =~= toks.take(n - 1));
        assert(toks.take(n).last() == toks[n - 1]);
        lemma_bp_count_bounds(toks.take(n - 1));
        let bs = spec_expand_upto(toks, n - 1, b);
        match toks[n - 1] {
            TokenV::Lit(s) => {
                assert(spec_expand_upto(toks, n, b).len() == bs.len());
            },
            TokenV::Arg(e) => {
                assert(spec_expand_upto(toks, n, b).len() == bs.len());
            },
            TokenV::Branch(g, frags) => {
                assert(spec_expand_upto(toks, n, b).len() == 2 * bs.len());
                assert(spec_bp_count(toks.take(n)) == spec_bp_count(toks.take(n - 1)) + 1);
                vstd::arithmetic::power2::lemma_pow2_unfold(spec_bp_count(toks.take(n)) as nat);
            },
        }
    }
}

} // verus!
