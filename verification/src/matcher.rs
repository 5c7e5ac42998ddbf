use vstd::prelude::*;

verus! {

use crate::Span;
use crate::bignum::Big;
use crate::expression::Expression;
use crate::expression::ExpressionValue;

/// The kinds of token the matcher distinguishes; the tokenizer that produces
/// them is a collaborator outside this crate's core.
#[derive(Copy, Clone, Debug, PartialEq, Eq, Structural)]
pub enum TokenKind {
    Identifier,
    Number,
    StringLit,
    Comma,
    Colon,
    Hash,
    Plus,
    Minus,
    Star,
    Slash,
    Equal,
    LessThan,
    GreaterThan,
    ParenOpen,
    ParenClose,
}

/// One token of an input line. The tokenizer supplies the excerpt text of
/// identifier-like tokens and the numeric value of number tokens.
#[derive(Debug)]
pub struct Token {
    pub kind: TokenKind,
    pub excerpt: Option<String>,
    pub value: u64,
    pub span: Span,
}

/// A cursor over the tokens of one input line. The end of the vector is the
/// line boundary; a checkpoint is the cursor position, so backtracking is an
/// O(1) restore.
#[derive(Debug)]
pub struct TokenStream {
    pub tokens: Vec<Token>,
    pub pos: usize,
}

impl TokenStream {
    pub open spec fn wf(&self) -> bool {
        self.pos <= self.tokens@.len()
    }

    pub fn new(tokens: Vec<Token>) -> (r: TokenStream)
        ensures
            r.wf(),
            r.tokens@ == tokens@,
            r.pos == 0,
    {
        TokenStream { tokens, pos: 0 }
    }

    /// Whether the cursor stands at the line boundary.
    pub fn next_is_linebreak(&self) -> (r: bool)
        requires
            self.wf(),
        ensures
            r == (self.pos == self.tokens@.len()),
    {
        self.pos == self.tokens.len()
    }

    /// An opaque checkpoint of the current position.
    pub fn save(&self) -> (r: usize)
        ensures
            r == self.pos,
    {
        self.pos
    }

    /// Returns to a previously saved checkpoint.
    pub fn restore(&mut self, checkpoint: usize)
        requires
            checkpoint <= old(self).tokens@.len(),
        ensures
            final(self).wf(),
            final(self).pos == checkpoint,
            final(self).tokens@ == old(self).tokens@,
    {
        self.pos = checkpoint;
    }

    /// The token under the cursor.
    pub fn peek(&self) -> (r: &Token)
        requires
            self.wf(),
            self.pos < self.tokens@.len(),
        ensures
            *r == self.tokens@[self.pos as int],
    {
        &self.tokens[self.pos]
    }

    /// Consumes one token.
    pub fn advance(&mut self)
        requires
            old(self).wf(),
            old(self).pos < old(self).tokens@.len(),
        ensures
            final(self).wf(),
            final(self).pos == old(self).pos + 1,
            final(self).tokens@ == old(self).tokens@,
    {
        let n = self.tokens.len();
        assert(self.pos < n);
        self.pos = self.pos + 1;
    }
}

/// One atomic unit of a rule's syntax: an exact token requirement (a kind,
/// with optional required text), or a parameter slot identified upstream by
/// its index.
#[derive(Debug)]
pub enum RulePatternPart {
    Exact(TokenKind, Option<String>),
    Parameter(usize),
}

/// One instruction-encoding rule, reduced to what the matcher consumes: its
/// ordered syntax pattern.
#[derive(Debug)]
pub struct Rule {
    pub pattern_parts: Vec<RulePatternPart>,
}

/// The key of an exact edge of the trie: a token kind and optional exact
/// text.
#[derive(Debug, PartialEq, Eq)]
pub struct MatchStepExact(pub TokenKind, pub Option<String>);

/// The spec-level form of optional token text.
pub open spec fn opt_str_model(o: Option<String>) -> Option<Seq<char>> {
    match o {
        Some(s) => Some(s@),
        None => None,
    }
}

/// The spec-level form of an exact-edge key.
pub open spec fn key_model(k: MatchStepExact) -> (TokenKind, Option<Seq<char>>) {
    (k.0, opt_str_model(k.1))
}

/// The key under which a concrete token is looked up: its own kind and text.
pub open spec fn token_key(t: Token) -> (TokenKind, Option<Seq<char>>) {
    (t.kind, opt_str_model(t.excerpt))
}

/// The spec-level label of a trie edge: an exact key, or `None` for the
/// shared parameter edge.
pub open spec fn part_label(p: RulePatternPart) -> Option<(TokenKind, Option<Seq<char>>)> {
    match p {
        RulePatternPart::Exact(kind, text) => Some((kind, opt_str_model(text))),
        RulePatternPart::Parameter(_) => None,
    }
}

/// One node of the trie: the rules whose whole pattern ends here, the exact
/// edges, and the at-most-one shared parameter edge. Edges name their target
/// node by its index in the matcher's node arena. Each node remembers, as
/// ghost state, the label path that leads to it from the root.
pub struct MatchStep {
    pub rule_indices: Vec<usize>,
    pub children_exact: Vec<(MatchStepExact, usize)>,
    pub child_param: Option<usize>,
    pub path: Ghost<Seq<Option<(TokenKind, Option<Seq<char>>)>>>,
}

impl MatchStep {
    fn new(path: Ghost<Seq<Option<(TokenKind, Option<Seq<char>>)>>>) -> (r: MatchStep)
        ensures
            r.rule_indices@.len() == 0,
            r.children_exact@.len() == 0,
            r.child_param is None,
            r.path@ == path@,
    {
        MatchStep {
            rule_indices: Vec::new(),
            children_exact: Vec::new(),
            child_param: None,
            path,
        }
    }
}

pub open spec fn strictly_sorted(s: Seq<usize>) -> bool {
    forall|i: int, j: int| 0 <= i < j < s.len() ==> s[i] < s[j]
}

/// Structural well-formedness of one node: every edge leads strictly forward
/// in the arena (so the trie is acyclic), and the terminal list is strictly
/// ascending.
pub open spec fn node_wf(ns: Seq<MatchStep>, n: int) -> bool {
    &&& forall|j: int|
        0 <= j < ns[n].children_exact@.len() ==> n < (#[trigger] ns[n].children_exact@[j]).1 < ns.len()
    &&& match ns[n].child_param {
        Some(t) => n < t < ns.len(),
        None => true,
    }
    &&& strictly_sorted(ns[n].rule_indices@)
}

pub open spec fn nodes_wf(ns: Seq<MatchStep>) -> bool {
    &&& ns.len() >= 1
    &&& forall|n: int| 0 <= n < ns.len() ==> #[trigger] node_wf(ns, n)
}

/// Every terminal rule index in the arena is below `k`.
pub open spec fn nodes_bounded(ns: Seq<MatchStep>, k: int) -> bool {
    forall|n: int, j: int|
        0 <= n < ns.len() && 0 <= j < ns[n].rule_indices@.len() ==> (#[trigger] ns[n].rule_indices@[j])
            < k
}

/// The target of the first exact edge with the given key, if any.
pub open spec fn first_exact(
    edges: Seq<(MatchStepExact, usize)>,
    key: (TokenKind, Option<Seq<char>>),
) -> Option<usize>
    decreases edges.len(),
{
    if edges.len() == 0 {
        None
    } else if key_model(edges.first().0) == key {
        Some(edges.first().1)
    } else {
        first_exact(edges.drop_first(), key)
    }
}

/// The node an edge label leads to from node `n`, if any.
pub open spec fn step_target(
    ns: Seq<MatchStep>,
    n: int,
    l: Option<(TokenKind, Option<Seq<char>>)>,
) -> Option<usize> {
    match l {
        Some(key) => first_exact(ns[n].children_exact@, key),
        None => ns[n].child_param,
    }
}

/// The node a whole label path leads to from node `n`, if any.
pub open spec fn walk_from(
    ns: Seq<MatchStep>,
    n: usize,
    p: Seq<Option<(TokenKind, Option<Seq<char>>)>>,
) -> Option<usize>
    decreases p.len(),
{
    if p.len() == 0 {
        Some(n)
    } else {
        match step_target(ns, n as int, p.first()) {
            Some(t) => walk_from(ns, t, p.drop_first()),
            None => None,
        }
    }
}

/// How many parameter edges a label path traverses.
pub open spec fn count_params(p: Seq<Option<(TokenKind, Option<Seq<char>>)>>) -> nat
    decreases p.len(),
{
    if p.len() == 0 {
        0
    } else {
        (if p.first() is None {
            1nat
        } else {
            0nat
        }) + count_params(p.drop_first())
    }
}

/// The exact-edge labels spelled by the tokens of a line from position
/// `from`: each token keys an exact edge by its own kind and text.
pub open spec fn line_keys(tokens: Seq<Token>, from: int) -> Seq<
    Option<(TokenKind, Option<Seq<char>>)>,
> {
    Seq::new((tokens.len() - from) as nat, |i: int| Some(token_key(tokens[from + i])))
}

/// Whether following only exact edges along the given labels from node `n`
/// ends at a node where some rule's whole pattern ends.
pub open spec fn exact_path_accepts(
    ns: Seq<MatchStep>,
    n: usize,
    keys: Seq<Option<(TokenKind, Option<Seq<char>>)>>,
) -> bool {
    match walk_from(ns, n, keys) {
        Some(t) => t < ns.len() && ns[t as int].rule_indices@.len() > 0,
        None => false,
    }
}

/// The label path spelled by a whole pattern: one edge label per part.
pub open spec fn parts_labels(parts: Seq<RulePatternPart>) -> Seq<
    Option<(TokenKind, Option<Seq<char>>)>,
> {
    Seq::new(parts.len(), |i: int| part_label(parts[i]))
}

/// The label path of one rule's whole pattern.
pub open spec fn rule_path(rules: Seq<Rule>, i: int) -> Seq<Option<(TokenKind, Option<Seq<char>>)>> {
    parts_labels(rules[i].pattern_parts@)
}

/// Every edge leads to a node whose recorded path extends the source node's
/// path by that edge's label.
pub open spec fn edge_paths_ok(ns: Seq<MatchStep>, n: int) -> bool {
    &&& forall|j: int|
        0 <= j < ns[n].children_exact@.len() ==> ns[(#[trigger] ns[n].children_exact@[j]).1 as int].path@
            == ns[n].path@.push(Some(key_model(ns[n].children_exact@[j].0)))
    &&& match ns[n].child_param {
        Some(t) => ns[t as int].path@ == ns[n].path@.push(None),
        None => true,
    }
}

/// A node with a non-empty recorded path is the target of a real edge from
/// the node its path's prefix names.
pub open spec fn has_parent_edge(ns: Seq<MatchStep>, n: int) -> bool {
    exists|p: int|
        0 <= p < ns.len() && #[trigger] ns[p].path@ == ns[n].path@.drop_last() && step_target(
            ns,
            p,
            ns[n].path@.last(),
        ) == Some(n as usize)
}

/// The recorded paths tie the arena to the abstract trie: the root's path is
/// empty, no two nodes share a path, edges extend paths by their label, and
/// every non-root node is reachable by its recorded path's last step.
pub open spec fn paths_wf(ns: Seq<MatchStep>) -> bool {
    &&& ns.len() >= 1
    &&& ns[0].path@ == Seq::<Option<(TokenKind, Option<Seq<char>>)>>::empty()
    &&& forall|n1: int, n2: int|
        #![trigger ns[n1].path@, ns[n2].path@]
        0 <= n1 < ns.len() && 0 <= n2 < ns.len() && ns[n1].path@ == ns[n2].path@ ==> n1 == n2
    &&& forall|n: int| 0 <= n < ns.len() ==> #[trigger] edge_paths_ok(ns, n)
    &&& forall|n: int|
        0 <= n < ns.len() && ns[n].path@.len() > 0 ==> #[trigger] has_parent_edge(ns, n)
}

/// Every recorded terminal index below `k` names a rule whose whole pattern
/// spells exactly the path of the node recording it.
pub open spec fn placed_sound(ns: Seq<MatchStep>, rules: Seq<Rule>, k: int) -> bool {
    forall|n: int, ji: int|
        0 <= n < ns.len() && 0 <= ji < ns[n].rule_indices@.len() ==> (#[trigger] ns[n].rule_indices@[ji])
            < k && rule_path(rules, ns[n].rule_indices@[ji] as int) == ns[n].path@
}

/// Every rule below `k` is recorded at a node whose path spells its whole
/// pattern.
pub open spec fn placed_complete(ns: Seq<MatchStep>, rules: Seq<Rule>, k: int) -> bool {
    forall|i: int|
        0 <= i < k ==> exists|n: int|
            0 <= n < ns.len() && (#[trigger] ns[n].path@) == #[trigger] rule_path(rules, i)
                && ns[n].rule_indices@.contains(i as usize)
}

/// Every non-root node's path is a proper start of some rule's whole
/// pattern: the trie holds nothing but shared pattern prefixes.
pub open spec fn paths_are_prefixes(ns: Seq<MatchStep>, rules: Seq<Rule>, k: int) -> bool {
    forall|n: int|
        0 <= n < ns.len() ==> (#[trigger] ns[n].path@).len() == 0 || exists|i: int|
            0 <= i < k && ns[n].path@.is_prefix_of(#[trigger] rule_path(rules, i))
}

/// Every start of every rule's pattern, the empty and the whole one
/// included, has a node in the trie.
pub open spec fn prefixes_present(ns: Seq<MatchStep>, rules: Seq<Rule>, k: int) -> bool {
    forall|i: int, j: int|
        0 <= i < k && 0 <= j <= rule_path(rules, i).len() ==> exists|n: int|
            0 <= n < ns.len() && (#[trigger] ns[n].path@) == #[trigger] rule_path(
                rules,
                i,
            ).subrange(0, j)
}

/// Every expression in the sequence has canonical literals.
pub open spec fn exprs_wf(s: Seq<Expression>) -> bool {
    forall|i: int| 0 <= i < s.len() ==> (#[trigger] s[i]).wf()
}

/// One successful parse outcome: the (ascending, non-empty) indices of the
/// rules whose whole pattern matched the line, and the captured argument
/// expressions in source order.
#[derive(Debug)]
pub struct Match {
    pub rule_indices: Vec<usize>,
    pub exprs: Vec<Expression>,
}

/// The outcome of walking one trie node: a match ending at the given node, a
/// silent mismatch (fully backtracked), or a fatal argument-parse failure
/// that aborts the whole attempt.
enum StepResult {
    Found(usize),
    NoMatch,
    Aborted,
}

/// Exactly what the argument parser returns at position `a`: a number token
/// yields the integer literal of its value, an identifier token its
/// variable, each carrying the token's span and consuming that one token.
pub open spec fn parses_expr_at(tokens: Seq<Token>, a: int, e: Expression, b: int) -> bool {
    &&& 0 <= a < tokens.len()
    &&& b == a + 1
    &&& match tokens[a].kind {
        TokenKind::Number => match e {
            Expression::Literal(sp, ExpressionValue::Integer(bg)) => sp == tokens[a].span
                && bg.wf() && bg@ == tokens[a].value,
            _ => false,
        },
        TokenKind::Identifier => match (tokens[a].excerpt, e) {
            (Some(s), Expression::Variable(sp, name)) => sp == tokens[a].span && name@ == s@,
            _ => false,
        },
        _ => false,
    }
}

/// Where the argument parser fails: at the line boundary, or on a token that
/// cannot begin an expression.
pub open spec fn expr_parse_fails_at(tokens: Seq<Token>, a: int) -> bool {
    a >= tokens.len() || match tokens[a].kind {
        TokenKind::Number => false,
        TokenKind::Identifier => tokens[a].excerpt is None,
        _ => true,
    }
}

/// The tokens from `a` (inclusive) to `b` (exclusive) instantiate the label
/// path `p`, capturing `es`: an exact label consumes the one token whose own
/// key it is, and a parameter label consumes exactly one argument expression
/// as the parser returns it, captured in traversal order.
pub open spec fn path_consumes(
    tokens: Seq<Token>,
    a: int,
    b: int,
    p: Seq<Option<(TokenKind, Option<Seq<char>>)>>,
    es: Seq<Expression>,
) -> bool
    decreases p.len(),
{
    if p.len() == 0 {
        a == b && es.len() == 0
    } else {
        match p.first() {
            Some(key) => 0 <= a < tokens.len() && token_key(tokens[a]) == key && path_consumes(
                tokens,
                a + 1,
                b,
                p.drop_first(),
                es,
            ),
            None => es.len() > 0 && exists|mid: int|
                #[trigger] parses_expr_at(tokens, a, es.first(), mid) && path_consumes(
                    tokens,
                    mid,
                    b,
                    p.drop_first(),
                    es.drop_first(),
                ),
        }
    }
}

/// Exact branches are preferred: an accepting path that leaves node `n` by
/// the parameter edge is reported only where the exact edge keyed on the
/// line's next token leads nowhere or admits no accepting run.
pub open spec fn exact_branch_exhausted(
    ns: Seq<MatchStep>,
    n: usize,
    tokens: Seq<Token>,
    a: int,
    p: Seq<Option<(TokenKind, Option<Seq<char>>)>>,
) -> bool {
    p.len() > 0 && p.first() is None && 0 <= a < tokens.len() ==> match step_target(
        ns,
        n as int,
        Some(token_key(tokens[a])),
    ) {
        Some(t0) => !accepting_from(ns, t0, tokens, a + 1),
        None => true,
    }
}

/// Exact branches are preferred at every depth: along the whole path, a
/// parameter edge is taken only where `exact_branch_exhausted` holds at that
/// node and position (each step, exact or parameter, consumes one token).
pub open spec fn exact_preferring(
    ns: Seq<MatchStep>,
    n: usize,
    tokens: Seq<Token>,
    a: int,
    p: Seq<Option<(TokenKind, Option<Seq<char>>)>>,
) -> bool
    decreases p.len(),
{
    if p.len() == 0 {
        true
    } else {
        exact_branch_exhausted(ns, n, tokens, a, p) && match step_target(
            ns,
            n as int,
            p.first(),
        ) {
            Some(t) => exact_preferring(ns, t, tokens, a + 1, p.drop_first()),
            None => true,
        }
    }
}

/// Some accepting run exists from node `n`: a label path to a node where a
/// rule ends, along which the tokens from `a` decompose exactly to the line
/// break.
pub open spec fn accepting_from(ns: Seq<MatchStep>, n: usize, tokens: Seq<Token>, a: int) -> bool {
    exists|p: Seq<Option<(TokenKind, Option<Seq<char>>)>>, es: Seq<Expression>|
        #![trigger path_consumes(tokens, a, tokens.len() as int, p, es)]
        path_consumes(tokens, a, tokens.len() as int, p, es) && match walk_from(ns, n, p) {
            Some(t) => (t as int) < ns.len() && ns[t as int].rule_indices@.len() > 0,
            None => false,
        }
}

/// A run from node `n`, consuming tokens from `a`, can reach a node whose
/// parameter edge faces a mid-line position whose token the argument parser
/// rejects — the one way a whole match attempt is aborted. (At the line
/// break no parse is attempted, so such positions do not count.)
pub open spec fn abort_reachable(ns: Seq<MatchStep>, n: usize, tokens: Seq<Token>, a: int) -> bool {
    exists|p: Seq<Option<(TokenKind, Option<Seq<char>>)>>, es: Seq<Expression>, b: int|
        #![trigger path_consumes(tokens, a, b, p, es)]
        path_consumes(tokens, a, b, p, es) && b < tokens.len() && expr_parse_fails_at(tokens, b)
            && match walk_from(ns, n, p) {
            Some(t) => (t as int) < ns.len() && ns[t as int].child_param is Some,
            None => false,
        }
}

/// Parses one argument expression at the cursor. This is the matcher's
/// stand-in for the grammar-level expression parser, an external
/// collaborator: it accepts a single number or identifier token, exactly as
/// `parses_expr_at` states, and rejects everything else. Multi-token
/// argument grammars belong to that collaborator, not to the matcher, whose
/// contracts speak of the parser only through `parses_expr_at` and
/// `expr_parse_fails_at`.
pub fn parse_expr(stream: &mut TokenStream) -> (r: Result<Expression, ()>)
    requires
        old(stream).wf(),
    ensures
        final(stream).wf(),
        final(stream).tokens@ == old(stream).tokens@,
        match r {
            Ok(e) => e.wf() && parses_expr_at(
                old(stream).tokens@,
                old(stream).pos as int,
                e,
                final(stream).pos as int,
            ),
            Err(_) => final(stream).pos == old(stream).pos && expr_parse_fails_at(
                old(stream).tokens@,
                old(stream).pos as int,
            ),
        },
{
    if stream.next_is_linebreak() {
        return Err(());
    }
    let kind = stream.peek().kind;
    match kind {
        TokenKind::Number => {
            let sp = stream.peek().span;
            let v = stream.peek().value;
            stream.advance();
            Ok(Expression::Literal(sp, ExpressionValue::Integer(Big::from_u64(v))))
        },
        TokenKind::Identifier => {
            let sp = stream.peek().span;
            let name = match &stream.peek().excerpt {
                Some(s) => s.clone(),
                None => {
                    return Err(());
                },
            };
            stream.advance();
            Ok(Expression::Variable(sp, name))
        },
        _ => Err(()),
    }
}

/// Finds the target of the first exact edge keyed on the given kind and text,
/// starting at edge `i`.
fn find_exact_from(
    edges: &Vec<(MatchStepExact, usize)>,
    i: usize,
    kind: TokenKind,
    text: &Option<String>,
) -> (r: Option<usize>)
    requires
        i <= edges@.len(),
    ensures
        r == first_exact(edges@.skip(i as int), (kind, opt_str_model(*text))),
    decreases edges@.len() - i,
{
    if i == edges.len() {
        proof {
            assert(edges@.skip(i as int) =~= Seq::<(MatchStepExact, usize)>::empty());
        }
        None
    } else {
        proof {
            assert(edges@.skip(i as int).drop_first() =~= edges@.skip(i as int + 1));
            assert(edges@.skip(i as int).first() == edges@[i as int]);
        }
        let e = &edges[i];
        let kind_matches = e.0.0 == kind;
        let text_matches = match (&e.0.1, text) {
            (None, None) => true,
            (Some(a), Some(b)) => *a == *b,
            _ => false,
        };
        proof {
            assert(text_matches == (opt_str_model(e.0.1) == opt_str_model(*text)));
        }
        if kind_matches && text_matches {
            Some(e.1)
        } else {
            find_exact_from(edges, i + 1, kind, text)
        }
    }
}

/// A found exact edge is a real edge of the node, keyed exactly on the
/// lookup key, so the node's well-formedness and path coherence apply to it.
proof fn lemma_first_exact_is_edge(
    edges: Seq<(MatchStepExact, usize)>,
    key: (TokenKind, Option<Seq<char>>),
)
    requires
        first_exact(edges, key) is Some,
    ensures
        exists|j: int|
            0 <= j < edges.len() && (#[trigger] edges[j]).1 == first_exact(edges, key).unwrap()
                && key_model(edges[j].0) == key,
    decreases edges.len(),
{
    if key_model(edges.first().0) == key {
        assert(edges[0].1 == first_exact(edges, key).unwrap() && key_model(edges[0].0) == key);
    } else {
        lemma_first_exact_is_edge(edges.drop_first(), key);
        let j = choose|j: int|
            0 <= j < edges.drop_first().len() && (#[trigger] edges.drop_first()[j]).1 == first_exact(
                edges.drop_first(),
                key,
            ).unwrap() && key_model(edges.drop_first()[j].0) == key;
        assert(edges[j + 1].1 == first_exact(edges, key).unwrap() && key_model(edges[j + 1].0)
            == key);
    }
}

/// Appending an edge changes a first-match lookup only where the lookup
/// found nothing.
proof fn lemma_first_exact_extend(
    edges: Seq<(MatchStepExact, usize)>,
    e: (MatchStepExact, usize),
    key: (TokenKind, Option<Seq<char>>),
)
    ensures
        first_exact(edges.push(e), key) == (match first_exact(edges, key) {
            Some(t) => Some(t),
            None => if key_model(e.0) == key {
                Some(e.1)
            } else {
                None::<usize>
            },
        }),
    decreases edges.len(),
{
    if edges.len() == 0 {
        assert(edges.push(e).first() == e);
        assert(edges.push(e).drop_first() =~= Seq::<(MatchStepExact, usize)>::empty());
        assert(first_exact(edges.push(e).drop_first(), key) is None);
        assert(first_exact(edges, key) is None);
    } else {
        assert(edges.push(e).first() == edges.first());
        assert(edges.push(e).drop_first() =~= edges.drop_first().push(e));
        lemma_first_exact_extend(edges.drop_first(), e, key);
    }
}

/// Inserts one rule's pattern into the trie, walking existing prefix nodes
/// and appending fresh ones where the pattern diverges; the rule's index is
/// appended to the terminal list of the node its whole pattern reaches.
fn insert_rule(
    nodes: &mut Vec<MatchStep>,
    parts: &Vec<RulePatternPart>,
    rule_index: usize,
    rules: Ghost<Seq<Rule>>,
)
    requires
        nodes_wf(old(nodes)@),
        nodes_bounded(old(nodes)@, rule_index as int),
        paths_wf(old(nodes)@),
        placed_sound(old(nodes)@, rules@, rule_index as int),
        placed_complete(old(nodes)@, rules@, rule_index as int),
        paths_are_prefixes(old(nodes)@, rules@, rule_index as int),
        prefixes_present(old(nodes)@, rules@, rule_index as int),
        (rule_index as int) < rules@.len(),
        parts@ == rules@[rule_index as int].pattern_parts@,
    ensures
        nodes_wf(final(nodes)@),
        nodes_bounded(final(nodes)@, rule_index as int + 1),
        paths_wf(final(nodes)@),
        placed_sound(final(nodes)@, rules@, rule_index as int + 1),
        placed_complete(final(nodes)@, rules@, rule_index as int + 1),
        paths_are_prefixes(final(nodes)@, rules@, rule_index as int + 1),
        prefixes_present(final(nodes)@, rules@, rule_index as int + 1),
{
    let ghost labels = parts_labels(parts@);
    let mut cur: usize = 0;
    let mut j: usize = 0;
    proof {
        assert(labels.subrange(0, 0) =~= Seq::<Option<(TokenKind, Option<Seq<char>>)>>::empty());
        assert(labels == rule_path(rules@, rule_index as int));
        assert forall|n: int|
            0 <= n < nodes@.len() implies (#[trigger] nodes@[n].path@).len() == 0 || exists|i: int|
            0 <= i < rule_index as int + 1 && nodes@[n].path@.is_prefix_of(
                #[trigger] rule_path(rules@, i),
            ) by {
            if nodes@[n].path@.len() > 0 {
                let i = choose|i: int|
                    0 <= i < rule_index as int && nodes@[n].path@.is_prefix_of(
                        #[trigger] rule_path(rules@, i),
                    );
                assert(nodes@[n].path@.is_prefix_of(rule_path(rules@, i)));
            }
        }
        assert(nodes@[0].path@ == labels.subrange(0, 0));
    }
    while j < parts.len()
        invariant
            nodes_wf(nodes@),
            nodes_bounded(nodes@, rule_index as int),
            paths_wf(nodes@),
            placed_sound(nodes@, rules@, rule_index as int),
            placed_complete(nodes@, rules@, rule_index as int),
            paths_are_prefixes(nodes@, rules@, rule_index as int + 1),
            prefixes_present(nodes@, rules@, rule_index as int),
            forall|jj: int|
                #![trigger labels.subrange(0, jj)]
                0 <= jj <= j ==> exists|n: int|
                    0 <= n < nodes@.len() && (#[trigger] nodes@[n].path@) == labels.subrange(
                        0,
                        jj,
                    ),
            cur < nodes@.len(),
            j <= parts@.len(),
            labels == parts_labels(parts@),
            (rule_index as int) < rules@.len(),
            parts@ == rules@[rule_index as int].pattern_parts@,
            nodes@[cur as int].path@ == labels.subrange(0, j as int),
        decreases parts@.len() - j,
    {
        proof {
            assert(labels.subrange(0, j as int + 1) =~= labels.subrange(0, j as int).push(
                labels[j as int],
            ));
        }
        match &parts[j] {
            RulePatternPart::Exact(kind, text) => {
                let ghost lbl = part_label(parts@[j as int]);
                proof {
                    assert(lbl == Some((*kind, opt_str_model(*text))));
                }
                let found = find_exact_from(&nodes[cur].children_exact, 0, *kind, text);
                proof {
                    assert(nodes@[cur as int].children_exact@.skip(0)
                        =~= nodes@[cur as int].children_exact@);
                }
                match found {
                    Some(t) => {
                        proof {
                            assert(node_wf(nodes@, cur as int));
                            assert(edge_paths_ok(nodes@, cur as int));
                            lemma_first_exact_is_edge(
                                nodes@[cur as int].children_exact@,
                                (*kind, opt_str_model(*text)),
                            );
                            let je = choose|je: int|
                                0 <= je < nodes@[cur as int].children_exact@.len() && (
                                #[trigger] nodes@[cur as int].children_exact@[je]).1 == t
                                    && key_model(nodes@[cur as int].children_exact@[je].0) == (
                                *kind,
                                opt_str_model(*text),
                                );
                            assert(nodes@[t as int].path@ == nodes@[cur as int].path@.push(lbl));
                            assert(labels[j as int] == part_label(parts@[j as int]));
                            assert(nodes@[t as int].path@ == labels.subrange(0, j as int + 1));
                        }
                        cur = t;
                    },
                    None => {
                        let fresh = nodes.len();
                        let ghost pre_push = nodes@;
                        let ghost q = nodes@[cur as int].path@;
                        nodes.push(MatchStep::new(Ghost(q.push(lbl))));
                        proof {
                            lemma_wf_after_push(pre_push, nodes@);
                        }
                        let copied = match text {
                            Some(s) => Some(s.clone()),
                            None => None,
                        };
                        let ghost before = nodes@;
                        let nd = &mut nodes[cur];
                        nd.children_exact.push((MatchStepExact(*kind, copied), fresh));
                        proof {
                            assert(opt_str_model(copied) == opt_str_model(*text));
                            lemma_wf_after_new_edge(before, nodes@, cur as int, fresh);
                            lemma_paths_after_create(
                                pre_push,
                                before,
                                nodes@,
                                rules@,
                                rule_index as int,
                                cur as int,
                                fresh,
                                lbl,
                            );
                            assert(labels[j as int] == part_label(parts@[j as int]));
                            assert(nodes@[fresh as int].path@ == labels.subrange(
                                0,
                                j as int + 1,
                            ));
                            assert(labels.subrange(0, j as int + 1).is_prefix_of(labels));
                            assert forall|n: int|
                                0 <= n < nodes@.len() implies (
                            #[trigger] nodes@[n].path@).len() == 0 || exists|i: int|
                                0 <= i < rule_index as int + 1 && nodes@[n].path@.is_prefix_of(
                                    #[trigger] rule_path(rules@, i),
                                ) by {
                                if n < pre_push.len() {
                                    if nodes@[n].path@.len() > 0 {
                                        assert(nodes@[n].path@ == pre_push[n].path@);
                                        let i = choose|i: int|
                                            0 <= i < rule_index as int + 1
                                                && pre_push[n].path@.is_prefix_of(
                                                #[trigger] rule_path(rules@, i),
                                            );
                                        assert(nodes@[n].path@.is_prefix_of(
                                            rule_path(rules@, i),
                                        ));
                                    }
                                } else {
                                    assert(n == fresh as int);
                                    assert(nodes@[n].path@ == labels.subrange(0, j as int + 1));
                                    assert(labels == rule_path(rules@, rule_index as int));
                                    assert(nodes@[n].path@.is_prefix_of(
                                        rule_path(rules@, rule_index as int),
                                    ));
                                }
                            }
                            assert forall|i2: int, j2: int|
                                0 <= i2 < rule_index as int && 0 <= j2 <= rule_path(
                                    rules@,
                                    i2,
                                ).len() implies exists|n: int|
                                0 <= n < nodes@.len() && (#[trigger] nodes@[n].path@)
                                    == #[trigger] rule_path(rules@, i2).subrange(0, j2) by {
                                lemma_path_witness_carries(
                                    pre_push,
                                    nodes@,
                                    rule_path(rules@, i2).subrange(0, j2),
                                );
                            }
                            assert forall|jj: int|
                                #![trigger labels.subrange(0, jj)]
                                0 <= jj <= j as int + 1 implies exists|n: int|
                                0 <= n < nodes@.len() && (#[trigger] nodes@[n].path@)
                                    == labels.subrange(0, jj) by {
                                if jj <= j as int {
                                    lemma_path_witness_carries(
                                        pre_push,
                                        nodes@,
                                        labels.subrange(0, jj),
                                    );
                                } else {
                                    assert(nodes@[fresh as int].path@ == labels.subrange(0, jj));
                                }
                            }
                        }
                        cur = fresh;
                    },
                }
            },
            RulePatternPart::Parameter(_) => {
                let ghost lbl = part_label(parts@[j as int]);
                let existing = nodes[cur].child_param;
                match existing {
                    Some(t) => {
                        proof {
                            assert(node_wf(nodes@, cur as int));
                            assert(edge_paths_ok(nodes@, cur as int));
                            assert(nodes@[t as int].path@ == nodes@[cur as int].path@.push(lbl));
                            assert(labels[j as int] == part_label(parts@[j as int]));
                            assert(nodes@[t as int].path@ == labels.subrange(0, j as int + 1));
                        }
                        cur = t;
                    },
                    None => {
                        let fresh = nodes.len();
                        let ghost pre_push = nodes@;
                        let ghost q = nodes@[cur as int].path@;
                        nodes.push(MatchStep::new(Ghost(q.push(lbl))));
                        proof {
                            lemma_wf_after_push(pre_push, nodes@);
                        }
                        let ghost before = nodes@;
                        let nd = &mut nodes[cur];
                        nd.child_param = Some(fresh);
                        proof {
                            lemma_wf_after_new_edge(before, nodes@, cur as int, fresh);
                            lemma_paths_after_create(
                                pre_push,
                                before,
                                nodes@,
                                rules@,
                                rule_index as int,
                                cur as int,
                                fresh,
                                lbl,
                            );
                            assert(labels[j as int] == part_label(parts@[j as int]));
                            assert(nodes@[fresh as int].path@ == labels.subrange(
                                0,
                                j as int + 1,
                            ));
                            assert(labels.subrange(0, j as int + 1).is_prefix_of(labels));
                            assert forall|n: int|
                                0 <= n < nodes@.len() implies (
                            #[trigger] nodes@[n].path@).len() == 0 || exists|i: int|
                                0 <= i < rule_index as int + 1 && nodes@[n].path@.is_prefix_of(
                                    #[trigger] rule_path(rules@, i),
                                ) by {
                                if n < pre_push.len() {
                                    if nodes@[n].path@.len() > 0 {
                                        assert(nodes@[n].path@ == pre_push[n].path@);
                                        let i = choose|i: int|
                                            0 <= i < rule_index as int + 1
                                                && pre_push[n].path@.is_prefix_of(
                                                #[trigger] rule_path(rules@, i),
                                            );
                                        assert(nodes@[n].path@.is_prefix_of(
                                            rule_path(rules@, i),
                                        ));
                                    }
                                } else {
                                    assert(n == fresh as int);
                                    assert(nodes@[n].path@ == labels.subrange(0, j as int + 1));
                                    assert(labels == rule_path(rules@, rule_index as int));
                                    assert(nodes@[n].path@.is_prefix_of(
                                        rule_path(rules@, rule_index as int),
                                    ));
                                }
                            }
                            assert forall|i2: int, j2: int|
                                0 <= i2 < rule_index as int && 0 <= j2 <= rule_path(
                                    rules@,
                                    i2,
                                ).len() implies exists|n: int|
                                0 <= n < nodes@.len() && (#[trigger] nodes@[n].path@)
                                    == #[trigger] rule_path(rules@, i2).subrange(0, j2) by {
                                lemma_path_witness_carries(
                                    pre_push,
                                    nodes@,
                                    rule_path(rules@, i2).subrange(0, j2),
                                );
                            }
                            assert forall|jj: int|
                                #![trigger labels.subrange(0, jj)]
                                0 <= jj <= j as int + 1 implies exists|n: int|
                                0 <= n < nodes@.len() && (#[trigger] nodes@[n].path@)
                                    == labels.subrange(0, jj) by {
                                if jj <= j as int {
                                    lemma_path_witness_carries(
                                        pre_push,
                                        nodes@,
                                        labels.subrange(0, jj),
                                    );
                                } else {
                                    assert(nodes@[fresh as int].path@ == labels.subrange(0, jj));
                                }
                            }
                        }
                        cur = fresh;
                    },
                }
            },
        }
        j = j + 1;
    }
    proof {
        assert(labels.subrange(0, parts@.len() as int) =~= labels);
        assert(nodes@[cur as int].path@ == rule_path(rules@, rule_index as int));
    }
    let ghost before = nodes@;
    let nd = &mut nodes[cur];
    nd.rule_indices.push(rule_index);
    proof {
        lemma_wf_after_terminal(before, nodes@, cur as int, rule_index);
        lemma_paths_after_terminal(before, nodes@, rules@, cur as int, rule_index);
        assert forall|n: int|
            0 <= n < nodes@.len() implies (#[trigger] nodes@[n].path@).len() == 0 || exists|i: int|
            0 <= i < rule_index as int + 1 && nodes@[n].path@.is_prefix_of(
                #[trigger] rule_path(rules@, i),
            ) by {
            if nodes@[n].path@.len() > 0 {
                assert(nodes@[n].path@ == before[n].path@);
                let i = choose|i: int|
                    0 <= i < rule_index as int + 1 && before[n].path@.is_prefix_of(
                        #[trigger] rule_path(rules@, i),
                    );
                assert(nodes@[n].path@.is_prefix_of(rule_path(rules@, i)));
            }
        }
        assert forall|i2: int, j2: int|
            0 <= i2 < rule_index as int + 1 && 0 <= j2 <= rule_path(rules@, i2).len() implies
            exists|n: int|
            0 <= n < nodes@.len() && (#[trigger] nodes@[n].path@) == #[trigger] rule_path(
                rules@,
                i2,
            ).subrange(0, j2) by {
            if i2 < rule_index as int {
                lemma_path_witness_carries(before, nodes@, rule_path(rules@, i2).subrange(0, j2));
            } else {
                assert(rule_path(rules@, i2) == labels);
                lemma_path_witness_carries(before, nodes@, labels.subrange(0, j2));
            }
        }
    }
}

/// Appending a fresh empty node preserves well-formedness and boundedness.
proof fn lemma_wf_after_push(before: Seq<MatchStep>, after: Seq<MatchStep>)
    requires
        nodes_wf(before),
        after.len() == before.len() + 1,
        forall|n: int| 0 <= n < before.len() ==> after[n] == before[n],
        after.last().children_exact@.len() == 0,
        after.last().child_param is None,
        after.last().rule_indices@.len() == 0,
    ensures
        nodes_wf(after),
        forall|k: int| nodes_bounded(before, k) ==> nodes_bounded(after, k),
{
    assert forall|n: int| 0 <= n < after.len() implies #[trigger] node_wf(after, n) by {
        if n < before.len() {
            assert(node_wf(before, n));
        }
    }
    assert forall|k: int| nodes_bounded(before, k) implies nodes_bounded(after, k) by {
        assert forall|n: int, i: int|
            0 <= n < after.len() && 0 <= i < after[n].rule_indices@.len() implies (
        #[trigger] after[n].rule_indices@[i]) < k by {
            if n < before.len() {
                assert(before[n].rule_indices@[i] < k);
            }
        }
    }
}

/// Adding one edge from node `cur` to the last (fresh) node preserves
/// well-formedness and boundedness.
proof fn lemma_wf_after_new_edge(
    before: Seq<MatchStep>,
    after: Seq<MatchStep>,
    cur: int,
    fresh: usize,
)
    requires
        nodes_wf(before),
        0 <= cur < before.len(),
        fresh == before.len() - 1,
        cur < fresh,
        after.len() == before.len(),
        forall|n: int| 0 <= n < before.len() && n != cur ==> after[n] == before[n],
        after[cur].rule_indices@ == before[cur].rule_indices@,
        (after[cur].children_exact@ == before[cur].children_exact@ && after[cur].child_param
            == Some(fresh) && before[cur].child_param is None) || (after[cur].child_param
            == before[cur].child_param && after[cur].children_exact@.len() == before[cur].children_exact@.len()
            + 1 && (forall|i: int|
            0 <= i < before[cur].children_exact@.len() ==> after[cur].children_exact@[i]
                == before[cur].children_exact@[i]) && after[cur].children_exact@.last().1 == fresh),
    ensures
        nodes_wf(after),
        forall|k: int| nodes_bounded(before, k) ==> nodes_bounded(after, k),
{
    assert forall|n: int| 0 <= n < after.len() implies #[trigger] node_wf(after, n) by {
        assert(node_wf(before, n));
        if n != cur {
            assert(after[n] == before[n]);
            assert(after[n].children_exact@ == before[n].children_exact@);
            assert(after[n].child_param == before[n].child_param);
            assert(after[n].rule_indices@ == before[n].rule_indices@);
            assert forall|j: int| 0 <= j < after[n].children_exact@.len() implies n < (
            #[trigger] after[n].children_exact@[j]).1 < after.len() by {
                assert(n < before[n].children_exact@[j].1 < before.len());
            }
        } else {
            assert forall|j: int| 0 <= j < after[cur].children_exact@.len() implies cur < (
            #[trigger] after[cur].children_exact@[j]).1 < after.len() by {
                if j < before[cur].children_exact@.len() {
                    assert(after[cur].children_exact@[j] == before[cur].children_exact@[j]);
                    assert(cur < before[cur].children_exact@[j].1 < before.len());
                } else {
                    assert(after[cur].children_exact@[j] == after[cur].children_exact@.last());
                }
            }
            assert(strictly_sorted(after[cur].rule_indices@));
            assert(match after[cur].child_param {
                Some(t) => cur < t < after.len(),
                None => true,
            });
        }
    }
    assert forall|k: int| nodes_bounded(before, k) implies nodes_bounded(after, k) by {
        assert forall|n: int, i: int|
            0 <= n < after.len() && 0 <= i < after[n].rule_indices@.len() implies (
        #[trigger] after[n].rule_indices@[i]) < k by {
            assert(before[n].rule_indices@[i] < k);
        }
    }
}

/// Appending a rule index larger than every recorded one to a terminal list
/// keeps the trie well formed and bounds it by the next index.
proof fn lemma_wf_after_terminal(
    before: Seq<MatchStep>,
    after: Seq<MatchStep>,
    cur: int,
    rule_index: usize,
)
    requires
        nodes_wf(before),
        nodes_bounded(before, rule_index as int),
        0 <= cur < before.len(),
        after.len() == before.len(),
        forall|n: int| 0 <= n < before.len() && n != cur ==> after[n] == before[n],
        after[cur].children_exact@ == before[cur].children_exact@,
        after[cur].child_param == before[cur].child_param,
        after[cur].rule_indices@ == before[cur].rule_indices@.push(rule_index),
    ensures
        nodes_wf(after),
        nodes_bounded(after, rule_index as int + 1),
{
    assert forall|n: int| 0 <= n < after.len() implies #[trigger] node_wf(after, n) by {
        assert(node_wf(before, n));
        if n == cur {
            let s = after[cur].rule_indices@;
            assert forall|a: int, b: int| 0 <= a < b < s.len() implies s[a] < s[b] by {
                if b < s.len() - 1 {
                    assert(before[cur].rule_indices@[a] < before[cur].rule_indices@[b]);
                } else {
                    assert(before[cur].rule_indices@[a] < rule_index);
                }
            }
        }
    }
    assert forall|n: int, i: int|
        0 <= n < after.len() && 0 <= i < after[n].rule_indices@.len() implies (
    #[trigger] after[n].rule_indices@[i]) < rule_index as int + 1 by {
        if n != cur || i < before[cur].rule_indices@.len() {
            assert(before[n].rule_indices@[i] < rule_index as int);
        }
    }
}

/// A node with a given path keeps witnessing that path across a mutation
/// that preserves paths and never removes nodes.
proof fn lemma_path_witness_carries(
    b: Seq<MatchStep>,
    after: Seq<MatchStep>,
    p: Seq<Option<(TokenKind, Option<Seq<char>>)>>,
)
    requires
        b.len() <= after.len(),
        forall|n: int| 0 <= n < b.len() ==> after[n].path@ == b[n].path@,
        exists|n: int| 0 <= n < b.len() && (#[trigger] b[n].path@) == p,
    ensures
        exists|n: int| 0 <= n < after.len() && (#[trigger] after[n].path@) == p,
{
    let n = choose|n: int| 0 <= n < b.len() && (#[trigger] b[n].path@) == p;
    assert(after[n].path@ == p);
}

/// Creating a fresh child of `cur` along a label that had no edge there
/// keeps the recorded paths tied to the trie and leaves every rule's
/// placement unchanged. `b` is the arena before, `mid` after the fresh node
/// is appended, `after` once the edge to it is added.
proof fn lemma_paths_after_create(
    b: Seq<MatchStep>,
    mid: Seq<MatchStep>,
    after: Seq<MatchStep>,
    rules: Seq<Rule>,
    k: int,
    cur: int,
    fresh: usize,
    lbl: Option<(TokenKind, Option<Seq<char>>)>,
)
    requires
        nodes_wf(b),
        paths_wf(b),
        placed_sound(b, rules, k),
        placed_complete(b, rules, k),
        0 <= cur < b.len(),
        fresh == b.len(),
        step_target(b, cur, lbl) is None,
        mid.len() == b.len() + 1,
        forall|n: int| 0 <= n < b.len() ==> mid[n] == b[n],
        mid[fresh as int].path@ == b[cur].path@.push(lbl),
        mid[fresh as int].children_exact@.len() == 0,
        mid[fresh as int].child_param is None,
        mid[fresh as int].rule_indices@.len() == 0,
        after.len() == mid.len(),
        forall|n: int| 0 <= n < mid.len() && n != cur ==> after[n] == mid[n],
        after[cur].path@ == mid[cur].path@,
        after[cur].rule_indices@ == mid[cur].rule_indices@,
        match lbl {
            Some(key) => after[cur].child_param == mid[cur].child_param
                && after[cur].children_exact@.len() == mid[cur].children_exact@.len() + 1 && (
            forall|i: int|
                0 <= i < mid[cur].children_exact@.len() ==> after[cur].children_exact@[i]
                    == mid[cur].children_exact@[i]) && key_model(
                after[cur].children_exact@.last().0,
            ) == key && after[cur].children_exact@.last().1 == fresh,
            None => after[cur].children_exact@ == mid[cur].children_exact@
                && after[cur].child_param == Some(fresh),
        },
    ensures
        paths_wf(after),
        placed_sound(after, rules, k),
        placed_complete(after, rules, k),
        after[fresh as int].path@ == b[cur].path@.push(lbl),
        forall|n: int| 0 <= n < b.len() ==> after[n].path@ == b[n].path@,
{
    let q = b[cur].path@;
    let fp = q.push(lbl);
    assert(fp.drop_last() =~= q);
    assert(fp.last() == lbl);
    assert forall|n: int| 0 <= n < after.len() implies #[trigger] after[n].path@ == (if n == fresh
        as int {
        fp
    } else {
        b[n].path@
    }) by {
        if n != cur && n != fresh as int {
            assert(after[n] == b[n]);
        }
    }
    // The root keeps its empty path.
    assert(after[0].path@ == b[0].path@);
    // No two nodes share a path: a pre-existing node with the fresh node's
    // path would have to be a child of `cur` along `lbl`, which was missing.
    assert forall|n1: int, n2: int|
        #![trigger after[n1].path@, after[n2].path@]
        0 <= n1 < after.len() && 0 <= n2 < after.len() && after[n1].path@ == after[n2].path@
            implies n1 == n2 by {
        if n1 != n2 {
            if n1 < b.len() && n2 < b.len() {
                assert(b[n1].path@ == b[n2].path@);
            } else {
                let o = if n1 == fresh as int {
                    n2
                } else {
                    n1
                };
                assert(o < b.len() && b[o].path@ == fp);
                assert(has_parent_edge(b, o));
                let p = choose|p: int|
                    0 <= p < b.len() && #[trigger] b[p].path@ == b[o].path@.drop_last()
                        && step_target(b, p, b[o].path@.last()) == Some(o as usize);
                assert(b[p].path@ == q);
                assert(p == cur);
                assert(step_target(b, cur, lbl) == Some(o as usize));
            }
            assert(false);
        }
    }
    // Edges still extend paths by their label.
    assert forall|n: int| 0 <= n < after.len() implies #[trigger] edge_paths_ok(after, n) by {
        if n == fresh as int {
            assert(after[n].children_exact@.len() == 0);
        } else {
            assert(node_wf(b, n));
            assert(edge_paths_ok(b, n));
            assert forall|j: int|
                0 <= j < after[n].children_exact@.len() implies after[(
            #[trigger] after[n].children_exact@[j]).1 as int].path@ == after[n].path@.push(
                Some(key_model(after[n].children_exact@[j].0)),
            ) by {
                if n != cur || j < b[cur].children_exact@.len() {
                    assert(after[n].children_exact@[j] == b[n].children_exact@[j]);
                    let t = b[n].children_exact@[j].1;
                    assert(t < b.len());
                    assert(after[t as int].path@ == b[t as int].path@);
                } else {
                    assert(after[n].children_exact@[j] == after[cur].children_exact@.last());
                }
            }
            if n == cur && lbl is None {
                assert(after[cur].child_param == Some(fresh));
                assert(after[fresh as int].path@ == q.push(None));
            }
        }
    }
    // Every non-root node is still the target of the edge its path names.
    assert forall|n: int|
        0 <= n < after.len() && after[n].path@.len() > 0 implies #[trigger] has_parent_edge(
        after,
        n,
    ) by {
        if n == fresh as int {
            assert(after[cur].path@ == fp.drop_last());
            match lbl {
                Some(key) => {
                    assert(after[cur].children_exact@ =~= b[cur].children_exact@.push(
                        after[cur].children_exact@.last(),
                    ));
                    lemma_first_exact_extend(
                        b[cur].children_exact@,
                        after[cur].children_exact@.last(),
                        key,
                    );
                    assert(step_target(after, cur, lbl) == Some(fresh));
                },
                None => {
                    assert(step_target(after, cur, lbl) == Some(fresh));
                },
            }
            assert(0 <= cur < after.len() && after[cur].path@ == after[n].path@.drop_last()
                && step_target(after, cur, after[n].path@.last()) == Some(n as usize));
        } else {
            assert(has_parent_edge(b, n));
            let p = choose|p: int|
                0 <= p < b.len() && #[trigger] b[p].path@ == b[n].path@.drop_last()
                    && step_target(b, p, b[n].path@.last()) == Some(n as usize);
            let l2 = b[n].path@.last();
            if p != cur {
                assert(after[p] == b[p]);
                assert(step_target(after, p, l2) == step_target(b, p, l2));
            } else {
                match l2 {
                    Some(k2) => {
                        if lbl is Some {
                            assert(after[cur].children_exact@ =~= b[cur].children_exact@.push(
                                after[cur].children_exact@.last(),
                            ));
                            lemma_first_exact_extend(
                                b[cur].children_exact@,
                                after[cur].children_exact@.last(),
                                k2,
                            );
                        } else {
                            assert(after[cur].children_exact@ == b[cur].children_exact@);
                        }
                        assert(step_target(after, cur, l2) == Some(n as usize));
                    },
                    None => {
                        assert(b[cur].child_param == Some(n as usize));
                        assert(lbl is Some);
                        assert(after[cur].child_param == b[cur].child_param);
                        assert(step_target(after, cur, l2) == Some(n as usize));
                    },
                }
            }
            assert(0 <= p < after.len() && after[p].path@ == after[n].path@.drop_last()
                && step_target(after, p, after[n].path@.last()) == Some(n as usize));
        }
    }
    // Rule placement is untouched: terminal lists and paths are unchanged.
    assert forall|n: int, ji: int|
        0 <= n < after.len() && 0 <= ji < after[n].rule_indices@.len() implies (
    #[trigger] after[n].rule_indices@[ji]) < k && rule_path(
        rules,
        after[n].rule_indices@[ji] as int,
    ) == after[n].path@ by {
        assert(n != fresh as int);
        assert(after[n].rule_indices@ == b[n].rule_indices@);
        assert(b[n].rule_indices@[ji] < k && rule_path(rules, b[n].rule_indices@[ji] as int)
            == b[n].path@);
    }
    assert forall|i: int| 0 <= i < k implies exists|n: int|
        0 <= n < after.len() && (#[trigger] after[n].path@) == #[trigger] rule_path(rules, i)
            && after[n].rule_indices@.contains(i as usize) by {
        let n = choose|n: int|
            0 <= n < b.len() && (#[trigger] b[n].path@) == rule_path(rules, i)
                && b[n].rule_indices@.contains(i as usize);
        assert(after[n].path@ == b[n].path@);
        assert(after[n].rule_indices@ == b[n].rule_indices@);
        assert(after[n].path@ == rule_path(rules, i) && after[n].rule_indices@.contains(
            i as usize,
        ));
    }
}

/// Recording a rule's index at the node whose path spells its whole pattern
/// extends the exact placement to that rule; nothing else moves.
proof fn lemma_paths_after_terminal(
    b: Seq<MatchStep>,
    after: Seq<MatchStep>,
    rules: Seq<Rule>,
    cur: int,
    rule_index: usize,
)
    requires
        nodes_wf(b),
        paths_wf(b),
        placed_sound(b, rules, rule_index as int),
        placed_complete(b, rules, rule_index as int),
        0 <= cur < b.len(),
        b[cur].path@ == rule_path(rules, rule_index as int),
        after.len() == b.len(),
        forall|n: int| 0 <= n < b.len() && n != cur ==> after[n] == b[n],
        after[cur].children_exact@ == b[cur].children_exact@,
        after[cur].child_param == b[cur].child_param,
        after[cur].path@ == b[cur].path@,
        after[cur].rule_indices@ == b[cur].rule_indices@.push(rule_index),
    ensures
        paths_wf(after),
        placed_sound(after, rules, rule_index as int + 1),
        placed_complete(after, rules, rule_index as int + 1),
        forall|n: int| 0 <= n < b.len() ==> after[n].path@ == b[n].path@,
{
    assert forall|n: int| 0 <= n < after.len() implies #[trigger] after[n].path@ == b[n].path@
        && after[n].children_exact@ == b[n].children_exact@ && after[n].child_param
        == b[n].child_param by {
        if n != cur {
            assert(after[n] == b[n]);
        }
    }
    assert forall|n1: int, n2: int|
        #![trigger after[n1].path@, after[n2].path@]
        0 <= n1 < after.len() && 0 <= n2 < after.len() && after[n1].path@ == after[n2].path@
            implies n1 == n2 by {
        assert(b[n1].path@ == b[n2].path@);
    }
    assert forall|n: int| 0 <= n < after.len() implies #[trigger] edge_paths_ok(after, n) by {
        assert(edge_paths_ok(b, n));
        assert(node_wf(b, n));
        assert forall|j: int|
            0 <= j < after[n].children_exact@.len() implies after[(
        #[trigger] after[n].children_exact@[j]).1 as int].path@ == after[n].path@.push(
            Some(key_model(after[n].children_exact@[j].0)),
        ) by {
            assert(after[n].children_exact@[j] == b[n].children_exact@[j]);
            let t = b[n].children_exact@[j].1;
            assert(t < b.len());
            assert(after[t as int].path@ == b[t as int].path@);
        }
        match b[n].child_param {
            Some(t) => {
                assert(t < b.len());
                assert(after[t as int].path@ == b[t as int].path@);
            },
            None => {},
        }
    }
    assert forall|n: int|
        0 <= n < after.len() && after[n].path@.len() > 0 implies #[trigger] has_parent_edge(
        after,
        n,
    ) by {
        assert(has_parent_edge(b, n));
        let p = choose|p: int|
            0 <= p < b.len() && #[trigger] b[p].path@ == b[n].path@.drop_last() && step_target(
                b,
                p,
                b[n].path@.last(),
            ) == Some(n as usize);
        assert(step_target(after, p, after[n].path@.last()) == step_target(
            b,
            p,
            b[n].path@.last(),
        ));
        assert(0 <= p < after.len() && after[p].path@ == after[n].path@.drop_last()
            && step_target(after, p, after[n].path@.last()) == Some(n as usize));
    }
    assert forall|n: int, ji: int|
        0 <= n < after.len() && 0 <= ji < after[n].rule_indices@.len() implies (
    #[trigger] after[n].rule_indices@[ji]) < rule_index as int + 1 && rule_path(
        rules,
        after[n].rule_indices@[ji] as int,
    ) == after[n].path@ by {
        if n != cur || ji < b[cur].rule_indices@.len() {
            assert(b[n].rule_indices@[ji] < rule_index as int && rule_path(
                rules,
                b[n].rule_indices@[ji] as int,
            ) == b[n].path@);
        } else {
            assert(after[cur].rule_indices@[ji] == rule_index);
        }
    }
    assert forall|i: int| 0 <= i < rule_index as int + 1 implies exists|n: int|
        0 <= n < after.len() && (#[trigger] after[n].path@) == #[trigger] rule_path(rules, i)
            && after[n].rule_indices@.contains(i as usize) by {
        if i < rule_index as int {
            let n = choose|n: int|
                0 <= n < b.len() && (#[trigger] b[n].path@) == rule_path(rules, i)
                    && b[n].rule_indices@.contains(i as usize);
            if n == cur {
                let xi = choose|xi: int|
                    0 <= xi < b[cur].rule_indices@.len() && b[cur].rule_indices@[xi] == i;
                assert(after[cur].rule_indices@[xi] == i as usize);
            }
            assert(after[n].path@ == rule_path(rules, i) && after[n].rule_indices@.contains(
                i as usize,
            ));
        } else {
            assert(after[cur].rule_indices@.last() == rule_index);
            assert(after[cur].rule_indices@.contains(rule_index));
            assert(after[cur].path@ == rule_path(rules, i) && after[cur].rule_indices@.contains(
                i as usize,
            ));
        }
    }
}

/// The rule pattern matcher: a trie of shared pattern prefixes, held as an
/// arena of nodes with the root at index zero. Built once from the whole rule
/// set and immutable afterward.
pub struct RulePatternMatcher {
    pub nodes: Vec<MatchStep>,
}

impl RulePatternMatcher {
    pub open spec fn wf(&self) -> bool {
        nodes_wf(self.nodes@)
    }

    pub open spec fn bounded(&self, k: int) -> bool {
        nodes_bounded(self.nodes@, k)
    }

    pub open spec fn walk(&self, n: usize, p: Seq<Option<(TokenKind, Option<Seq<char>>)>>) -> Option<
        usize,
    > {
        walk_from(self.nodes@, n, p)
    }

    /// Builds the trie once from the whole rule set, inserting each rule's
    /// pattern in declaration order.
    pub fn new(rules: &Vec<Rule>) -> (m: RulePatternMatcher)
        ensures
            m.wf(),
            m.bounded(rules@.len() as int),
            paths_wf(m.nodes@),
            placed_sound(m.nodes@, rules@, rules@.len() as int),
            placed_complete(m.nodes@, rules@, rules@.len() as int),
            paths_are_prefixes(m.nodes@, rules@, rules@.len() as int),
            prefixes_present(m.nodes@, rules@, rules@.len() as int),
    {
        let mut nodes: Vec<MatchStep> = Vec::new();
        nodes.push(MatchStep::new(Ghost(Seq::empty())));
        proof {
            assert(node_wf(nodes@, 0));
            assert(edge_paths_ok(nodes@, 0));
            assert(paths_wf(nodes@));
        }
        let mut i: usize = 0;
        while i < rules.len()
            invariant
                nodes_wf(nodes@),
                nodes_bounded(nodes@, i as int),
                paths_wf(nodes@),
                placed_sound(nodes@, rules@, i as int),
                placed_complete(nodes@, rules@, i as int),
                paths_are_prefixes(nodes@, rules@, i as int),
                prefixes_present(nodes@, rules@, i as int),
                i <= rules@.len(),
            decreases rules@.len() - i,
        {
            insert_rule(&mut nodes, &rules[i].pattern_parts, i, Ghost(rules@));
            i = i + 1;
        }
        RulePatternMatcher { nodes }
    }

    /// One step of the depth-first walk: exact branches are preferred, the
    /// parameter branch is tried next, and a node accepts only where some
    /// rule ends and the line does. A failed argument parse aborts the whole
    /// attempt; every other dead end backtracks silently.
    fn parse_match_step(
        &self,
        stream: &mut TokenStream,
        cur: usize,
        exprs: &mut Vec<Expression>,
    ) -> (r: StepResult)
        requires
            self.wf(),
            cur < self.nodes@.len(),
            old(stream).wf(),
            exprs_wf(old(exprs)@),
        ensures
            final(stream).wf(),
            final(stream).tokens@ == old(stream).tokens@,
            exact_path_accepts(
                self.nodes@,
                cur,
                line_keys(old(stream).tokens@, old(stream).pos as int),
            ) ==> r is Found,
            match r {
                StepResult::Found(n) => {
                    &&& n < self.nodes@.len()
                    &&& self.nodes@[n as int].rule_indices@.len() > 0
                    &&& final(stream).pos == final(stream).tokens@.len()
                    &&& final(exprs)@.len() >= old(exprs)@.len()
                    &&& final(exprs)@.subrange(0, old(exprs)@.len() as int) == old(exprs)@
                    &&& exprs_wf(final(exprs)@)
                    &&& exists|p: Seq<Option<(TokenKind, Option<Seq<char>>)>>|
                        #[trigger] walk_from(self.nodes@, cur, p) == Some(n) && count_params(p)
                            + old(exprs)@.len() == final(exprs)@.len() && path_consumes(
                            old(stream).tokens@,
                            old(stream).pos as int,
                            final(stream).pos as int,
                            p,
                            final(exprs)@.skip(old(exprs)@.len() as int),
                        ) && exact_preferring(
                            self.nodes@,
                            cur,
                            old(stream).tokens@,
                            old(stream).pos as int,
                            p,
                        )
                },
                StepResult::NoMatch => final(exprs)@ == old(exprs)@ && final(stream).pos == old(
                    stream,
                ).pos && !accepting_from(
                    self.nodes@,
                    cur,
                    old(stream).tokens@,
                    old(stream).pos as int,
                ),
                StepResult::Aborted => exprs_wf(final(exprs)@) && abort_reachable(
                    self.nodes@,
                    cur,
                    old(stream).tokens@,
                    old(stream).pos as int,
                ),
            },
        decreases self.nodes@.len() - cur,
    {
        let ghost toks = stream.tokens@;
        let ghost a = stream.pos as int;
        if !stream.next_is_linebreak() {
            let checkpoint = stream.save();
            let node = &self.nodes[cur];
            let tok = stream.peek();
            let ghost lbl: Option<(TokenKind, Option<Seq<char>>)> = Some(token_key(*tok));
            let target = find_exact_from(&node.children_exact, 0, tok.kind, &tok.excerpt);
            proof {
                assert(node.children_exact@.skip(0) =~= node.children_exact@);
                let keys = line_keys(stream.tokens@, stream.pos as int);
                assert(keys.len() > 0);
                assert(keys.first() == lbl);
                assert(keys.drop_first() =~= line_keys(stream.tokens@, stream.pos as int + 1));
                assert(step_target(self.nodes@, cur as int, lbl) == first_exact(
                    self.nodes@[cur as int].children_exact@,
                    token_key(*tok),
                ));
            }
            match target {
                Some(t) => {
                    proof {
                        assert(node_wf(self.nodes@, cur as int));
                        lemma_first_exact_is_edge(node.children_exact@, token_key(*tok));
                    }
                    stream.advance();
                    let inner = self.parse_match_step(stream, t, exprs);
                    match inner {
                        StepResult::Found(n) => {
                            proof {
                                let es = exprs@.skip(old(exprs)@.len() as int);
                                let p_inner = choose|p: Seq<
                                    Option<(TokenKind, Option<Seq<char>>)>,
                                >|
                                    #[trigger] walk_from(self.nodes@, t, p) == Some(n)
                                        && count_params(p) + old(exprs)@.len() == exprs@.len()
                                        && path_consumes(
                                        old(stream).tokens@,
                                        old(stream).pos as int + 1,
                                        stream.pos as int,
                                        p,
                                        es,
                                    ) && exact_preferring(self.nodes@, t, toks, a + 1, p);
                                let pw = seq![lbl] + p_inner;
                                assert(pw.drop_first() =~= p_inner);
                                assert(pw.first() == lbl);
                                assert(step_target(self.nodes@, cur as int, lbl) == Some(t));
                                assert(walk_from(self.nodes@, cur, pw) == Some(n));
                                assert(count_params(pw) + old(exprs)@.len() == exprs@.len());
                                assert(path_consumes(
                                    old(stream).tokens@,
                                    old(stream).pos as int,
                                    stream.pos as int,
                                    pw,
                                    es,
                                ));
                                assert(exact_preferring(self.nodes@, cur, toks, a, pw));
                            }
                            return StepResult::Found(n);
                        },
                        StepResult::Aborted => {
                            proof {
                                let (p_i, es_i, b_i): (
                                    Seq<Option<(TokenKind, Option<Seq<char>>)>>,
                                    Seq<Expression>,
                                    int,
                                ) = choose|
                                    p: Seq<Option<(TokenKind, Option<Seq<char>>)>>,
                                    es: Seq<Expression>,
                                    b: int,
                                |
                                    #![trigger path_consumes(toks, a + 1, b, p, es)]
                                    path_consumes(toks, a + 1, b, p, es) && b < toks.len()
                                        && expr_parse_fails_at(
                                        toks,
                                        b,
                                    ) && match walk_from(self.nodes@, t, p) {
                                        Some(t2) => (t2 as int) < self.nodes@.len()
                                            && self.nodes@[t2 as int].child_param is Some,
                                        None => false,
                                    };
                                let pw = seq![lbl] + p_i;
                                assert(pw.drop_first() =~= p_i);
                                assert(pw.first() == lbl);
                                assert(step_target(self.nodes@, cur as int, lbl) == Some(t));
                                assert(walk_from(self.nodes@, cur, pw) == walk_from(
                                    self.nodes@,
                                    t,
                                    p_i,
                                ));
                                assert(path_consumes(toks, a, b_i, pw, es_i));
                            }
                            return StepResult::Aborted;
                        },
                        StepResult::NoMatch => {
                            stream.restore(checkpoint);
                            proof {
                                assert(match step_target(
                                    self.nodes@,
                                    cur as int,
                                    Some(token_key(toks[a])),
                                ) {
                                    Some(t2) => !accepting_from(self.nodes@, t2, toks, a + 1),
                                    None => true,
                                });
                            }
                        },
                    }
                },
                None => {
                    proof {
                        assert(match step_target(
                            self.nodes@,
                            cur as int,
                            Some(token_key(toks[a])),
                        ) {
                            Some(t2) => !accepting_from(self.nodes@, t2, toks, a + 1),
                            None => true,
                        });
                    }
                },
            }
            let node2 = &self.nodes[cur];
            match node2.child_param {
                Some(pt) => {
                    proof {
                        assert(node_wf(self.nodes@, cur as int));
                    }
                    let checkpoint2 = stream.save();
                    let ghost exprs_before = exprs@;
                    match parse_expr(stream) {
                        Err(()) => {
                            proof {
                                let pw = Seq::<Option<(TokenKind, Option<Seq<char>>)>>::empty();
                                let esw = Seq::<Expression>::empty();
                                assert(walk_from(self.nodes@, cur, pw) == Some(cur));
                                assert(path_consumes(toks, a, a, pw, esw));
                                assert(a < toks.len());
                                assert(expr_parse_fails_at(toks, a));
                            }
                            return StepResult::Aborted;
                        },
                        Ok(e) => {
                            let ghost e_snap = e;
                            let ghost mid_pos = stream.pos as int;
                            exprs.push(e);
                            proof {
                                assert forall|i2: int| 0 <= i2 < exprs@.len() implies (
                                #[trigger] exprs@[i2]).wf() by {
                                    if i2 < exprs_before.len() {
                                        assert(exprs_before[i2].wf());
                                    }
                                }
                            }
                            let inner = self.parse_match_step(stream, pt, exprs);
                            match inner {
                                StepResult::Found(n) => {
                                    proof {
                                        let pushed = exprs_before.push(e);
                                        let es = exprs@.skip(old(exprs)@.len() as int);
                                        let p_inner = choose|p: Seq<
                                            Option<(TokenKind, Option<Seq<char>>)>,
                                        >|
                                            #[trigger] walk_from(self.nodes@, pt, p) == Some(n)
                                                && count_params(p) + pushed.len() == exprs@.len()
                                                && path_consumes(
                                                old(stream).tokens@,
                                                mid_pos,
                                                stream.pos as int,
                                                p,
                                                exprs@.skip(pushed.len() as int),
                                            ) && exact_preferring(
                                                self.nodes@,
                                                pt,
                                                toks,
                                                mid_pos,
                                                p,
                                            );
                                        let ghost pl: Option<
                                            (TokenKind, Option<Seq<char>>),
                                        > = None;
                                        let pw = seq![pl] + p_inner;
                                        assert(pw.drop_first() =~= p_inner);
                                        assert(pw.first() == pl);
                                        assert(step_target(self.nodes@, cur as int, pl) == Some(
                                            pt,
                                        ));
                                        assert(walk_from(self.nodes@, cur, pw) == Some(n));
                                        assert(count_params(pw) + old(exprs)@.len()
                                            == exprs@.len());
                                        assert forall|k: int|
                                            0 <= k < old(exprs)@.len() implies exprs@[k] == old(
                                            exprs,
                                        )@[k] by {
                                            assert(exprs@.subrange(0, pushed.len() as int)[k]
                                                == pushed[k]);
                                        }
                                        assert(exprs@.subrange(0, old(exprs)@.len() as int)
                                            =~= old(exprs)@);
                                        assert(exprs@.subrange(0, pushed.len() as int)[exprs_before.len() as int]
                                            == pushed[exprs_before.len() as int]);
                                        assert(es.len() > 0);
                                        assert(es.first() == exprs@[old(exprs)@.len() as int]);
                                        assert(es.first() == e);
                                        assert(parses_expr_at(
                                            old(stream).tokens@,
                                            old(stream).pos as int,
                                            es.first(),
                                            mid_pos,
                                        ));
                                        assert(es.drop_first() =~= exprs@.skip(
                                            pushed.len() as int,
                                        ));
                                        assert(path_consumes(
                                            old(stream).tokens@,
                                            old(stream).pos as int,
                                            stream.pos as int,
                                            pw,
                                            es,
                                        ));
                                        assert(mid_pos == a + 1);
                                        assert(exact_branch_exhausted(
                                            self.nodes@,
                                            cur,
                                            toks,
                                            a,
                                            pw,
                                        ));
                                        assert(exact_preferring(self.nodes@, cur, toks, a, pw));
                                    }
                                    return StepResult::Found(n);
                                },
                                StepResult::Aborted => {
                                    proof {
                                        let (p_i, es_i, b_i): (
                                            Seq<Option<(TokenKind, Option<Seq<char>>)>>,
                                            Seq<Expression>,
                                            int,
                                        ) = choose|
                                            p: Seq<Option<(TokenKind, Option<Seq<char>>)>>,
                                            es: Seq<Expression>,
                                            b: int,
                                        |
                                            #![trigger path_consumes(toks, mid_pos, b, p, es)]
                                            path_consumes(toks, mid_pos, b, p, es) && b
                                                < toks.len() && expr_parse_fails_at(toks, b)
                                                && match walk_from(
                                                self.nodes@,
                                                pt,
                                                p,
                                            ) {
                                                Some(t2) => (t2 as int) < self.nodes@.len()
                                                    && self.nodes@[t2 as int].child_param
                                                    is Some,
                                                None => false,
                                            };
                                        let ghost pl: Option<
                                            (TokenKind, Option<Seq<char>>),
                                        > = None;
                                        let pw = seq![pl] + p_i;
                                        let esw = seq![e_snap] + es_i;
                                        assert(pw.drop_first() =~= p_i);
                                        assert(pw.first() == pl);
                                        assert(esw.drop_first() =~= es_i);
                                        assert(esw.first() == e_snap);
                                        assert(step_target(self.nodes@, cur as int, pl) == Some(
                                            pt,
                                        ));
                                        assert(walk_from(self.nodes@, cur, pw) == walk_from(
                                            self.nodes@,
                                            pt,
                                            p_i,
                                        ));
                                        assert(parses_expr_at(toks, a, esw.first(), mid_pos));
                                        assert(path_consumes(toks, a, b_i, pw, esw));
                                    }
                                    return StepResult::Aborted;
                                },
                                StepResult::NoMatch => {
                                    exprs.pop();
                                    stream.restore(checkpoint2);
                                    proof {
                                        assert(exprs@ =~= exprs_before);
                                        assert(parses_expr_at(toks, a, e_snap, mid_pos));
                                        assert(mid_pos == a + 1);
                                        assert(match self.nodes@[cur as int].child_param {
                                            Some(pt2) => !accepting_from(
                                                self.nodes@,
                                                pt2,
                                                toks,
                                                a + 1,
                                            ),
                                            None => true,
                                        });
                                    }
                                },
                            }
                        },
                    }
                },
                None => {
                    proof {
                        assert(match self.nodes@[cur as int].child_param {
                            Some(pt2) => !accepting_from(self.nodes@, pt2, toks, a + 1),
                            None => true,
                        });
                    }
                },
            }
        }
        let node3 = &self.nodes[cur];
        if node3.rule_indices.len() != 0 {
            if stream.next_is_linebreak() {
                proof {
                    let pw = Seq::<Option<(TokenKind, Option<Seq<char>>)>>::empty();
                    assert(walk_from(self.nodes@, cur, pw) == Some(cur));
                    assert(count_params(pw) == 0);
                    assert(exprs@.subrange(0, old(exprs)@.len() as int) =~= old(exprs)@);
                    assert(exprs@.skip(old(exprs)@.len() as int) =~= Seq::<Expression>::empty());
                    assert(path_consumes(
                        old(stream).tokens@,
                        old(stream).pos as int,
                        stream.pos as int,
                        pw,
                        exprs@.skip(old(exprs)@.len() as int),
                    ));
                    assert(exact_preferring(self.nodes@, cur, toks, a, pw));
                }
                return StepResult::Found(cur);
            }
        }
        proof {
            if accepting_from(self.nodes@, cur, toks, a) {
                let (p, es): (
                    Seq<Option<(TokenKind, Option<Seq<char>>)>>,
                    Seq<Expression>,
                ) = choose|p: Seq<Option<(TokenKind, Option<Seq<char>>)>>, es: Seq<Expression>|
                    #![trigger path_consumes(toks, a, toks.len() as int, p, es)]
                    path_consumes(toks, a, toks.len() as int, p, es) && match walk_from(
                        self.nodes@,
                        cur,
                        p,
                    ) {
                        Some(t) => (t as int) < self.nodes@.len()
                            && self.nodes@[t as int].rule_indices@.len() > 0,
                        None => false,
                    };
                if p.len() == 0 {
                    assert(a == toks.len());
                    assert(self.nodes@[cur as int].rule_indices@.len() > 0);
                    assert(stream.pos == a);
                    assert(false);
                } else {
                    match p.first() {
                        Some(key) => {
                            assert(0 <= a < toks.len() && token_key(toks[a]) == key);
                            let t2 = step_target(
                                self.nodes@,
                                cur as int,
                                Some(token_key(toks[a])),
                            ).unwrap();
                            assert(step_target(self.nodes@, cur as int, p.first()) == Some(t2));
                            assert(!accepting_from(self.nodes@, t2, toks, a + 1));
                            assert(path_consumes(
                                toks,
                                a + 1,
                                toks.len() as int,
                                p.drop_first(),
                                es,
                            ));
                            assert(walk_from(self.nodes@, t2, p.drop_first()) == walk_from(
                                self.nodes@,
                                cur,
                                p,
                            ));
                            assert(accepting_from(self.nodes@, t2, toks, a + 1));
                            assert(false);
                        },
                        None => {
                            let pt2 = step_target(self.nodes@, cur as int, None).unwrap();
                            assert(self.nodes@[cur as int].child_param == Some(pt2));
                            assert(!accepting_from(self.nodes@, pt2, toks, a + 1));
                            let mid = choose|mid: int|
                                #[trigger] parses_expr_at(toks, a, es.first(), mid)
                                    && path_consumes(
                                    toks,
                                    mid,
                                    toks.len() as int,
                                    p.drop_first(),
                                    es.drop_first(),
                                );
                            assert(mid == a + 1);
                            assert(walk_from(self.nodes@, pt2, p.drop_first()) == walk_from(
                                self.nodes@,
                                cur,
                                p,
                            ));
                            assert(accepting_from(self.nodes@, pt2, toks, a + 1));
                            assert(false);
                        },
                    }
                }
            }
        }
        StepResult::NoMatch
    }

    /// Walks the trie against one line of tokens, returning `None` where no
    /// candidate pattern matches. A returned match exhibits an accepting
    /// path: the line's tokens decompose along it exactly to the line
    /// boundary — each exact edge consuming the one token it is keyed on,
    /// each parameter edge consuming one parsed argument expression, captured
    /// in `exprs` in source order — and `rule_indices` is the ascending,
    /// non-empty terminal list of the node that path reaches. `None` is
    /// returned only where no such accepting decomposition of the line
    /// exists, or where a reachable parameter edge faces a position the
    /// argument parser rejects (a fatal abort).
    pub fn parse_match(&self, stream: &mut TokenStream) -> (r: Option<Match>)
        requires
            self.wf(),
            old(stream).wf(),
        ensures
            final(stream).wf(),
            final(stream).tokens@ == old(stream).tokens@,
            exact_path_accepts(
                self.nodes@,
                0,
                line_keys(old(stream).tokens@, old(stream).pos as int),
            ) ==> r is Some,
            match r {
                Some(m) => {
                    &&& m.rule_indices@.len() > 0
                    &&& strictly_sorted(m.rule_indices@)
                    &&& exprs_wf(m.exprs@)
                    &&& final(stream).pos == final(stream).tokens@.len()
                    &&& forall|k: int, j: int|
                        #![trigger nodes_bounded(self.nodes@, k), m.rule_indices@[j]]
                        self.bounded(k) && 0 <= j < m.rule_indices@.len() ==> m.rule_indices@[j]
                            < k
                    &&& exists|p: Seq<Option<(TokenKind, Option<Seq<char>>)>>, n: usize|
                        #![trigger walk_from(self.nodes@, 0, p), self.nodes@[n as int]]
                        walk_from(self.nodes@, 0, p) == Some(n) && n < self.nodes@.len()
                            && self.nodes@[n as int].rule_indices@ == m.rule_indices@
                            && count_params(p) == m.exprs@.len() && path_consumes(
                            old(stream).tokens@,
                            old(stream).pos as int,
                            final(stream).pos as int,
                            p,
                            m.exprs@,
                        ) && exact_preferring(
                            self.nodes@,
                            0,
                            old(stream).tokens@,
                            old(stream).pos as int,
                            p,
                        )
                },
                None => !accepting_from(
                    self.nodes@,
                    0,
                    old(stream).tokens@,
                    old(stream).pos as int,
                ) || abort_reachable(
                    self.nodes@,
                    0,
                    old(stream).tokens@,
                    old(stream).pos as int,
                ),
            },
    {
        let mut exprs: Vec<Expression> = Vec::new();
        proof {
            assert(exprs_wf(exprs@));
        }
        let res = self.parse_match_step(stream, 0, &mut exprs);
        match res {
            StepResult::Found(n) => {
                let indices = copy_indices(&self.nodes[n].rule_indices);
                proof {
                    assert(node_wf(self.nodes@, n as int));
                    assert(exprs@.skip(0) =~= exprs@);
                }
                Some(Match { rule_indices: indices, exprs })
            },
            StepResult::NoMatch => None,
            StepResult::Aborted => None,
        }
    }
}

/// A walk that reaches a node spells exactly the extension of the starting
/// node's recorded path by the labels walked.
pub proof fn lemma_walk_is_node_path(
    ns: Seq<MatchStep>,
    from: usize,
    p: Seq<Option<(TokenKind, Option<Seq<char>>)>>,
    n: usize,
)
    requires
        nodes_wf(ns),
        paths_wf(ns),
        (from as int) < ns.len(),
        walk_from(ns, from, p) == Some(n),
    ensures
        (n as int) < ns.len(),
        ns[n as int].path@ == ns[from as int].path@ + p,
    decreases p.len(),
{
    assert(node_wf(ns, from as int));
    assert(edge_paths_ok(ns, from as int));
    if p.len() == 0 {
        assert(ns[from as int].path@ + p =~= ns[from as int].path@);
    } else {
        let l = p.first();
        let t = step_target(ns, from as int, l).unwrap();
        match l {
            Some(key) => {
                lemma_first_exact_is_edge(ns[from as int].children_exact@, key);
                assert(ns[t as int].path@ == ns[from as int].path@.push(l));
            },
            None => {
                assert(ns[t as int].path@ == ns[from as int].path@.push(l));
            },
        }
        assert((t as int) < ns.len());
        lemma_walk_is_node_path(ns, t, p.drop_first(), n);
        assert(ns[n as int].path@ == ns[from as int].path@.push(l) + p.drop_first());
        assert(ns[from as int].path@.push(l) + p.drop_first() =~= ns[from as int].path@ + p);
    }
}

/// Walking one more label steps from wherever the shorter walk ended.
proof fn lemma_walk_snoc(
    ns: Seq<MatchStep>,
    n: usize,
    p: Seq<Option<(TokenKind, Option<Seq<char>>)>>,
    l: Option<(TokenKind, Option<Seq<char>>)>,
)
    ensures
        walk_from(ns, n, p.push(l)) == (match walk_from(ns, n, p) {
            Some(t) => step_target(ns, t as int, l),
            None => None::<usize>,
        }),
    decreases p.len(),
{
    if p.len() == 0 {
        assert(p.push(l).drop_first() =~= Seq::<Option<(TokenKind, Option<Seq<char>>)>>::empty());
        assert(p.push(l).first() == l);
        assert(walk_from(ns, n, p) == Some(n));
        match step_target(ns, n as int, l) {
            Some(t) => {
                assert(walk_from(ns, t, p.push(l).drop_first()) == Some(t));
            },
            None => {},
        }
    } else {
        assert(p.push(l).first() == p.first());
        assert(p.push(l).drop_first() =~= p.drop_first().push(l));
        match step_target(ns, n as int, p.first()) {
            Some(t) => {
                lemma_walk_snoc(ns, t, p.drop_first(), l);
                assert(walk_from(ns, n, p) == walk_from(ns, t, p.drop_first()));
                assert(walk_from(ns, n, p.push(l)) == walk_from(ns, t, p.drop_first().push(l)));
            },
            None => {
                assert(walk_from(ns, n, p) is None);
                assert(walk_from(ns, n, p.push(l)) is None);
            },
        }
    }
}

/// Every node is reached from the root by walking its own recorded path.
pub proof fn lemma_node_reachable(ns: Seq<MatchStep>, n: usize)
    requires
        paths_wf(ns),
        ns.len() <= usize::MAX,
        (n as int) < ns.len(),
    ensures
        walk_from(ns, 0, ns[n as int].path@) == Some(n),
    decreases ns[n as int].path@.len(),
{
    let p = ns[n as int].path@;
    if p.len() == 0 {
        assert(ns[0].path@ =~= p);
        assert(ns[0].path@ == ns[n as int].path@);
        assert(n == 0);
    } else {
        assert(has_parent_edge(ns, n as int));
        let par = choose|par: int|
            0 <= par < ns.len() && #[trigger] ns[par].path@ == p.drop_last() && step_target(
                ns,
                par,
                p.last(),
            ) == Some(n);
        assert(par as usize as int == par);
        assert(ns[par].path@.len() < p.len());
        lemma_node_reachable(ns, par as usize);
        lemma_walk_snoc(ns, 0, p.drop_last(), p.last());
        assert(p.drop_last().push(p.last()) =~= p);
        assert(walk_from(ns, 0, p) == walk_from(ns, 0, p.drop_last().push(p.last())));
    }
}

/// Law: a line that spells some rule's whole pattern admits an accepting
/// run, so `parse_match` answers `Some` on it unless a reachable parameter
/// edge faces a token the argument parser rejects.
pub proof fn lemma_spelled_pattern_accepts(
    ns: Seq<MatchStep>,
    rules: Seq<Rule>,
    tokens: Seq<Token>,
    a: int,
    i: int,
    es: Seq<Expression>,
)
    requires
        paths_wf(ns),
        ns.len() <= usize::MAX,
        placed_complete(ns, rules, rules.len() as int),
        0 <= i < rules.len(),
        path_consumes(tokens, a, tokens.len() as int, rule_path(rules, i), es),
    ensures
        accepting_from(ns, 0, tokens, a),
{
    let n = choose|n: int|
        0 <= n < ns.len() && (#[trigger] ns[n].path@) == rule_path(rules, i)
            && ns[n].rule_indices@.contains(i as usize);
    lemma_node_reachable(ns, n as usize);
    assert(ns[n].rule_indices@.len() > 0);
    assert(walk_from(ns, 0, rule_path(rules, i)) == Some(n as usize));
}

/// Law: a successful match instantiates each reported rule's whole pattern.
/// For the accepting path `p` that `parse_match`'s contract exhibits — the
/// path the consumed tokens and captures decompose along — every reported
/// rule index names a rule whose pattern spells exactly `p`.
pub proof fn lemma_match_instantiates_pattern(
    ns: Seq<MatchStep>,
    rules: Seq<Rule>,
    p: Seq<Option<(TokenKind, Option<Seq<char>>)>>,
    n: usize,
    reported: Seq<usize>,
    x: usize,
)
    requires
        nodes_wf(ns),
        paths_wf(ns),
        placed_sound(ns, rules, rules.len() as int),
        walk_from(ns, 0, p) == Some(n),
        (n as int) < ns.len(),
        ns[n as int].rule_indices@ == reported,
        reported.contains(x),
    ensures
        (x as int) < rules.len(),
        rule_path(rules, x as int) == p,
{
    lemma_walk_is_node_path(ns, 0, p, n);
    assert(ns[0].path@ + p =~= p);
    let ji = choose|ji: int| 0 <= ji < reported.len() && reported[ji] == x;
    assert(ns[n as int].rule_indices@[ji] == x);
    assert(rule_path(rules, x as int) == ns[n as int].path@);
}

/// Two strictly ascending sequences with the same members are equal.
proof fn lemma_sorted_unique(s1: Seq<usize>, s2: Seq<usize>)
    requires
        strictly_sorted(s1),
        strictly_sorted(s2),
        forall|x: usize| s1.contains(x) <==> s2.contains(x),
    ensures
        s1 == s2,
    decreases s1.len(),
{
    if s1.len() == 0 {
        if s2.len() > 0 {
            assert(s2.contains(s2[0]));
            assert(false);
        }
        assert(s1 =~= s2);
    } else {
        assert(s1.contains(s1[0]));
        assert(s2.contains(s2[0]));
        let i2 = choose|i: int| 0 <= i < s2.len() && s2[i] == s1[0];
        let i1 = choose|i: int| 0 <= i < s1.len() && s1[i] == s2[0];
        assert(s2[0] <= s2[i2] && s1[0] <= s1[i1]);
        assert(s1[0] == s2[0]);
        let t1 = s1.drop_first();
        let t2 = s2.drop_first();
        assert(strictly_sorted(t1)) by {
            assert(forall|a: int, b: int|
                0 <= a < b < t1.len() ==> t1[a] == s1[a + 1] && t1[b] == s1[b + 1]);
        }
        assert(strictly_sorted(t2)) by {
            assert(forall|a: int, b: int|
                0 <= a < b < t2.len() ==> t2[a] == s2[a + 1] && t2[b] == s2[b + 1]);
        }
        assert forall|x: usize| t1.contains(x) implies t2.contains(x) by {
            let a = choose|a: int| 0 <= a < t1.len() && t1[a] == x;
            assert(s1[a + 1] == x);
            assert(s1[0] < x);
            assert(s1.contains(x));
            assert(s2.contains(x));
            let b = choose|b: int| 0 <= b < s2.len() && s2[b] == x;
            assert(b > 0);
            assert(t2[b - 1] == x);
        }
        assert forall|x: usize| t2.contains(x) implies t1.contains(x) by {
            let a = choose|a: int| 0 <= a < t2.len() && t2[a] == x;
            assert(s2[a + 1] == x);
            assert(s2[0] < x);
            assert(s2.contains(x));
            assert(s1.contains(x));
            let b = choose|b: int| 0 <= b < s1.len() && s1[b] == x;
            assert(b > 0);
            assert(t1[b - 1] == x);
        }
        lemma_sorted_unique(t1, t2);
        assert forall|i: int| 0 <= i < s1.len() implies s1[i] == s2[i] by {
            if i > 0 {
                assert(t1[i - 1] == t2[i - 1]);
            }
        }
        assert(s1 =~= s2);
    }
}

/// Law: two rules with identical whole patterns always match together. Any
/// terminal list produced by a matcher built from `rules` — in particular the
/// `rule_indices` of every successful `Match`, which `parse_match` ensures
/// equals some node's list — that reports one of the two reports the other.
pub proof fn lemma_identical_patterns_match_together(
    ns: Seq<MatchStep>,
    rules: Seq<Rule>,
    reported: Seq<usize>,
    i: usize,
    j: usize,
    n: int,
)
    requires
        paths_wf(ns),
        placed_sound(ns, rules, rules.len() as int),
        placed_complete(ns, rules, rules.len() as int),
        0 <= n < ns.len(),
        ns[n].rule_indices@ == reported,
        (i as int) < rules.len(),
        (j as int) < rules.len(),
        rule_path(rules, i as int) == rule_path(rules, j as int),
        reported.contains(i),
    ensures
        reported.contains(j),
{
    let ji = choose|ji: int| 0 <= ji < reported.len() && reported[ji] == i;
    assert(ns[n].rule_indices@[ji] == i);
    assert(rule_path(rules, i as int) == ns[n].path@);
    let n2 = choose|n2: int|
        0 <= n2 < ns.len() && (#[trigger] ns[n2].path@) == rule_path(rules, j as int)
            && ns[n2].rule_indices@.contains(j);
    assert(ns[n2].path@ == ns[n].path@);
    assert(n2 == n);
}

/// Law: building the matcher from one rule set is deterministic at the level
/// the trie is read: in any two matchers built from the same rules, nodes
/// reached by the same label path record identical terminal lists, and every
/// rule's path has a node in both (the latter is `placed_complete` itself).
pub proof fn lemma_build_deterministic(
    ns1: Seq<MatchStep>,
    ns2: Seq<MatchStep>,
    rules: Seq<Rule>,
    n1: int,
    n2: int,
)
    requires
        nodes_wf(ns1),
        nodes_wf(ns2),
        paths_wf(ns1),
        paths_wf(ns2),
        placed_sound(ns1, rules, rules.len() as int),
        placed_complete(ns1, rules, rules.len() as int),
        placed_sound(ns2, rules, rules.len() as int),
        placed_complete(ns2, rules, rules.len() as int),
        0 <= n1 < ns1.len(),
        0 <= n2 < ns2.len(),
        ns1[n1].path@ == ns2[n2].path@,
    ensures
        ns1[n1].rule_indices@ == ns2[n2].rule_indices@,
{
    assert(node_wf(ns1, n1));
    assert(node_wf(ns2, n2));
    assert forall|x: usize| ns1[n1].rule_indices@.contains(x) implies
        ns2[n2].rule_indices@.contains(x) by {
        let ji = choose|ji: int|
            0 <= ji < ns1[n1].rule_indices@.len() && ns1[n1].rule_indices@[ji] == x;
        assert(ns1[n1].rule_indices@[ji] == x);
        assert((x as int) < rules.len() && rule_path(rules, x as int) == ns1[n1].path@);
        let m2 = choose|m2: int|
            0 <= m2 < ns2.len() && (#[trigger] ns2[m2].path@) == rule_path(rules, x as int)
                && ns2[m2].rule_indices@.contains(x);
        assert(ns2[m2].path@ == ns2[n2].path@);
        assert(m2 == n2);
    }
    assert forall|x: usize| ns2[n2].rule_indices@.contains(x) implies
        ns1[n1].rule_indices@.contains(x) by {
        let ji = choose|ji: int|
            0 <= ji < ns2[n2].rule_indices@.len() && ns2[n2].rule_indices@[ji] == x;
        assert(ns2[n2].rule_indices@[ji] == x);
        assert((x as int) < rules.len() && rule_path(rules, x as int) == ns2[n2].path@);
        let m1 = choose|m1: int|
            0 <= m1 < ns1.len() && (#[trigger] ns1[m1].path@) == rule_path(rules, x as int)
                && ns1[m1].rule_indices@.contains(x);
        assert(ns1[m1].path@ == ns1[n1].path@);
        assert(m1 == n1);
    }
    lemma_sorted_unique(ns1[n1].rule_indices@, ns2[n2].rule_indices@);
}

/// Law completion for deterministic construction: the populated paths agree
/// as well. Every node of one build has a node with the same path in the
/// other, so with `lemma_build_deterministic` the two tries are the same
/// abstract trie: same paths, and identical sorted terminal lists at each.
pub proof fn lemma_build_same_shape(
    ns1: Seq<MatchStep>,
    ns2: Seq<MatchStep>,
    rules: Seq<Rule>,
    n1: int,
)
    requires
        paths_wf(ns1),
        paths_wf(ns2),
        paths_are_prefixes(ns1, rules, rules.len() as int),
        prefixes_present(ns2, rules, rules.len() as int),
        0 <= n1 < ns1.len(),
    ensures
        exists|n2: int| 0 <= n2 < ns2.len() && (#[trigger] ns2[n2].path@) == ns1[n1].path@,
{
    if ns1[n1].path@.len() == 0 {
        assert(ns2[0].path@ =~= ns1[n1].path@);
    } else {
        let i = choose|i: int|
            0 <= i < rules.len() && ns1[n1].path@.is_prefix_of(#[trigger] rule_path(rules, i));
        let j = ns1[n1].path@.len() as int;
        assert(ns1[n1].path@ =~= rule_path(rules, i).subrange(0, j));
        let n2 = choose|n2: int|
            0 <= n2 < ns2.len() && (#[trigger] ns2[n2].path@) == rule_path(rules, i).subrange(
                0,
                j,
            );
        assert(ns2[n2].path@ == ns1[n1].path@);
    }
}

/// An exact copy of a list of rule indices.
fn copy_indices(v: &Vec<usize>) -> (r: Vec<usize>)
    ensures
        r@ == v@,
{
    let mut r: Vec<usize> = Vec::new();
    let mut i: usize = 0;
    while i < v.len()
        invariant
            i <= v@.len(),
            r@ == v@.subrange(0, i as int),
        decreases v@.len() - i,
    {
        r.push(v[i]);
        i = i + 1;
    }
    proof {
        assert(r@ =~= v@);
    }
    r
}

} // verus!
