//! Renders a dependency graph as a DOT document: one statement per node, in
//! index order, then one per edge, in insertion order.

use vstd::prelude::*;
use crate::graph::{DepGraph, GraphView};

verus! {

/// The text that dot writes inside the quotes of a plain label.
pub uninterp spec fn dot_escaped(s: Seq<char>) -> Seq<char>;

/// Relies on dot's `LabelText::to_dot_string` for a `LabelText::label`: the
/// text, escaped for DOT, between double quotes.
#[verifier::external_body]
fn quoted_label(s: &str) -> (r: String)
    ensures
        r@ == seq!['"'] + dot_escaped(s@) + seq!['"'],
{
    dot::LabelText::label(s).to_dot_string()
}

/// Relies on dot's `Id::new`: it accepts exactly the names of the form
/// `[a-zA-Z_][a-zA-Z_0-9]*`, and keeps the name as it is.
#[verifier::external_body]
fn checked_id(name: String) -> (r: Result<String, &'static str>)
    ensures
        match r {
            Ok(id) => is_dot_id(name@) && id@ == name@,
            Err(_) => !is_dot_id(name@),
        },
{
    dot::Id::new(name).map(|id| id.name().into_owned())
}

/// A label as dot writes it: escaped, between double quotes.
pub open spec fn quoted(s: Seq<char>) -> Seq<char> {
    seq!['"'] + dot_escaped(s) + seq!['"']
}

pub open spec fn is_id_start(c: char) -> bool {
    ('a' <= c && c <= 'z') || ('A' <= c && c <= 'Z') || c == '_'
}

pub open spec fn is_id_char(c: char) -> bool {
    is_id_start(c) || ('0' <= c && c <= '9')
}

/// A name that dot takes as an identifier.
pub open spec fn is_dot_id(s: Seq<char>) -> bool {
    &&& s.len() > 0
    &&& is_id_start(s[0])
    &&& forall|i: int| 1 <= i < s.len() ==> is_id_char(#[trigger] s[i])
}

/// The character of a decimal digit.
pub open spec fn digit_char(d: nat) -> char {
    if d == 0 { '0' }
    else if d == 1 { '1' }
    else if d == 2 { '2' }
    else if d == 3 { '3' }
    else if d == 4 { '4' }
    else if d == 5 { '5' }
    else if d == 6 { '6' }
    else if d == 7 { '7' }
    else if d == 8 { '8' }
    else { '9' }
}

/// The decimal numeral of `n`, without leading zeros.
pub open spec fn decimal_text(n: nat) -> Seq<char>
    decreases n,
{
    if n < 10 {
        seq![digit_char(n)]
    } else {
        decimal_text(n / 10).push(digit_char(n % 10))
    }
}

/// The identifier of node `i`: `N` and its index.
pub open spec fn node_token(i: nat) -> Seq<char> {
    "N"@ + decimal_text(i)
}

/// The label of a node: its name and version.
pub open spec fn node_label(n: (Seq<char>, Seq<char>)) -> Seq<char> {
    n.0 + ": "@ + n.1
}

pub open spec fn node_statement(i: nat, n: (Seq<char>, Seq<char>)) -> Seq<char> {
    "    "@ + node_token(i) + "[label="@ + quoted(node_label(n)) + "];\n"@
}

pub open spec fn edge_statement(e: (nat, nat, Seq<char>)) -> Seq<char> {
    "    "@ + node_token(e.0) + " -> "@ + node_token(e.1) + "[label="@ + quoted(e.2) + "];\n"@
}

/// The statements of the first `n` nodes.
pub open spec fn node_statements(nodes: Seq<(Seq<char>, Seq<char>)>, n: nat) -> Seq<char>
    decreases n,
{
    if n == 0 {
        Seq::empty()
    } else {
        node_statements(nodes, (n - 1) as nat) + node_statement(
            (n - 1) as nat,
            nodes[n - 1],
        )
    }
}

/// The statements of the first `n` edges.
pub open spec fn edge_statements(edges: Seq<(nat, nat, Seq<char>)>, n: nat) -> Seq<char>
    decreases n,
{
    if n == 0 {
        Seq::empty()
    } else {
        edge_statements(edges, (n - 1) as nat) + edge_statement(edges[n - 1])
    }
}

/// The name of the rendered graph.
pub open spec fn graph_name() -> Seq<char> {
    "package"@
}

/// The DOT document of a graph.
pub open spec fn dot_document(g: GraphView) -> Seq<char> {
    "digraph "@ + graph_name() + " {\n"@ + node_statements(g.nodes, g.nodes.len())
        + edge_statements(g.edges, g.edges.len()) + "}\n"@
}

/// The digit `d` as text.
fn digit(d: usize) -> (r: &'static str)
    requires
        d < 10,
    ensures
        r@ == seq![digit_char(d as nat)],
{
    proof {
        reveal_strlit("0");
        reveal_strlit("1");
        reveal_strlit("2");
        reveal_strlit("3");
        reveal_strlit("4");
        reveal_strlit("5");
        reveal_strlit("6");
        reveal_strlit("7");
        reveal_strlit("8");
        reveal_strlit("9");
    }
    if d == 0 { "0" }
    else if d == 1 { "1" }
    else if d == 2 { "2" }
    else if d == 3 { "3" }
    else if d == 4 { "4" }
    else if d == 5 { "5" }
    else if d == 6 { "6" }
    else if d == 7 { "7" }
    else if d == 8 { "8" }
    else {
        assert(d == 9);
        "9"
    }
}

/// The decimal numeral of `n`.
pub fn decimal(n: usize) -> (r: String)
    ensures
        r@ == decimal_text(n as nat),
    decreases n,
{
    if n < 10 {
        String::from_str(digit(n))
    } else {
        let mut s = decimal(n / 10);
        s.append(digit(n % 10));
        s
    }
}

proof fn lemma_decimal_digits(n: nat)
    ensures
        decimal_text(n).len() > 0,
        forall|i: int| 0 <= i < decimal_text(n).len() ==> {
            let c = #[trigger] decimal_text(n)[i];
            '0' <= c && c <= '9'
        },
    decreases n,
{
    if n >= 10 {
        lemma_decimal_digits(n / 10);
    }
}

proof fn lemma_decimal_injective(n: nat, m: nat)
    requires
        decimal_text(n) == decimal_text(m),
    ensures
        n == m,
    decreases n,
{
    lemma_decimal_digits(n);
    lemma_decimal_digits(m);
    if n < 10 && m < 10 {
        assert(decimal_text(n)[0] == decimal_text(m)[0]);
    } else if n < 10 {
        assert(decimal_text(m).len() == decimal_text(m / 10).len() + 1);
    } else if m < 10 {
        assert(decimal_text(n).len() == decimal_text(n / 10).len() + 1);
    } else {
        let a = decimal_text(n);
        let b = decimal_text(m);
        assert(a.last() == b.last());
        assert(a.drop_last() =~= decimal_text(n / 10));
        assert(b.drop_last() =~= decimal_text(m / 10));
        lemma_decimal_injective(n / 10, m / 10);
    }
}

/// No two nodes share an identifier in the document, so each node statement
/// stands for a node of its own.
pub proof fn lemma_node_tokens_distinct(i: nat, j: nat)
    requires
        i != j,
    ensures
        node_token(i) != node_token(j),
{
    if node_token(i) == node_token(j) {
        reveal_strlit("N");
        assert(decimal_text(i) =~= node_token(i).skip(1));
        assert(decimal_text(j) =~= node_token(j).skip(1));
        lemma_decimal_injective(i, j);
    }
}

/// The identifier of node `i`, as dot checked it.
pub fn node_id(i: usize) -> (r: String)
    ensures
        r@ == node_token(i as nat),
{
    let mut t = String::from_str("N");
    t.append(decimal(i).as_str());
    proof {
        reveal_strlit("N");
        lemma_decimal_digits(i as nat);
        assert(is_dot_id(t@)) by {
            assert forall|k: int| 1 <= k < t@.len() implies is_id_char(#[trigger] t@[k]) by {
                assert(t@[k] == decimal_text(i as nat)[k - 1]);
            }
        }
    }
    match checked_id(t) {
        Ok(id) => id,
        Err(_) => {
            proof { assert(false); }
            String::new()
        },
    }
}

/// The statement of node `i`.
fn node_line(i: usize, name: &String, version: &String) -> (r: String)
    ensures
        r@ == node_statement(i as nat, (name@, version@)),
{
    let mut text = name.clone();
    text.append(": ");
    text.append(version.as_str());
    let label = quoted_label(text.as_str());
    let mut line = String::from_str("    ");
    line.append(node_id(i).as_str());
    line.append("[label=");
    line.append(label.as_str());
    line.append("];\n");
    line
}

/// The statement of an edge.
fn edge_line(source: usize, target: usize, label: &str) -> (r: String)
    ensures
        r@ == edge_statement((source as nat, target as nat, label@)),
{
    let quoted_text = quoted_label(label);
    let mut line = String::from_str("    ");
    line.append(node_id(source).as_str());
    line.append(" -> ");
    line.append(node_id(target).as_str());
    line.append("[label=");
    line.append(quoted_text.as_str());
    line.append("];\n");
    line
}

/// The graph as a DOT document: a directed graph named `package`, a
/// statement `N<i>[label="<name>: <version>"];` for each node in index order,
/// then `N<s> -> N<t>[label="<label>"];` for each edge in insertion order,
/// labels escaped as dot escapes them.
pub fn render(graph: &DepGraph) -> (r: String)
    requires
        graph.well_formed(),
    ensures
        r@ == dot_document(graph@),
{
    let name = match checked_id(String::from_str("package")) {
        Ok(id) => id,
        Err(_) => {
            proof {
                reveal_strlit("package");
                assert(is_dot_id("package"@));
            }
            String::new()
        },
    };
    let mut out = String::from_str("digraph ");
    out.append(name.as_str());
    out.append(" {\n");
    let ghost head = out@;
    let n = graph.node_count();
    let mut i: usize = 0;
    while i < n
        invariant
            graph.well_formed(),
            n == graph@.nodes.len(),
            i <= n,
            head == "digraph "@ + graph_name() + " {\n"@,
            out@ == head + node_statements(graph@.nodes, i as nat),
        decreases n - i,
    {
        let (node_name, node_version) = graph.node(i);
        let line = node_line(i, node_name, node_version);
        out.append(line.as_str());
        proof {
            assert(out@ =~= head + node_statements(graph@.nodes, (i + 1) as nat));
        }
        i = i + 1;
    }
    let ghost body = out@;
    let m = graph.edge_count();
    let mut j: usize = 0;
    while j < m
        invariant
            graph.well_formed(),
            m == graph@.edges.len(),
            j <= m,
            body == head + node_statements(graph@.nodes, graph@.nodes.len()),
            head == "digraph "@ + graph_name() + " {\n"@,
            out@ == body + edge_statements(graph@.edges, j as nat),
        decreases m - j,
    {
        let (source, target, label) = graph.edge(j);
        let line = edge_line(source, target, label);
        out.append(line.as_str());
        proof {
            assert(out@ =~= body + edge_statements(graph@.edges, (j + 1) as nat));
        }
        j = j + 1;
    }
    out.append("}\n");
    proof {
        assert(out@ =~= dot_document(graph@));
    }
    out
}

} // verus!
