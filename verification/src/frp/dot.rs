//! The text of a graph in the language of Graphviz.

use vstd::prelude::*;
use vstd::string::StringSliceAdditionalSpecFns;
use crate::frp::debug::build;
use crate::frp::debug::GraphLinkModel;
use crate::frp::debug::GraphModel;
use crate::frp::debug::GraphNodeModel;
use crate::frp::debug::Graphviz;
use crate::frp::debug::GraphvizBuilder;
use crate::frp::message::MessageType;
use crate::frp::message::Value;
use crate::frp::model::fully_wired;
use crate::frp::network::Network;

verus! {

/// The digit for a number below ten.
pub open spec fn digit_char(d: nat) -> char {
    if d == 0 {
        '0'
    } else if d == 1 {
        '1'
    } else if d == 2 {
        '2'
    } else if d == 3 {
        '3'
    } else if d == 4 {
        '4'
    } else if d == 5 {
        '5'
    } else if d == 6 {
        '6'
    } else if d == 7 {
        '7'
    } else if d == 8 {
        '8'
    } else {
        '9'
    }
}

/// The number in decimal digits, without leading zeros.
pub open spec fn spec_decimal(n: nat) -> Seq<char>
    decreases n,
{
    if n < 10 {
        seq![digit_char(n)]
    } else {
        spec_decimal(n / 10).push(digit_char(n % 10))
    }
}

/// The text of one digit.
fn digit_str(d: usize) -> (r: &'static str)
    requires
        d < 10,
    ensures
        r@ == seq![digit_char(d as nat)],
{
    proof {
        reveal_strlit("0");
        reveal_strlit("1");
        reveal_strlit("2");
        reveal_strlit("3");
        reveal_strlit("4");
        reveal_strlit("5");
        reveal_strlit("6");
        reveal_strlit("7");
        reveal_strlit("8");
        reveal_strlit("9");
    }
    let r = if d == 0 {
        "0"
    } else if d == 1 {
        "1"
    } else if d == 2 {
        "2"
    } else if d == 3 {
        "3"
    } else if d == 4 {
        "4"
    } else if d == 5 {
        "5"
    } else if d == 6 {
        "6"
    } else if d == 7 {
        "7"
    } else if d == 8 {
        "8"
    } else {
        "9"
    };
    assert(r@ =~= seq![digit_char(d as nat)]);
    r
}

/// The number in decimal digits.
pub fn decimal(n: usize) -> (r: String)
    ensures
        r@ == spec_decimal(n as nat),
    decreases n,
{
    if n < 10 {
        String::from_str(digit_str(n))
    } else {
        let mut r = decimal(n / 10);
        r.append(digit_str(n % 10));
        assert(r@ =~= spec_decimal((n / 10) as nat).push(digit_char((n % 10) as nat)));
        r
    }
}

/// The line of one node: its name, which is made of its display identifier,
/// and its label and its kind as the text that is shown.
pub open spec fn node_line(node: GraphNodeModel) -> Seq<char> {
    "  n"@ + spec_decimal(node.display_id as nat) + " [label=\""@ + node.label + ": "@ + node.kind + "\"];\n"@
}

/// The line of one edge. An edge for events is drawn solid, one for a
/// behavior dashed.
pub open spec fn link_line(link: GraphLinkModel) -> Seq<char> {
    "  n"@ + spec_decimal(link.source as nat) + " -> n"@ + spec_decimal(link.target as nat) + " [label=\""@
        + link.value_name + (if link.message_type is Event {
        "\", style=solid];\n"@
    } else {
        "\", style=dashed];\n"@
    })
}

/// The lines of the first `n` nodes.
pub open spec fn node_lines(nodes: Seq<GraphNodeModel>, n: int) -> Seq<char>
    decreases n,
{
    if n <= 0 {
        Seq::empty()
    } else {
        node_lines(nodes, n - 1) + node_line(nodes[n - 1])
    }
}

/// The lines of the first `n` edges.
pub open spec fn link_lines(links: Seq<GraphLinkModel>, n: int) -> Seq<char>
    decreases n,
{
    if n <= 0 {
        Seq::empty()
    } else {
        link_lines(links, n - 1) + link_line(links[n - 1])
    }
}

/// The text of the graph: a directed graph with a line for each node and,
/// after these, a line for each edge, in the order in which the walk found
/// them. Labels are written as they are.
pub open spec fn graph_code(g: GraphModel) -> Seq<char> {
    "digraph G {\n"@ + node_lines(g.nodes, g.nodes.len() as int) + link_lines(g.links, g.links.len() as int)
        + "}\n"@
}

impl Graphviz {
    /// The text of the graph in the language of Graphviz.
    pub fn to_code(&self) -> (r: String)
        ensures
            r@ == graph_code(self@),
    {
        let mut code = String::from_str("digraph G {\n");
        let ghost head = code@;
        let count = self.node_count();
        let mut i: usize = 0;
        while i < count
            invariant
                i <= count,
                count == self@.nodes.len(),
                head == "digraph G {\n"@,
                code@ == head + node_lines(self@.nodes, i as int),
            decreases count - i,
        {
            let node = self.node(i);
            let ghost before = code@;
            code.append("  n");
            code.append(decimal(node.display_id).as_str());
            code.append(" [label=\"");
            code.append(node.label.as_str());
            code.append(": ");
            code.append(node.kind.as_str());
            code.append("\"];\n");
            proof {
                assert(code@ =~= before + node_line(self@.nodes[i as int]));
                assert(code@ =~= head + node_lines(self@.nodes, i as int + 1));
            }
            i = i + 1;
        }
        let ghost with_nodes = code@;
        let links = self.link_count();
        let mut k: usize = 0;
        while k < links
            invariant
                k <= links,
                links == self@.links.len(),
                code@ == with_nodes + link_lines(self@.links, k as int),
            decreases links - k,
        {
            let link = self.link(k);
            let ghost before = code@;
            code.append("  n");
            code.append(decimal(link.source).as_str());
            code.append(" -> n");
            code.append(decimal(link.target).as_str());
            code.append(" [label=\"");
            code.append(link.value_name.as_str());
            match link.message_type {
                MessageType::Event => {
                    code.append("\", style=solid];\n");
                },
                MessageType::Behavior => {
                    code.append("\", style=dashed];\n");
                },
            }
            proof {
                assert(code@ =~= before + link_line(self@.links[k as int]));
                assert(code@ =~= with_nodes + link_lines(self@.links, k as int + 1));
            }
            k = k + 1;
        }
        code.append("}\n");
        proof {
            assert(code@ =~= graph_code(self@));
        }
        code
    }
}

/// The text of the part of a network that the node `id` depends on.
pub fn display_graphviz<F: Fn(&Value) -> Value, G: Fn(&Value, &Value) -> Value>(
    net: &Network<F, G>,
    id: usize,
) -> (r: String)
    requires
        net.wf(),
        fully_wired(net@),
        id < net@.len(),
    ensures
        r@ == graph_code(
            build(
                net@,
                id as int,
                GraphModel { nodes: Seq::empty(), links: Seq::empty() },
                net@.len(),
            ),
        ),
{
    let mut builder = Graphviz::new();
    assert(builder@.nodes =~= Seq::<GraphNodeModel>::empty());
    assert(builder@.links =~= Seq::<GraphLinkModel>::empty());
    crate::frp::node::AnyNode::new(id).graphviz_build(net, &mut builder);
    builder.to_code()
}

// ---------------------------------------------------------------------------
// The address under which a graph can be looked at
// ---------------------------------------------------------------------------

/// The byte is an ASCII letter or digit.
pub open spec fn is_alphanumeric(b: u8) -> bool {
    (0x30 <= b <= 0x39) || (0x41 <= b <= 0x5A) || (0x61 <= b <= 0x7A)
}

/// The digit for a number below sixteen, with capital letters.
pub open spec fn hex_char(d: nat) -> char {
    if d < 10 {
        digit_char(d)
    } else if d == 10 {
        'A'
    } else if d == 11 {
        'B'
    } else if d == 12 {
        'C'
    } else if d == 13 {
        'D'
    } else if d == 14 {
        'E'
    } else {
        'F'
    }
}

/// What stands for one byte in a percent-encoded text: the byte itself if it
/// is an ASCII letter or digit, else a percent sign and the two hexadecimal
/// digits of the byte.
pub open spec fn encoded_byte(b: u8) -> Seq<char> {
    if is_alphanumeric(b) {
        seq![b as char]
    } else {
        seq!['%', hex_char((b / 16) as nat), hex_char((b % 16) as nat)]
    }
}

/// The percent-encoding of the first `n` bytes.
pub open spec fn percent_encoded(bytes: Seq<u8>, n: int) -> Seq<char>
    decreases n,
{
    if n <= 0 {
        Seq::empty()
    } else {
        percent_encoded(bytes, n - 1) + encoded_byte(bytes[n - 1])
    }
}

/// The address of the viewer, up to the place where the text of the graph
/// stands.
pub open spec fn viewer_prefix() -> Seq<char> {
    "https://dreampuf.github.io/GraphvizOnline/#"@
}

/// Calls `utf8_percent_encode` of the crate `percent-encoding` with its set
/// `NON_ALPHANUMERIC`. The contract states what the crate does with each byte
/// of the UTF-8 form of the text: a byte that is an ASCII letter or digit is
/// kept, every other byte is replaced by `%` and its two hexadecimal digits
/// in capital letters.
#[verifier::external_body]
fn percent_encode_text(text: &str) -> (r: String)
    ensures
        r@ == percent_encoded(text.spec_bytes(), text.spec_bytes().len() as int),
{
    percent_encoding::utf8_percent_encode(text, percent_encoding::NON_ALPHANUMERIC).to_string()
}

/// The address under which the graph with the given text can be looked at.
pub fn graphviz_url(code: &str) -> (r: String)
    ensures
        r@ == viewer_prefix() + percent_encoded(code.spec_bytes(), code.spec_bytes().len() as int),
{
    let mut url = String::from_str("https://dreampuf.github.io/GraphvizOnline/#");
    let encoded = percent_encode_text(code);
    url.append(encoded.as_str());
    url
}

} // verus!
