//! The syntax errors of a parsed code file: the error and missing nodes of
//! its syntax tree, found by walking only the parts that hold errors.
use crate::diagnostics::SyntaxError;
use crate::position::Range;
use crate::text::concat;
use vstd::prelude::*;

verus! {

/// A node of a parsed syntax tree, as far as the search for errors reads it:
/// its kind, whether the parser made it for text it could not place
/// (`is_error`) or for text it expected and did not find (`is_missing`),
/// whether an error lies anywhere below it (`has_error`), where it stands,
/// and its children in order.
pub struct ParseNode {
    pub kind: String,
    pub is_error: bool,
    pub is_missing: bool,
    pub has_error: bool,
    pub range: Range,
    pub children: Vec<ParseNode>,
}

/// A syntax error as its range and message.
pub open spec fn error_view(e: SyntaxError) -> (Range, Option<Seq<char>>) {
    (
        e.range,
        match e.message {
            Some(m) => Some(m@),
            None => None,
        },
    )
}

pub open spec fn errors_view(v: Seq<SyntaxError>) -> Seq<(Range, Option<Seq<char>>)> {
    v.map_values(|e: SyntaxError| error_view(e))
}

/// The syntax errors below and at `n`, in tree order. An error or missing
/// node is one error (a missing node's message names what is missing) and
/// is not searched further; a node with no error below it holds none.
pub open spec fn spec_node_errors(n: ParseNode) -> Seq<(Range, Option<Seq<char>>)>
    decreases n,
{
    if n.is_error || n.is_missing {
        seq![
            (
                n.range,
                if n.is_missing {
                    Some("Missing "@ + n.kind@)
                } else {
                    None
                },
            ),
        ]
    } else if !n.has_error {
        Seq::empty()
    } else {
        children_errors(n.children@)
    }
}

/// The syntax errors of a run of sibling nodes, one after the other.
pub open spec fn children_errors(cs: Seq<ParseNode>) -> Seq<(Range, Option<Seq<char>>)>
    decreases cs,
{
    if cs.len() == 0 {
        Seq::empty()
    } else {
        children_errors(cs.drop_last()) + spec_node_errors(cs.last())
    }
}

fn collect_errors(node: &ParseNode, out: &mut Vec<SyntaxError>)
    ensures
        errors_view(final(out)@) == errors_view(old(out)@) + spec_node_errors(*node),
    decreases node,
{
    if node.is_error || node.is_missing {
        let message = if node.is_missing {
            Some(concat("Missing ", node.kind.as_str()))
        } else {
            None
        };
        let ghost before = out@;
        out.push(SyntaxError { range: node.range, message });
        proof {
            assert(out@ == before.push(out@.last()));
            assert(errors_view(out@) =~= errors_view(before) + spec_node_errors(*node));
        }
        return;
    }
    if !node.has_error {
        assert(errors_view(out@) =~= errors_view(out@) + spec_node_errors(*node));
        return;
    }
    let ghost start = errors_view(out@);
    let mut i: usize = 0;
    while i < node.children.len()
        invariant
            0 <= i <= node.children.len(),
            node.has_error,
            !node.is_error && !node.is_missing,
            errors_view(out@) == start + children_errors(node.children@.take(i as int)),
        decreases node.children.len() - i,
    {
        proof {
            assert(decreases_to!(*node => node.children));
            assert(decreases_to!(node.children => node.children@));
            assert(decreases_to!(node.children@ => node.children@[i as int]));
        }
        collect_errors(&node.children[i], out);
        proof {
            let t = node.children@.take(i + 1);
            assert(t.drop_last() =~= node.children@.take(i as int));
            assert(t.last() == node.children@[i as int]);
            assert(errors_view(out@) =~= start + children_errors(t));
        }
        i += 1;
    }
    proof {
        assert(node.children@.take(node.children@.len() as int) =~= node.children@);
    }
}

/// The syntax errors of the tree below `root`, in tree order.
pub fn syntax_errors_of(root: &ParseNode) -> (r: Vec<SyntaxError>)
    ensures
        errors_view(r@) == spec_node_errors(*root),
{
    let mut out: Vec<SyntaxError> = Vec::new();
    collect_errors(root, &mut out);
    assert(errors_view(Seq::<SyntaxError>::empty()) =~= Seq::<(Range, Option<Seq<char>>)>::empty());
    assert(errors_view(out@) =~= spec_node_errors(*root));
    out
}

} // verus!
