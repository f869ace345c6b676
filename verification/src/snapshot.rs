//! The text form of an accessibility tree snapshot.

use vstd::prelude::*;
use vstd::string::StringExecFns;
use crate::console::{get_member, get_text, member_of, member_text, string_or, text_or};
use crate::json::{pretty_json, pretty_text, Json};
use crate::text::{push_char, str_eq};

verus! {

/// The text of the member `value` of the member `key` of an accessibility node, or empty.
pub open spec fn ax_text(node: Json, key: Seq<char>) -> Seq<char> {
    text_or(member_text(member_of(Some(node), key), "value"@), ""@)
}

/// The depth of an accessibility node, 0 when it has none.
pub open spec fn depth_of(node: Json) -> nat {
    match member_of(Some(node), "depth"@) {
        Some(d) => match d.unsigned() {
            Some(u) => u as nat,
            None => 0,
        },
        None => 0,
    }
}

/// Two spaces per level of depth.
pub open spec fn indent(depth: nat) -> Seq<char>
    decreases depth,
{
    if depth == 0 {
        Seq::empty()
    } else {
        indent((depth - 1) as nat) + seq![' ', ' ']
    }
}

/// Roles that the text form leaves out.
pub open spec fn hidden_role(role: Seq<char>) -> bool {
    role == "none"@ || role == "generic"@ || role == "Ignored"@
}

/// `[role]`, the name in quotes when there is one, `#id` and a line end.
pub open spec fn node_text(role: Seq<char>, name: Seq<char>, id: Seq<char>) -> Seq<char> {
    if name.len() == 0 {
        "["@ + role + "] #"@ + id + "\n"@
    } else {
        "["@ + role + "] \""@ + name + "\" #"@ + id + "\n"@
    }
}

/// The line of one node: indented by its depth, `[role]`, its name in quotes when it
/// has one, and `#id`; nothing for a hidden role.
pub open spec fn node_line(node: Json) -> Seq<char> {
    let role = ax_text(node, "role"@);
    if hidden_role(role) {
        Seq::empty()
    } else {
        indent(depth_of(node)) + node_text(
            role,
            ax_text(node, "name"@),
            text_or(member_text(Some(node), "nodeId"@), ""@),
        )
    }
}

/// The lines of the nodes, in order.
pub open spec fn snapshot_text(nodes: Seq<Json>) -> Seq<char>
    decreases nodes.len(),
{
    if nodes.len() == 0 {
        Seq::empty()
    } else {
        snapshot_text(nodes.drop_last()) + node_line(nodes.last())
    }
}

/// The node list of a reply, when it has one.
pub open spec fn node_list(reply: Json) -> Option<Seq<Json>> {
    match reply.field("nodes"@) {
        Some(n) => n.elements(),
        None => None,
    }
}

/// The report of a snapshot: the reply as pretty-printed JSON when JSON is asked for or
/// the reply holds no node list, else the text form of the tree.
pub open spec fn snapshot_report(reply: Json, as_json: bool) -> Seq<char> {
    if as_json || node_list(reply) is None {
        pretty_text(reply@)
    } else {
        snapshot_text(node_list(reply)->0)
    }
}

/// The text of the member `value` of the member `key` of an accessibility node, or empty.
fn node_ax_text(node: &Json, key: &str) -> (t: String)
    ensures
        t@ == ax_text(*node, key@),
{
    string_or(get_text(get_member(Some(node), key), "value"), "")
}

/// The depth of an accessibility node, 0 when it has none.
fn node_depth(node: &Json) -> (d: u64)
    ensures
        d as nat == depth_of(*node),
{
    match get_member(Some(node), "depth") {
        Some(d) => match d.as_u64() {
            Some(u) => u,
            None => 0,
        },
        None => 0,
    }
}

/// Whether a role is left out of the text form.
fn is_hidden_role(role: &str) -> (b: bool)
    ensures
        b == hidden_role(role@),
{
    str_eq(role, "none") || str_eq(role, "generic") || str_eq(role, "Ignored")
}

/// Appends the line of one node.
fn push_node_line(out: &mut String, node: &Json)
    ensures
        final(out)@ == old(out)@ + node_line(*node),
{
    let role = node_ax_text(node, "role");
    if is_hidden_role(role.as_str()) {
        proof {
            assert(old(out)@ + Seq::<char>::empty() =~= old(out)@);
        }
        return;
    }
    let name = node_ax_text(node, "name");
    let id = string_or(get_text(Some(node), "nodeId"), "");
    let depth = node_depth(node);
    push_indent(out, depth);
    let ghost mid = out@;
    push_node_text(out, role.as_str(), name.as_str(), id.as_str());
    proof {
        let ind = indent(depth as nat);
        let nt = node_text(role@, name@, id@);
        assert(mid == old(out)@ + ind);
        assert(final(out)@ == mid + nt);
        assert((old(out)@ + ind) + nt =~= old(out)@ + (ind + nt));
    }
}

/// Appends two spaces per level of depth.
fn push_indent(out: &mut String, depth: u64)
    ensures
        final(out)@ == old(out)@ + indent(depth as nat),
{
    let ghost start = out@;
    let mut k: u64 = 0;
    proof {
        assert(start + indent(0) =~= start);
    }
    while k < depth
        invariant
            k <= depth,
            out@ == start + indent(k as nat),
        decreases depth - k,
    {
        push_char(out, ' ');
        push_char(out, ' ');
        k = k + 1;
        proof {
            assert(out@ =~= start + indent(k as nat));
        }
    }
}

/// Appends `[role]`, the name in quotes when there is one, `#id` and a line end.
fn push_node_text(out: &mut String, role: &str, name: &str, id: &str)
    ensures
        final(out)@ == old(out)@ + node_text(role@, name@, id@),
{
    out.append("[");
    out.append(role);
    if name.is_empty() {
        out.append("] #");
    } else {
        out.append("] \"");
        out.append(name);
        out.append("\" #");
    }
    out.append(id);
    out.append("\n");
    proof {
        if name@.len() == 0 {
            assert(final(out)@ =~= old(out)@ + ("["@ + role@ + "] #"@ + id@ + "\n"@));
        } else {
            assert(final(out)@ =~= old(out)@ + ("["@ + role@ + "] \""@ + name@ + "\" #"@ + id@ + "\n"@));
        }
    }
}

/// Reads the reply of `Accessibility.getFullAXTree`: as JSON, or when it holds no node
/// list, the reply itself; otherwise one line per node that is not hidden.
pub fn take_snapshot(reply: &Json, as_json: bool) -> (t: String)
    ensures
        t@ == snapshot_report(*reply, as_json),
{
    if as_json {
        return pretty_json(reply);
    }
    let nodes = match reply.get("nodes") {
        Some(n) => match n.as_array() {
            Some(nodes) => nodes,
            None => return pretty_json(reply),
        },
        None => return pretty_json(reply),
    };
    let mut out = String::new();
    let mut i: usize = 0;
    proof {
        assert(nodes@.take(0) =~= Seq::<Json>::empty());
    }
    while i < nodes.len()
        invariant
            i <= nodes@.len(),
            out@ == snapshot_text(nodes@.take(i as int)),
        decreases nodes@.len() - i,
    {
        push_node_line(&mut out, &nodes[i]);
        proof {
            let t = nodes@.take(i + 1);
            assert(t.drop_last() == nodes@.take(i as int));
            assert(t.last() == nodes@[i as int]);
        }
        i = i + 1;
    }
    proof {
        assert(nodes@.take(nodes@.len() as int) == nodes@);
    }
    out
}

/// Each node of the list adds its own line at the end of the text form: the nodes of
/// role `none`, `generic` or `Ignored` add nothing, and every other node adds, indented by
/// two spaces per level of depth, `[role]`, its name in quotes when it has one, `#` and
/// its id, and a line end.
pub proof fn lemma_snapshot_node_lines(nodes: Seq<Json>, n: Json)
    ensures
        ({
            let role = text_or(member_text(member_of(Some(n), "role"@), "value"@), ""@);
            let name = text_or(member_text(member_of(Some(n), "name"@), "value"@), ""@);
            let id = text_or(member_text(Some(n), "nodeId"@), ""@);
            let line = if name.len() == 0 {
                "["@ + role + "] #"@ + id + "\n"@
            } else {
                "["@ + role + "] \""@ + name + "\" #"@ + id + "\n"@
            };
            &&& (role == "none"@ || role == "generic"@ || role == "Ignored"@) ==> snapshot_text(nodes.push(n))
                == snapshot_text(nodes)
            &&& !(role == "none"@ || role == "generic"@ || role == "Ignored"@) ==> snapshot_text(nodes.push(n))
                == snapshot_text(nodes) + indent(depth_of(n)) + line
        }),
{
    assert(nodes.push(n).drop_last() == nodes);
    assert(nodes.push(n).last() == n);
    let tail = node_line(n);
    assert(snapshot_text(nodes.push(n)) == snapshot_text(nodes) + tail);
    if hidden_role(ax_text(n, "role"@)) {
        assert(snapshot_text(nodes) + tail =~= snapshot_text(nodes));
    } else {
        assert(snapshot_text(nodes) + tail =~= snapshot_text(nodes) + indent(depth_of(n)) + node_text(
            ax_text(n, "role"@),
            ax_text(n, "name"@),
            text_or(member_text(Some(n), "nodeId"@), ""@),
        ));
    }
}

/// The indentation of a node is two spaces for each level of its depth.
pub proof fn lemma_indent_is_two_spaces_per_level(depth: nat)
    ensures
        indent(depth) == Seq::new(2 * depth, |i: int| ' '),
    decreases depth,
{
    if depth > 0 {
        lemma_indent_is_two_spaces_per_level((depth - 1) as nat);
    }
    assert(indent(depth) =~= Seq::new(2 * depth, |i: int| ' '));
}

} // verus!
