//! The diagnostic snapshot of an accessibility subtree, written as JSON: each
//! node's attributes (absent ones as `null`) and, within the depth limit, its
//! children.

use vstd::prelude::*;
use crate::ax_path::{AxNode, AxRect};
use crate::text::{decimal, decimal_string, push_char};

verus! {

/// The lower-case hexadecimal digit of a value below 16.
pub open spec fn hex_digit(n: int) -> char {
    if n < 10 {
        ((n + 48) as u8) as char
    } else {
        ((n + 87) as u8) as char
    }
}

/// How one character is written inside a JSON string.
pub open spec fn escape_char(c: char) -> Seq<char> {
    if c == '"' {
        seq!['\\', '"']
    } else if c == '\\' {
        seq!['\\', '\\']
    } else if c == '\n' {
        seq!['\\', 'n']
    } else if c == '\r' {
        seq!['\\', 'r']
    } else if c == '\t' {
        seq!['\\', 't']
    } else if c == '\u{8}' {
        seq!['\\', 'b']
    } else if c == '\u{c}' {
        seq!['\\', 'f']
    } else if (c as u32) < 0x20 {
        seq!['\\', 'u', '0', '0', hex_digit(((c as u32) / 16) as int), hex_digit(((c as u32) % 16) as int)]
    } else {
        seq![c]
    }
}

pub open spec fn escape_seq(s: Seq<char>) -> Seq<char>
    decreases s.len(),
{
    if s.len() == 0 {
        Seq::empty()
    } else {
        escape_seq(s.drop_last()) + escape_char(s.last())
    }
}

/// A JSON string, or `null` where absent.
pub open spec fn json_opt_string(o: Option<Seq<char>>) -> Seq<char> {
    match o {
        Some(s) => seq!['"'] + escape_seq(s) + seq!['"'],
        None => "null"@,
    }
}

pub open spec fn json_opt_bool(o: Option<bool>) -> Seq<char> {
    match o {
        Some(true) => "true"@,
        Some(false) => "false"@,
        None => "null"@,
    }
}

pub open spec fn json_frame(f: Option<AxRect>) -> Seq<char> {
    match f {
        Some(r) => "{\"height\":"@ + decimal(r.height as int) + ",\"width\":"@ + decimal(r.width as int)
            + ",\"x\":"@ + decimal(r.x as int) + ",\"y\":"@ + decimal(r.y as int) + "}"@,
        None => "null"@,
    }
}

pub open spec fn str_opt(o: Option<String>) -> Option<Seq<char>> {
    match o {
        Some(s) => Some(s@),
        None => None,
    }
}

/// A node as a JSON object, its keys in order, children only while `depth`
/// is above zero.
pub open spec fn json_node(node: AxNode, depth: nat) -> Seq<char>
    decreases depth, 0int,
{
    "{\"children\":["@ + (if depth > 0 {
        json_children(node.children@, (depth - 1) as nat, node.children@.len() as int)
    } else {
        Seq::empty()
    }) + json_attrs(node)
}

/// The rest of a node's object after its children.
pub open spec fn json_attrs(node: AxNode) -> Seq<char> {
    "],\"enabled\":"@ + json_opt_bool(node.enabled) + ",\"focused\":"@ + json_opt_bool(node.focused)
        + ",\"frame\":"@ + json_frame(node.frame) + ",\"role\":"@ + json_opt_string(
        str_opt(node.info.role),
    ) + ",\"title\":"@ + json_opt_string(str_opt(node.info.title)) + ",\"value\":"@
        + json_opt_string(str_opt(node.value)) + "}"@
}

/// The first `n` of `kids` as JSON objects separated by commas.
pub open spec fn json_children(kids: Seq<AxNode>, depth: nat, n: int) -> Seq<char>
    decreases depth, n,
{
    if n <= 0 {
        Seq::empty()
    } else if n == 1 {
        json_node(kids[0], depth)
    } else {
        json_children(kids, depth, n - 1) + ","@ + json_node(kids[n - 1], depth)
    }
}

fn hex_digit_of(n: u32) -> (r: char)
    requires
        n < 16,
    ensures
        r == hex_digit(n as int),
{
    if n < 10 {
        ((n + 48) as u8) as char
    } else {
        ((n + 87) as u8) as char
    }
}

fn push_escaped(out: &mut String, c: char)
    ensures
        final(out)@ == old(out)@ + escape_char(c),
{
    let ghost start = out@;
    if c == '"' {
        push_char(out, '\\');
        push_char(out, '"');
    } else if c == '\\' {
        push_char(out, '\\');
        push_char(out, '\\');
    } else if c == '\n' {
        push_char(out, '\\');
        push_char(out, 'n');
    } else if c == '\r' {
        push_char(out, '\\');
        push_char(out, 'r');
    } else if c == '\t' {
        push_char(out, '\\');
        push_char(out, 't');
    } else if c == '\u{8}' {
        push_char(out, '\\');
        push_char(out, 'b');
    } else if c == '\u{c}' {
        push_char(out, '\\');
        push_char(out, 'f');
    } else if (c as u32) < 0x20 {
        push_char(out, '\\');
        push_char(out, 'u');
        push_char(out, '0');
        push_char(out, '0');
        push_char(out, hex_digit_of((c as u32) / 16));
        push_char(out, hex_digit_of((c as u32) % 16));
    } else {
        push_char(out, c);
    }
    assert(out@ =~= start + escape_char(c));
}

fn push_json_string(out: &mut String, s: &str)
    ensures
        final(out)@ == old(out)@ + seq!['"'] + escape_seq(s@) + seq!['"'],
{
    let cs = crate::text::chars_of(s);
    let ghost start = out@;
    push_char(out, '"');
    let mut i: usize = 0;
    while i < cs.len()
        invariant
            i <= cs.len(),
            cs@ == s@,
            out@ == start + seq!['"'] + escape_seq(cs@.subrange(0, i as int)),
        decreases cs.len() - i,
    {
        push_escaped(out, cs[i]);
        assert(cs@.subrange(0, i + 1).drop_last() =~= cs@.subrange(0, i as int));
        assert(out@ =~= start + seq!['"'] + escape_seq(cs@.subrange(0, i + 1)));
        i = i + 1;
    }
    assert(cs@.subrange(0, i as int) =~= cs@);
    push_char(out, '"');
}

fn push_opt_string(out: &mut String, o: &Option<String>)
    ensures
        final(out)@ == old(out)@ + json_opt_string(str_opt(*o)),
{
    match o {
        Some(s) => push_json_string(out, s.as_str()),
        None => out.append("null"),
    }
}

fn push_opt_bool(out: &mut String, o: Option<bool>)
    ensures
        final(out)@ == old(out)@ + json_opt_bool(o),
{
    match o {
        Some(true) => out.append("true"),
        Some(false) => out.append("false"),
        None => out.append("null"),
    }
}

fn push_frame(out: &mut String, f: Option<AxRect>)
    ensures
        final(out)@ == old(out)@ + json_frame(f),
{
    let ghost start = out@;
    match f {
        Some(r) => {
            out.append("{\"height\":");
            out.append(decimal_string(r.height as i64).as_str());
            out.append(",\"width\":");
            out.append(decimal_string(r.width as i64).as_str());
            out.append(",\"x\":");
            out.append(decimal_string(r.x as i64).as_str());
            out.append(",\"y\":");
            out.append(decimal_string(r.y as i64).as_str());
            out.append("}");
            assert(out@ =~= start + json_frame(f));
        },
        None => out.append("null"),
    }
}

fn push_attrs(out: &mut String, node: &AxNode)
    ensures
        final(out)@ == old(out)@ + json_attrs(*node),
{
    let ghost start = out@;
    out.append("],\"enabled\":");
    push_opt_bool(out, node.enabled);
    out.append(",\"focused\":");
    push_opt_bool(out, node.focused);
    out.append(",\"frame\":");
    push_frame(out, node.frame);
    out.append(",\"role\":");
    push_opt_string(out, &node.info.role);
    out.append(",\"title\":");
    push_opt_string(out, &node.info.title);
    out.append(",\"value\":");
    push_opt_string(out, &node.value);
    out.append("}");
    assert(out@ =~= start + json_attrs(*node));
}

fn push_children(out: &mut String, node: &AxNode, depth: usize)
    requires
        depth > 0,
    ensures
        final(out)@ == old(out)@ + json_children(
            node.children@,
            (depth - 1) as nat,
            node.children@.len() as int,
        ),
    decreases depth, 0int,
{
    let ghost kids = node.children@;
    let ghost mid = out@;
    let mut i: usize = 0;
    assert(out@ =~= mid + json_children(kids, (depth - 1) as nat, 0));
    while i < node.children.len()
        invariant
            i <= node.children.len(),
            kids == node.children@,
            depth > 0,
            out@ == mid + json_children(kids, (depth - 1) as nat, i as int),
        decreases node.children.len() - i,
    {
        if i > 0 {
            out.append(",");
        }
        push_node(out, &node.children[i], depth - 1);
        proof {
            if i > 0 {
                assert(out@ =~= mid + json_children(kids, (depth - 1) as nat, i + 1));
            } else {
                assert(out@ =~= mid + json_children(kids, (depth - 1) as nat, 1));
            }
        }
        i = i + 1;
    }
}

fn push_node(out: &mut String, node: &AxNode, depth: usize)
    ensures
        final(out)@ == old(out)@ + json_node(*node, depth as nat),
    decreases depth, 1int,
{
    let ghost start = out@;
    out.append("{\"children\":[");
    if depth > 0 {
        push_children(out, node, depth);
    }
    push_attrs(out, node);
    assert(out@ =~= start + json_node(*node, depth as nat));
}

/// The subtree under `root` as JSON, children included to `depth` levels.
pub fn snapshot_tree(root: &AxNode, depth: usize) -> (r: String)
    ensures
        r@ == json_node(*root, depth as nat),
{
    let mut out = String::new();
    push_node(&mut out, root, depth);
    out
}

} // verus!
