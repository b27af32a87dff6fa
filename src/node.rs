use vstd::prelude::*;

verus! {

broadcast use vstd::std_specs::vec::group_vec_axioms;

/// A structured payload: the tree of nodes that requests and responses are
/// made of. A number is held as its JSON text, so that no precision is lost.
#[derive(Debug, PartialEq)]
pub enum Node {
    Null,
    Bool(bool),
    Number(String),
    Text(String),
    Array(Vec<Node>),
    Object(Vec<(String, Node)>),
}

/// Lower-case hexadecimal digit of `d` (which is below 16).
pub open spec fn hex_digit(d: nat) -> char {
    if d < 10 {
        (('0' as nat) + d) as char
    } else {
        (('a' as nat) + d - 10) as char
    }
}

/// The JSON escape of one character inside a string literal.
pub open spec fn escape_char(c: char) -> Seq<char> {
    if c == '"' {
        seq!['\\', '"']
    } else if c == '\\' {
        seq!['\\', '\\']
    } else if c == '\n' {
        seq!['\\', 'n']
    } else if c == '\r' {
        seq!['\\', 'r']
    } else if c == '\t' {
        seq!['\\', 't']
    } else if c == '\u{8}' {
        seq!['\\', 'b']
    } else if c == '\u{c}' {
        seq!['\\', 'f']
    } else if (c as u32) < 0x20 {
        seq!['\\', 'u', '0', '0', hex_digit((c as nat) / 16), hex_digit((c as nat) % 16)]
    } else {
        seq![c]
    }
}

/// The JSON escape of each character of `s`.
pub open spec fn escaped(s: Seq<char>) -> Seq<char>
    decreases s.len(),
{
    if s.len() == 0 {
        Seq::empty()
    } else {
        escaped(s.drop_last()) + escape_char(s.last())
    }
}

/// `s` as a JSON string literal.
pub open spec fn quoted(s: Seq<char>) -> Seq<char> {
    seq!['"'] + escaped(s) + seq!['"']
}

/// Decimal digits of `n`, without leading zeros.
pub open spec fn decimal(n: nat) -> Seq<char>
    decreases n,
{
    if n < 10 {
        seq![(('0' as nat) + n) as char]
    } else {
        decimal(n / 10) + seq![(('0' as nat) + n % 10) as char]
    }
}

/// The canonical JSON text of a node: no whitespace, members in order.
pub open spec fn json_of(n: Node) -> Seq<char>
    decreases n, 0nat,
{
    match n {
        Node::Null => seq!['n', 'u', 'l', 'l'],
        Node::Bool(b) => if b {
            seq!['t', 'r', 'u', 'e']
        } else {
            seq!['f', 'a', 'l', 's', 'e']
        },
        Node::Number(t) => t@,
        Node::Text(s) => quoted(s@),
        Node::Array(items) => seq!['['] + json_items(items, items@.len()) + seq![']'],
        Node::Object(members) => seq!['{'] + json_members(members, members@.len()) + seq!['}'],
    }
}

/// The first `k` items, each as JSON text, separated by commas.
pub open spec fn json_items(items: Vec<Node>, k: nat) -> Seq<char>
    decreases items, k,
{
    if k == 0 || k > items@.len() {
        Seq::empty()
    } else if k == 1 {
        json_of(items@[0])
    } else {
        json_items(items, (k - 1) as nat) + seq![','] + json_of(items@[k - 1])
    }
}

/// The first `k` members as `"name":value`, separated by commas.
pub open spec fn json_members(members: Vec<(String, Node)>, k: nat) -> Seq<char>
    decreases members, k,
{
    if k == 0 || k > members@.len() {
        Seq::empty()
    } else if k == 1 {
        quoted(members@[0].0@) + seq![':'] + json_of(members@[0].1)
    } else {
        json_members(members, (k - 1) as nat) + seq![','] + quoted(members@[k - 1].0@) + seq![
            ':',
        ] + json_of(members@[k - 1].1)
    }
}

/// The value of the first member named `key`.
pub open spec fn member_in(members: Seq<(String, Node)>, key: Seq<char>) -> Option<Node>
    decreases members.len(),
{
    if members.len() == 0 {
        None
    } else if members[0].0@ == key {
        Some(members[0].1)
    } else {
        member_in(members.drop_first(), key)
    }
}

/// The node that `obj` holds under `key`, where `obj` is an object.
pub open spec fn member_of(obj: Node, key: Seq<char>) -> Option<Node> {
    match obj {
        Node::Object(members) => member_in(members@, key),
        _ => None,
    }
}

/// Whether two texts hold the same characters.
pub fn same_text(a: &str, b: &str) -> (r: bool)
    ensures
        r == (a@ == b@),
{
    let n = a.unicode_len();
    if n != b.unicode_len() {
        return false;
    }
    let mut i: usize = 0;
    while i < n
        invariant
            n == a@.len(),
            n == b@.len(),
            i <= n,
            a@.subrange(0, i as int) == b@.subrange(0, i as int),
        decreases n - i,
    {
        if a.get_char(i) != b.get_char(i) {
            assert(a@[i as int] != b@[i as int]);
            return false;
        }
        assert(a@.subrange(0, i + 1) =~= a@.subrange(0, i as int).push(a@[i as int]));
        assert(b@.subrange(0, i + 1) =~= b@.subrange(0, i as int).push(b@[i as int]));
        i = i + 1;
    }
    assert(a@ =~= a@.subrange(0, n as int));
    assert(b@ =~= b@.subrange(0, n as int));
    true
}

fn hex_digit_str(d: u32) -> (r: &'static str)
    requires
        d < 16,
    ensures
        r@ == seq![hex_digit(d as nat)],
{
    proof {
        reveal_strlit("0");
        reveal_strlit("1");
        reveal_strlit("2");
        reveal_strlit("3");
        reveal_strlit("4");
        reveal_strlit("5");
        reveal_strlit("6");
        reveal_strlit("7");
        reveal_strlit("8");
        reveal_strlit("9");
        reveal_strlit("a");
        reveal_strlit("b");
        reveal_strlit("c");
        reveal_strlit("d");
        reveal_strlit("e");
        reveal_strlit("f");
    }
    match d {
        0 => "0",
        1 => "1",
        2 => "2",
        3 => "3",
        4 => "4",
        5 => "5",
        6 => "6",
        7 => "7",
        8 => "8",
        9 => "9",
        10 => "a",
        11 => "b",
        12 => "c",
        13 => "d",
        14 => "e",
        _ => "f",
    }
}

/// Appends the JSON escape of `s@[i]` to `out`.
fn push_escaped_char(out: &mut String, s: &str, i: usize)
    requires
        i < s@.len() <= usize::MAX,
    ensures
        final(out)@ == old(out)@ + escape_char(s@[i as int]),
{
    let c = s.get_char(i);
    proof {
        reveal_strlit("\\\"");
        reveal_strlit("\\\\");
        reveal_strlit("\\n");
        reveal_strlit("\\r");
        reveal_strlit("\\t");
        reveal_strlit("\\b");
        reveal_strlit("\\f");
        reveal_strlit("\\u00");
    }
    if c == '"' {
        out.append("\\\"");
    } else if c == '\\' {
        out.append("\\\\");
    } else if c == '\n' {
        out.append("\\n");
    } else if c == '\r' {
        out.append("\\r");
    } else if c == '\t' {
        out.append("\\t");
    } else if c == '\u{8}' {
        out.append("\\b");
    } else if c == '\u{c}' {
        out.append("\\f");
    } else if (c as u32) < 0x20 {
        out.append("\\u00");
        out.append(hex_digit_str((c as u32) / 16));
        out.append(hex_digit_str((c as u32) % 16));
        assert(out@ == old(out)@ + escape_char(c));
    } else {
        out.append(s.substring_char(i, i + 1));
        assert(s@.subrange(i as int, i + 1) =~= seq![c]);
    }
}

/// Appends `s` as a JSON string literal to `out`.
pub fn push_quoted(out: &mut String, s: &str)
    ensures
        final(out)@ == old(out)@ + quoted(s@),
{
    proof {
        reveal_strlit("\"");
    }
    out.append("\"");
    let n = s.unicode_len();
    let mut i: usize = 0;
    while i < n
        invariant
            n == s@.len(),
            i <= n,
            out@ == old(out)@ + seq!['"'] + escaped(s@.subrange(0, i as int)),
        decreases n - i,
    {
        push_escaped_char(out, s, i);
        assert(s@.subrange(0, i + 1).drop_last() =~= s@.subrange(0, i as int));
        i = i + 1;
    }
    assert(s@.subrange(0, n as int) =~= s@);
    out.append("\"");
    assert(out@ =~= old(out)@ + quoted(s@));
}

/// Appends the decimal digits of `n` to `out`.
pub fn push_decimal(out: &mut String, n: usize)
    ensures
        final(out)@ == old(out)@ + decimal(n as nat),
    decreases n,
{
    if n >= 10 {
        push_decimal(out, n / 10);
    }
    let d = n % 10;
    proof {
        reveal_strlit("0");
        reveal_strlit("1");
        reveal_strlit("2");
        reveal_strlit("3");
        reveal_strlit("4");
        reveal_strlit("5");
        reveal_strlit("6");
        reveal_strlit("7");
        reveal_strlit("8");
        reveal_strlit("9");
    }
    let digit = match d {
        0 => "0",
        1 => "1",
        2 => "2",
        3 => "3",
        4 => "4",
        5 => "5",
        6 => "6",
        7 => "7",
        8 => "8",
        _ => "9",
    };
    out.append(digit);
    assert(out@ =~= old(out)@ + decimal(n as nat));
}

impl Node {
    /// A number node for a count.
    pub fn count(n: usize) -> (r: Node)
        ensures
            r matches Node::Number(t) && t@ == decimal(n as nat),
    {
        let mut t = String::new();
        push_decimal(&mut t, n);
        Node::Number(t)
    }

    /// The value of the first member named `key`, where this is an object.
    pub fn get(&self, key: &str) -> (r: Option<&Node>)
        ensures
            match r {
                Some(n) => member_of(*self, key@) == Some(*n),
                None => member_of(*self, key@) is None,
            },
    {
        match self {
            Node::Object(members) => {
                let mut i: usize = 0;
                assert(members@.subrange(0, members@.len() as int) =~= members@);
                while i < members.len()
                    invariant
                        *self == Node::Object(*members),
                        i <= members@.len(),
                        member_in(members@, key@) == member_in(
                            members@.subrange(i as int, members@.len() as int),
                            key@,
                        ),
                    decreases members@.len() - i,
                {
                    let ghost rest = members@.subrange(i as int, members@.len() as int);
                    assert(rest[0] == members@[i as int]);
                    if same_text(members[i].0.as_str(), key) {
                        return Some(&members[i].1);
                    }
                    assert(rest.drop_first() =~= members@.subrange(i + 1, members@.len() as int));
                    i = i + 1;
                }
                None
            },
            _ => None,
        }
    }

    /// Appends the JSON text of this node to `out`.
    pub fn write_json(&self, out: &mut String)
        ensures
            final(out)@ == old(out)@ + json_of(*self),
        decreases self,
    {
        proof {
            reveal_strlit("null");
            reveal_strlit("true");
            reveal_strlit("false");
            reveal_strlit("[");
            reveal_strlit("]");
            reveal_strlit("{");
            reveal_strlit("}");
            reveal_strlit(",");
            reveal_strlit(":");
        }
        match self {
            Node::Null => out.append("null"),
            Node::Bool(b) => if *b {
                out.append("true")
            } else {
                out.append("false")
            },
            Node::Number(t) => out.append(t.as_str()),
            Node::Text(s) => push_quoted(out, s.as_str()),
            Node::Array(items) => {
                out.append("[");
                let mut i: usize = 0;
                while i < items.len()
                    invariant
                        *self == Node::Array(*items),
                        i <= items@.len(),
                        out@ == old(out)@ + seq!['['] + json_items(*items, i as nat),
                    decreases items@.len() - i,
                {
                    if i > 0 {
                        out.append(",");
                    }
                    proof {
                        reveal_strlit(",");
                        assert(decreases_to!(*self => self->Array_0));
                        assert(decreases_to!(*self => items@[i as int]));
                    }
                    items[i].write_json(out);
                    assert(out@ =~= old(out)@ + seq!['['] + json_items(*items, (i + 1) as nat));
                    i = i + 1;
                }
                out.append("]");
                assert(out@ =~= old(out)@ + json_of(*self));
            },
            Node::Object(members) => {
                out.append("{");
                let mut i: usize = 0;
                while i < members.len()
                    invariant
                        *self == Node::Object(*members),
                        i <= members@.len(),
                        out@ == old(out)@ + seq!['{'] + json_members(*members, i as nat),
                    decreases members@.len() - i,
                {
                    proof {
                        reveal_strlit(",");
                        reveal_strlit(":");
                    }
                    if i > 0 {
                        out.append(",");
                    }
                    push_quoted(out, members[i].0.as_str());
                    out.append(":");
                    proof {
                        assert(decreases_to!(*self => self->Object_0));
                        assert(decreases_to!(*self => members@[i as int]));
                        assert(decreases_to!(*self => members@[i as int].1));
                    }
                    members[i].1.write_json(out);
                    assert(out@ =~= old(out)@ + seq!['{'] + json_members(*members, (i + 1) as nat));
                    i = i + 1;
                }
                out.append("}");
                assert(out@ =~= old(out)@ + json_of(*self));
            },
        }
    }

    /// The JSON text of this node.
    pub fn to_json(&self) -> (r: String)
        ensures
            r@ == json_of(*self),
    {
        let mut out = String::new();
        self.write_json(&mut out);
        assert(out@ =~= json_of(*self));
        out
    }
}

} // verus!
