use vstd::prelude::*;
use vstd::string::*;

verus! {

/// Relies on `toml::Value` as an opaque type only: a value of a TOML document
/// that the library holds and hands back unread, never looking inside it.
#[verifier::external_type_specification]
#[verifier::external_body]
pub struct ExTomlValue(toml::Value);

/// A node of a configuration document. Text, tables and lists are what the update
/// reads and writes; every other value (numbers, booleans, dates) is held as it
/// was read and written back unchanged.
#[derive(Debug)]
pub enum Node {
    Text(String),
    Table(Vec<(String, Node)>),
    List(Vec<Node>),
    Other(toml::Value),
}

/// The text that a node holds, if it is a text node.
pub open spec fn text_of(n: Option<Node>) -> Option<Seq<char>> {
    match n {
        Some(Node::Text(s)) => Some(s@),
        _ => None,
    }
}

/// The entries of a node, if it is a table node.
pub open spec fn table_of(n: Option<Node>) -> Option<Seq<(String, Node)>> {
    match n {
        Some(Node::Table(t)) => Some(t@),
        _ => None,
    }
}

/// The items of a node, if it is a list node.
pub open spec fn list_of(n: Option<Node>) -> Option<Seq<Node>> {
    match n {
        Some(Node::List(l)) => Some(l@),
        _ => None,
    }
}

/// Entry `i` is the first entry of `t` under key `k`.
pub open spec fn first_key_at(t: Seq<(String, Node)>, k: Seq<char>, i: int) -> bool {
    &&& 0 <= i < t.len()
    &&& t[i].0@ == k
    &&& forall|m: int| 0 <= m < i ==> (#[trigger] t[m]).0@ != k
}

/// Some entry of `t` has key `k`.
pub open spec fn has_key(t: Seq<(String, Node)>, k: Seq<char>) -> bool {
    exists|i: int| first_key_at(t, k, i)
}

/// The position of the first entry of `t` under key `k`.
pub open spec fn key_pos(t: Seq<(String, Node)>, k: Seq<char>) -> int {
    choose|i: int| first_key_at(t, k, i)
}

/// The value of the first entry of `t` under key `k`.
pub open spec fn entry(t: Seq<(String, Node)>, k: Seq<char>) -> Option<Node> {
    if has_key(t, k) {
        Some(t[key_pos(t, k)].1)
    } else {
        None
    }
}

/// The entries of `t` once the first entry under key `k` is taken out.
pub open spec fn without(t: Seq<(String, Node)>, k: Seq<char>) -> Seq<(String, Node)> {
    if has_key(t, k) {
        t.remove(key_pos(t, k))
    } else {
        t
    }
}

/// Only one entry is the first under a key.
pub proof fn lemma_first_key_unique(t: Seq<(String, Node)>, k: Seq<char>, i: int, j: int)
    requires
        first_key_at(t, k, i),
        first_key_at(t, k, j),
    ensures
        i == j,
{
    if i < j {
        assert(t[i].0@ != k);
    }
    if j < i {
        assert(t[j].0@ != k);
    }
}

/// An entry in front of a table is the one found under its key, and taking it
/// out leaves the rest of the table.
pub proof fn lemma_entry_front(t: Seq<(String, Node)>, k: Seq<char>)
    requires
        t.len() > 0,
        t[0].0@ == k,
    ensures
        entry(t, k) == Some(t[0].1),
        without(t, k) == t.subrange(1, t.len() as int),
{
    assert(first_key_at(t, k, 0));
    let i = key_pos(t, k);
    lemma_first_key_unique(t, k, i, 0);
    assert(t.remove(0) =~= t.subrange(1, t.len() as int));
}

/// Whether two texts are equal.
pub fn same_text(a: &str, b: &str) -> (r: bool)
    ensures
        r == (a@ == b@),
{
    let n: usize = a.unicode_len();
    let m: usize = b.unicode_len();
    if n != m {
        return false;
    }
    let mut i: usize = 0;
    while i < n
        invariant
            i <= n,
            n == a@.len(),
            m == b@.len(),
            n == m,
            forall|k: int| 0 <= k < i ==> a@[k] == b@[k],
        decreases n - i,
    {
        if a.get_char(i) != b.get_char(i) {
            return false;
        }
        i = i + 1;
    }
    assert(a@ =~= b@);
    true
}

/// Takes the first entry under `key` out of `table` and returns its value.
pub fn take_entry(table: &mut Vec<(String, Node)>, key: &str) -> (r: Option<Node>)
    ensures
        r == entry(old(table)@, key@),
        final(table)@ == without(old(table)@, key@),
{
    let mut i: usize = 0;
    while i < table.len()
        invariant
            i <= table@.len(),
            table@ == old(table)@,
            forall|m: int| 0 <= m < i ==> (#[trigger] table@[m]).0@ != key@,
        decreases table@.len() - i,
    {
        if same_text(table[i].0.as_str(), key) {
            assert(first_key_at(table@, key@, i as int));
            proof {
                lemma_first_key_unique(table@, key@, key_pos(table@, key@), i as int);
            }
            let (_, v) = table.remove(i);
            return Some(v);
        }
        i = i + 1;
    }
    assert(!has_key(old(table)@, key@));
    None
}

/// Takes the table under `key` out of `table`; None when there is no such entry
/// or it is not a table.
pub fn take_table(table: &mut Vec<(String, Node)>, key: &str) -> (r: Option<Vec<(String, Node)>>)
    ensures
        match r {
            Some(t) => table_of(entry(old(table)@, key@)) == Some(t@),
            None => table_of(entry(old(table)@, key@)) is None,
        },
        final(table)@ == without(old(table)@, key@),
{
    match take_entry(table, key) {
        Some(Node::Table(t)) => Some(t),
        _ => None,
    }
}

/// Takes the text under `key` out of `table`; None when there is no such entry
/// or it is not a text.
pub fn take_text(table: &mut Vec<(String, Node)>, key: &str) -> (r: Option<String>)
    ensures
        match r {
            Some(s) => text_of(entry(old(table)@, key@)) == Some(s@),
            None => text_of(entry(old(table)@, key@)) is None,
        },
        final(table)@ == without(old(table)@, key@),
{
    match take_entry(table, key) {
        Some(Node::Text(s)) => Some(s),
        _ => None,
    }
}

} // verus!
