//! The digest of an unpacked payload tree.

use vstd::prelude::*;
use vstd::bytes::*;
use crate::digest;
use crate::digest::{hex_encode, sha256_digest};
use crate::order;
use crate::order::{bytes_before, sort, Keyed};

verus! {

/// An entry of an unpacked payload, as found on disk without following links.
pub enum PayloadNode {
    /// A directory with its entries.
    Directory { children: Vec<PayloadChild> },
    /// A regular file: the length its metadata gave, and what was read from it.
    File { declared_len: u64, content: Vec<u8> },
    /// A symbolic link and the path it points to.
    Link { target: Vec<u8> },
    /// Anything else, with the length its metadata gave.
    Other { len: u64 },
}

/// A directory entry with its file name.
pub struct PayloadChild {
    pub name: Vec<u8>,
    pub node: PayloadNode,
}

/// A file whose content did not have the length that its metadata gave.
#[derive(Debug, Clone)]
pub struct PayloadChanged {
    /// Path of the file below the payload's root.
    pub relative: Vec<u8>,
}

impl Keyed for PayloadChild {
    open spec fn sort_key(self) -> Seq<Seq<int>> {
        seq![order::byte_codes(self.name@)]
    }

    fn comes_before(&self, other: &Self) -> (r: bool) {
        proof {
            order::lemma_single_key(
                order::byte_codes(self.name@),
                order::byte_codes(other.name@),
            );
        }
        bytes_before(&self.name, &other.name)
    }
}

impl PayloadNode {
    /// A directory with its entries in the order of their names.
    pub fn directory(children: Vec<PayloadChild>) -> (r: PayloadNode)
        ensures
            r matches PayloadNode::Directory { children: sorted } && sorted@ == order::sorted(
                children@,
            ),
            is_listing(children@) ==> is_ordered(r),
    {
        let ghost listing = children@;
        let r = PayloadNode::Directory { children: sort(children) };
        proof {
            if is_listing(listing) {
                lemma_sorted_listing(listing);
            }
        }
        r
    }
}

/// Whether no name occurs twice among the entries of a directory.
pub open spec fn has_distinct_names(children: Seq<PayloadChild>) -> bool {
    forall|i: int, j: int|
        #![trigger children[i], children[j]]
        0 <= i < j < children.len() ==> children[i].name@ != children[j].name@
}

/// Whether every directory of a tree has its entries in the order of their names, each name once.
pub open spec fn is_ordered(node: PayloadNode) -> bool
    decreases node,
{
    match node {
        PayloadNode::Directory { children } => {
            &&& forall|i: int, j: int|
                #![trigger children@[i], children@[j]]
                0 <= i < j < children@.len() ==> order::key_before(
                    children@[i].sort_key(),
                    children@[j].sort_key(),
                )
            &&& forall|i: int|
                #![trigger children@[i]]
                0 <= i < children@.len() ==> is_ordered(children@[i].node)
        },
        _ => true,
    }
}

/// Whether `children` can be the entries of a directory, in whatever order they were listed.
pub open spec fn is_listing(children: Seq<PayloadChild>) -> bool {
    &&& has_distinct_names(children)
    &&& forall|i: int|
        #![trigger children[i]]
        0 <= i < children.len() ==> is_ordered(children[i].node)
}

proof fn lemma_same_members<A>(a: Seq<A>, b: Seq<A>, i: int)
    requires
        a.to_multiset() == b.to_multiset(),
        0 <= i < a.len(),
    ensures
        exists|j: int| 0 <= j < b.len() && #[trigger] b[j] == a[i],
{
    broadcast use vstd::seq_lib::group_to_multiset_ensures;

    assert(a.contains(a[i]));
    assert(a.to_multiset().count(a[i]) > 0);
    assert(b.contains(a[i]));
}

/// Sorting a listing by name leaves no two names in the same place.
proof fn lemma_sorted_listing(children: Seq<PayloadChild>)
    requires
        is_listing(children),
    ensures
        ({
            let all = order::sorted(children);
            &&& forall|i: int, j: int|
                #![trigger all[i], all[j]]
                0 <= i < j < all.len() ==> order::key_before(all[i].sort_key(), all[j].sort_key())
            &&& forall|i: int|
                #![trigger all[i]]
                0 <= i < all.len() ==> is_ordered(all[i].node)
        }),
{
    let all = order::sorted(children);
    order::lemma_sorted(children);
    assert(children.no_duplicates());
    children.lemma_multiset_has_no_duplicates();
    all.lemma_multiset_has_no_duplicates_conv();
    assert forall|i: int| 0 <= i < all.len() implies is_ordered((#[trigger] all[i]).node) by {
        lemma_same_members(all, children, i);
    }
    assert forall|i: int, j: int| 0 <= i < j < all.len() implies order::key_before(
        (#[trigger] all[i]).sort_key(),
        (#[trigger] all[j]).sort_key(),
    ) by {
        lemma_same_members(all, children, i);
        lemma_same_members(all, children, j);
        let u = choose|u: int| 0 <= u < children.len() && #[trigger] children[u] == all[i];
        let v = choose|v: int| 0 <= v < children.len() && #[trigger] children[v] == all[j];
        assert(u != v);
        assert(all[i].name@ != all[j].name@);
        lemma_key_is_the_name(all[i], all[j]);
        order::lemma_key_total(all[i].sort_key(), all[j].sort_key());
    }
}

proof fn lemma_key_is_the_name(a: PayloadChild, b: PayloadChild)
    ensures
        a.sort_key() == b.sort_key() <==> a.name@ == b.name@,
{
    let x = order::byte_codes(a.name@);
    let y = order::byte_codes(b.name@);
    if a.sort_key() == b.sort_key() {
        assert(a.sort_key()[0] == b.sort_key()[0]);
        assert(x == y);
        assert forall|i: int| 0 <= i < a.name@.len() implies a.name@[i] == b.name@[i] by {
            assert(x[i] == y[i]);
        }
        assert(a.name@ =~= b.name@);
    }
}

/// The path of the entry `name` in the directory `relative`.
pub open spec fn child_path(relative: Seq<u8>, name: Seq<u8>) -> Seq<u8> {
    if relative.len() == 0 {
        name
    } else {
        relative.push(47u8) + name
    }
}

/// A byte string led by its length in eight bytes.
pub open spec fn length_prefixed(bytes: Seq<u8>) -> Seq<u8> {
    spec_u64_to_le_bytes(bytes.len() as u64) + bytes
}

/// What an entry and everything below it contribute to the digest: its path, its kind, and how
/// much content or how many entries follow.
pub open spec fn encoding(node: PayloadNode, relative: Seq<u8>) -> Seq<u8>
    decreases node,
{
    length_prefixed(relative) + match node {
        PayloadNode::Directory { children } => seq![100u8] + spec_u64_to_le_bytes(
            children@.len() as u64,
        ) + children_encoding(children@, relative),
        PayloadNode::File { declared_len, content } => seq![102u8] + spec_u64_to_le_bytes(
            declared_len,
        ) + content@,
        PayloadNode::Link { target } => seq![108u8] + length_prefixed(target@),
        PayloadNode::Other { len } => seq![111u8] + spec_u64_to_le_bytes(len),
    }
}

/// What the entries of a directory contribute, one behind the other.
pub open spec fn children_encoding(children: Seq<PayloadChild>, relative: Seq<u8>) -> Seq<u8>
    decreases children,
{
    if children.len() == 0 {
        Seq::empty()
    } else {
        encoding(children[0].node, child_path(relative, children[0].name@)) + children_encoding(
            children.drop_first(),
            relative,
        )
    }
}

/// The path of the first file, in the order of the encoding, that changed while it was read.
pub open spec fn first_changed(node: PayloadNode, relative: Seq<u8>) -> Option<Seq<u8>>
    decreases node,
{
    match node {
        PayloadNode::Directory { children } => first_changed_child(children@, relative),
        PayloadNode::File { declared_len, content } => if declared_len == content@.len() {
            None
        } else {
            Some(relative)
        },
        _ => None,
    }
}

/// The path of the first changed file among the entries of a directory.
pub open spec fn first_changed_child(children: Seq<PayloadChild>, relative: Seq<u8>) -> Option<
    Seq<u8>,
>
    decreases children,
{
    if children.len() == 0 {
        None
    } else {
        match first_changed(children[0].node, child_path(relative, children[0].name@)) {
            Some(path) => Some(path),
            None => first_changed_child(children.drop_first(), relative),
        }
    }
}

fn join_child(relative: &Vec<u8>, name: &Vec<u8>) -> (r: Vec<u8>)
    ensures
        r@ == child_path(relative@, name@),
{
    let mut r: Vec<u8> = Vec::new();
    if relative.len() > 0 {
        r.extend_from_slice(relative.as_slice());
        r.push(47u8);
    }
    r.extend_from_slice(name.as_slice());
    assert(r@ == child_path(relative@, name@));
    r
}

fn push_bytes(out: &mut Vec<u8>, bytes: &[u8])
    ensures
        final(out)@ == old(out)@ + bytes@,
{
    out.extend_from_slice(bytes);
    assert(out@ == old(out)@ + bytes@);
}

fn push_length(out: &mut Vec<u8>, n: u64)
    ensures
        final(out)@ == old(out)@ + spec_u64_to_le_bytes(n),
{
    let bytes = u64_to_le_bytes(n);
    push_bytes(out, bytes.as_slice());
}

proof fn lemma_children_step(children: Seq<PayloadChild>, relative: Seq<u8>, i: int)
    requires
        0 <= i < children.len(),
    ensures
        children_encoding(children.take(i + 1), relative) == children_encoding(
            children.take(i),
            relative,
        ) + encoding(children[i].node, child_path(relative, children[i].name@)),
        first_changed_child(children.take(i), relative) is None ==> first_changed_child(
            children.take(i + 1),
            relative,
        ) == first_changed(children[i].node, child_path(relative, children[i].name@)),
    decreases i,
{
    let up = children.take(i + 1);
    let low = children.take(i);
    let here = encoding(children[i].node, child_path(relative, children[i].name@));
    if i == 0 {
        assert(up.drop_first() == Seq::<PayloadChild>::empty());
        assert(low == Seq::<PayloadChild>::empty());
        assert(children_encoding(up.drop_first(), relative) == Seq::<u8>::empty());
        assert(children_encoding(up, relative) == here);
    } else {
        let rest = children.drop_first();
        lemma_children_step(rest, relative, i - 1);
        assert(up.drop_first() == rest.take(i));
        assert(low.drop_first() == rest.take(i - 1));
        let first = encoding(children[0].node, child_path(relative, children[0].name@));
        assert(children_encoding(up, relative) == first + (children_encoding(
            rest.take(i - 1),
            relative,
        ) + here));
        assert(children_encoding(low, relative) == first + children_encoding(
            rest.take(i - 1),
            relative,
        ));
    }
}

proof fn lemma_changed_prefix(children: Seq<PayloadChild>, relative: Seq<u8>, i: int)
    requires
        0 <= i <= children.len(),
        first_changed_child(children.take(i), relative) is Some,
    ensures
        first_changed_child(children, relative) == first_changed_child(children.take(i), relative),
    decreases i,
{
    if i == 0 {
        assert(children.take(0).len() == 0);
    } else {
        assert(children.take(i)[0] == children[0]);
        assert(children.take(i).drop_first() == children.drop_first().take(i - 1));
        if first_changed(children[0].node, child_path(relative, children[0].name@)) is None {
            lemma_changed_prefix(children.drop_first(), relative, i - 1);
        }
    }
}

impl PayloadNode {
    /// Appends the encoding of this entry to `out`, unless a file below it changed while it was
    /// read.
    fn encode(&self, relative: &Vec<u8>, out: &mut Vec<u8>) -> (r: Result<(), PayloadChanged>)
        ensures
            match r {
                Ok(()) => first_changed(*self, relative@) is None && final(out)@ == old(out)@
                    + encoding(*self, relative@),
                Err(e) => first_changed(*self, relative@) == Some(e.relative@),
            },
        decreases self,
    {
        let ghost start = out@;
        push_length(out, relative.len() as u64);
        push_bytes(out, relative.as_slice());
        assert(out@ == start + length_prefixed(relative@));
        match self {
            PayloadNode::Directory { children } => {
                out.push(100u8);
                push_length(out, children.len() as u64);
                let ghost head = out@;
                let mut i: usize = 0;
                assert(children@.take(0) == Seq::<PayloadChild>::empty());
                assert(out@ == head + children_encoding(children@.take(0), relative@));
                while i < children.len()
                    invariant
                        i <= children.len(),
                        *self == (PayloadNode::Directory { children: *children }),
                        first_changed_child(children@.take(i as int), relative@) is None,
                        out@ == head + children_encoding(children@.take(i as int), relative@),
                    decreases children.len() - i,
                {
                    let child = &children[i];
                    let path = join_child(relative, &child.name);
                    let ghost before = out@;
                    assert(decreases_to!(*self => children));
                    assert(decreases_to!(children => children@[i as int]));
                    assert(decreases_to!(*self => child.node));
                    match child.node.encode(&path, out) {
                        Ok(()) => {
                            proof {
                                lemma_children_step(children@, relative@, i as int);
                                assert(out@ == head + children_encoding(
                                    children@.take(i + 1),
                                    relative@,
                                ));
                            }
                        },
                        Err(e) => {
                            proof {
                                lemma_children_step(children@, relative@, i as int);
                                lemma_changed_prefix(children@, relative@, i + 1);
                            }
                            return Err(e);
                        },
                    }
                    i += 1;
                }
                assert(children@.take(children@.len() as int) == children@);
                assert(out@ == start + encoding(*self, relative@));
                Ok(())
            },
            PayloadNode::File { declared_len, content } => {
                if *declared_len != content.len() as u64 {
                    return Err(PayloadChanged { relative: relative.clone() });
                }
                out.push(102u8);
                push_length(out, *declared_len);
                push_bytes(out, content.as_slice());
                assert(out@ == start + encoding(*self, relative@));
                Ok(())
            },
            PayloadNode::Link { target } => {
                out.push(108u8);
                push_length(out, target.len() as u64);
                push_bytes(out, target.as_slice());
                assert(out@ == start + encoding(*self, relative@));
                Ok(())
            },
            PayloadNode::Other { len } => {
                out.push(111u8);
                push_length(out, *len);
                assert(out@ == start + encoding(*self, relative@));
                Ok(())
            },
        }
    }
}

/// What is digested for a whole payload: a version marker and the encoding of its root.
pub open spec fn payload_bytes(root: PayloadNode) -> Seq<u8> {
    vstd::utf8::encode_utf8("acp-agent-payload-tree-v2\0"@) + encoding(root, Seq::empty())
}

/// The hexadecimal SHA-256 digest of a payload tree.
pub fn payload_digest(root: &PayloadNode) -> (r: Result<String, PayloadChanged>)
    ensures
        match r {
            Ok(text) => first_changed(*root, Seq::empty()) is None && text@ == digest::hex_text(
                digest::sha256(payload_bytes(*root)),
            ),
            Err(e) => first_changed(*root, Seq::empty()) == Some(e.relative@),
        },
{
    let mut bytes: Vec<u8> = Vec::new();
    push_bytes(&mut bytes, "acp-agent-payload-tree-v2\0".as_bytes());
    let relative: Vec<u8> = Vec::new();
    assert(relative@ == Seq::<u8>::empty());
    root.encode(&relative, &mut bytes)?;
    assert(bytes@ == payload_bytes(*root));
    Ok(hex_encode(&sha256_digest(bytes.as_slice())))
}

/// The hexadecimal SHA-256 digest of a file's content.
pub fn file_digest(content: &[u8]) -> (r: String)
    ensures
        r@ == digest::hex_text(digest::sha256(content@)),
{
    hex_encode(&sha256_digest(content))
}

/// Whether two trees have the same entries with the same names, kinds and content, in the same
/// order.
pub open spec fn same_tree(a: PayloadNode, b: PayloadNode) -> bool
    decreases a,
{
    match (a, b) {
        (
            PayloadNode::Directory { children: x },
            PayloadNode::Directory { children: y },
        ) => same_children(x@, y@),
        (
            PayloadNode::File { declared_len: m, content: x },
            PayloadNode::File { declared_len: n, content: y },
        ) => m == n && x@ == y@,
        (PayloadNode::Link { target: x }, PayloadNode::Link { target: y }) => x@ == y@,
        (PayloadNode::Other { len: m }, PayloadNode::Other { len: n }) => m == n,
        _ => false,
    }
}

/// Whether two lists of entries agree one by one.
pub open spec fn same_children(a: Seq<PayloadChild>, b: Seq<PayloadChild>) -> bool
    decreases a,
{
    if a.len() == 0 || b.len() == 0 {
        a.len() == b.len()
    } else {
        &&& a[0].name@ == b[0].name@
        &&& same_tree(a[0].node, b[0].node)
        &&& same_children(a.drop_first(), b.drop_first())
    }
}

/// Whether the lengths that the encoding of a tree writes down fit in eight bytes.
pub open spec fn encodable(node: PayloadNode, relative: Seq<u8>) -> bool
    decreases node,
{
    &&& relative.len() <= u64::MAX
    &&& match node {
        PayloadNode::Directory { children } => children@.len() <= u64::MAX && encodable_children(
            children@,
            relative,
        ),
        PayloadNode::File { declared_len, content } => declared_len == content@.len(),
        PayloadNode::Link { target } => target@.len() <= u64::MAX,
        PayloadNode::Other { .. } => true,
    }
}

/// Whether every entry of a directory is encodable.
pub open spec fn encodable_children(children: Seq<PayloadChild>, relative: Seq<u8>) -> bool
    decreases children,
{
    children.len() > 0 ==> {
        &&& encodable(children[0].node, child_path(relative, children[0].name@))
        &&& encodable_children(children.drop_first(), relative)
    }
}

proof fn lemma_split<A>(p: Seq<A>, s: Seq<A>, q: Seq<A>, t: Seq<A>)
    requires
        p + s == q + t,
        p.len() == q.len(),
    ensures
        p == q,
        s == t,
{
    assert(p == (p + s).take(p.len() as int));
    assert(q == (q + t).take(q.len() as int));
    assert(s == (p + s).skip(p.len() as int));
    assert(t == (q + t).skip(q.len() as int));
}

proof fn lemma_length_prefixed(a: Seq<u8>, s: Seq<u8>, b: Seq<u8>, t: Seq<u8>)
    requires
        length_prefixed(a) + s == length_prefixed(b) + t,
        a.len() <= u64::MAX,
        b.len() <= u64::MAX,
    ensures
        a == b,
        s == t,
{
    lemma_auto_spec_u64_to_from_le_bytes();
    let m = spec_u64_to_le_bytes(a.len() as u64);
    let n = spec_u64_to_le_bytes(b.len() as u64);
    assert(length_prefixed(a) + s == m + (a + s));
    assert(length_prefixed(b) + t == n + (b + t));
    lemma_split(m, a + s, n, b + t);
    lemma_split(a, s, b, t);
}

proof fn lemma_number(m: u64, s: Seq<u8>, n: u64, t: Seq<u8>)
    requires
        spec_u64_to_le_bytes(m) + s == spec_u64_to_le_bytes(n) + t,
    ensures
        m == n,
        s == t,
{
    lemma_auto_spec_u64_to_from_le_bytes();
    lemma_split(spec_u64_to_le_bytes(m), s, spec_u64_to_le_bytes(n), t);
}

proof fn lemma_children_unambiguous(
    a: Seq<PayloadChild>,
    s: Seq<u8>,
    b: Seq<PayloadChild>,
    t: Seq<u8>,
    relative: Seq<u8>,
)
    requires
        a.len() == b.len(),
        encodable_children(a, relative),
        encodable_children(b, relative),
        children_encoding(a, relative) + s == children_encoding(b, relative) + t,
    ensures
        same_children(a, b),
        s == t,
    decreases a,
{
    if a.len() > 0 {
        let x = encoding(a[0].node, child_path(relative, a[0].name@));
        let y = encoding(b[0].node, child_path(relative, b[0].name@));
        let u = children_encoding(a.drop_first(), relative);
        let v = children_encoding(b.drop_first(), relative);
        assert(children_encoding(a, relative) + s == x + (u + s));
        assert(children_encoding(b, relative) + t == y + (v + t));
        lemma_unambiguous(
            a[0].node,
            child_path(relative, a[0].name@),
            u + s,
            b[0].node,
            child_path(relative, b[0].name@),
            v + t,
        );
        assert(a[0].name@ == b[0].name@) by {
            if relative.len() > 0 {
                lemma_split(relative.push(47u8), a[0].name@, relative.push(47u8), b[0].name@);
            }
        }
        lemma_children_unambiguous(a.drop_first(), s, b.drop_first(), t, relative);
    } else {
        assert(children_encoding(a, relative) + s == s);
        assert(children_encoding(b, relative) + t == t);
    }
}

proof fn lemma_unambiguous(
    a: PayloadNode,
    p: Seq<u8>,
    s: Seq<u8>,
    b: PayloadNode,
    q: Seq<u8>,
    t: Seq<u8>,
)
    requires
        encodable(a, p),
        encodable(b, q),
        encoding(a, p) + s == encoding(b, q) + t,
    ensures
        same_tree(a, b),
        p == q,
        s == t,
    decreases a,
{
    let x = encoding(a, p).skip(length_prefixed(p).len() as int);
    let y = encoding(b, q).skip(length_prefixed(q).len() as int);
    assert(encoding(a, p) == length_prefixed(p) + x);
    assert(encoding(b, q) == length_prefixed(q) + y);
    assert(encoding(a, p) + s == length_prefixed(p) + (x + s));
    assert(encoding(b, q) + t == length_prefixed(q) + (y + t));
    lemma_length_prefixed(p, x + s, q, y + t);
    assert((x + s)[0] == x[0]);
    assert((y + t)[0] == y[0]);
    match (a, b) {
        (PayloadNode::Directory { children: c }, PayloadNode::Directory { children: d }) => {
            let m = spec_u64_to_le_bytes(c@.len() as u64);
            let n = spec_u64_to_le_bytes(d@.len() as u64);
            let u = children_encoding(c@, p);
            let v = children_encoding(d@, q);
            assert(x == seq![100u8] + m + u);
            assert(y == seq![100u8] + n + v);
            assert(x + s == seq![100u8] + (m + (u + s)));
            assert(y + t == seq![100u8] + (n + (v + t)));
            lemma_split(seq![100u8], m + (u + s), seq![100u8], n + (v + t));
            lemma_number(c@.len() as u64, u + s, d@.len() as u64, v + t);
            lemma_children_unambiguous(c@, s, d@, t, p);
        },
        (
            PayloadNode::File { declared_len: m, content: c },
            PayloadNode::File { declared_len: n, content: d },
        ) => {
            let i = spec_u64_to_le_bytes(m);
            let j = spec_u64_to_le_bytes(n);
            assert(x == seq![102u8] + i + c@);
            assert(y == seq![102u8] + j + d@);
            assert(x + s == seq![102u8] + (i + (c@ + s)));
            assert(y + t == seq![102u8] + (j + (d@ + t)));
            lemma_split(seq![102u8], i + (c@ + s), seq![102u8], j + (d@ + t));
            lemma_number(m, c@ + s, n, d@ + t);
            lemma_split(c@, s, d@, t);
        },
        (PayloadNode::Link { target: c }, PayloadNode::Link { target: d }) => {
            assert(x == seq![108u8] + length_prefixed(c@));
            assert(y == seq![108u8] + length_prefixed(d@));
            assert(x + s == seq![108u8] + (length_prefixed(c@) + s));
            assert(y + t == seq![108u8] + (length_prefixed(d@) + t));
            lemma_split(
                seq![108u8],
                length_prefixed(c@) + s,
                seq![108u8],
                length_prefixed(d@) + t,
            );
            lemma_length_prefixed(c@, s, d@, t);
        },
        (PayloadNode::Other { len: m }, PayloadNode::Other { len: n }) => {
            let i = spec_u64_to_le_bytes(m);
            let j = spec_u64_to_le_bytes(n);
            assert(x == seq![111u8] + i);
            assert(y == seq![111u8] + j);
            assert(x + s == seq![111u8] + (i + s));
            assert(y + t == seq![111u8] + (j + t));
            lemma_split(seq![111u8], i + s, seq![111u8], j + t);
            lemma_number(m, s, n, t);
        },
        _ => {},
    }
}

/// Whether two payloads have the same entries with the same names, kinds and content, in whatever
/// order their directories list them.
pub open spec fn same_payload(a: PayloadNode, b: PayloadNode) -> bool
    decreases a,
{
    match (a, b) {
        (PayloadNode::Directory { children: x }, PayloadNode::Directory { children: y }) => {
            &&& x@.len() == y@.len()
            &&& forall|i: int|
                #![trigger x@[i]]
                0 <= i < x@.len() ==> exists|j: int|
                    #![trigger y@[j]]
                    0 <= j < y@.len() && x@[i].name@ == y@[j].name@ && same_payload(
                        x@[i].node,
                        y@[j].node,
                    )
        },
        (
            PayloadNode::File { declared_len: m, content: x },
            PayloadNode::File { declared_len: n, content: y },
        ) => m == n && x@ == y@,
        (PayloadNode::Link { target: x }, PayloadNode::Link { target: y }) => x@ == y@,
        (PayloadNode::Other { len: m }, PayloadNode::Other { len: n }) => m == n,
        _ => false,
    }
}

/// Whether two listings hold the same entries, in whatever order.
pub open spec fn same_listing(x: Seq<PayloadChild>, y: Seq<PayloadChild>) -> bool {
    &&& x.len() == y.len()
    &&& forall|i: int|
        #![trigger x[i]]
        0 <= i < x.len() ==> exists|j: int|
            #![trigger y[j]]
            0 <= j < y.len() && x[i].name@ == y[j].name@ && same_payload(x[i].node, y[j].node)
}

proof fn lemma_same_children(a: Seq<PayloadChild>, b: Seq<PayloadChild>)
    ensures
        same_children(a, b) <==> a.len() == b.len() && forall|i: int|
            #![trigger a[i]]
            0 <= i < a.len() ==> a[i].name@ == b[i].name@ && same_tree(a[i].node, b[i].node),
    decreases a.len(),
{
    if a.len() > 0 && b.len() > 0 {
        let x = a.drop_first();
        let y = b.drop_first();
        lemma_same_children(x, y);
        if same_children(a, b) {
            assert forall|i: int| 0 <= i < a.len() implies (#[trigger] a[i]).name@ == b[i].name@
                && same_tree(a[i].node, b[i].node) by {
                if i > 0 {
                    assert(x[i - 1] == a[i]);
                    assert(y[i - 1] == b[i]);
                }
            }
        }
        if a.len() == b.len() && forall|i: int|
            #![trigger a[i]]
            0 <= i < a.len() ==> a[i].name@ == b[i].name@ && same_tree(a[i].node, b[i].node) {
            assert forall|i: int| 0 <= i < x.len() implies (#[trigger] x[i]).name@ == y[i].name@
                && same_tree(x[i].node, y[i].node) by {
                assert(x[i] == a[i + 1]);
                assert(y[i] == b[i + 1]);
            }
            assert(a[0].name@ == b[0].name@);
        }
    }
}

proof fn lemma_same_tree_is_same_payload(a: PayloadNode, b: PayloadNode)
    requires
        same_tree(a, b),
    ensures
        same_payload(a, b),
    decreases a,
{
    match (a, b) {
        (PayloadNode::Directory { children: x }, PayloadNode::Directory { children: y }) => {
            lemma_same_children(x@, y@);
            assert forall|i: int| #![trigger x@[i]] 0 <= i < x@.len() implies exists|j: int|
                #![trigger y@[j]]
                0 <= j < y@.len() && x@[i].name@ == y@[j].name@ && same_payload(
                    x@[i].node,
                    y@[j].node,
                ) by {
                lemma_same_tree_is_same_payload(x@[i].node, y@[i].node);
                assert(y@[i].name@ == x@[i].name@);
            }
        },
        _ => {},
    }
}

proof fn lemma_not_sooner(x: Seq<PayloadChild>, y: Seq<PayloadChild>, i: int, j: int)
    requires
        same_listing(x, y),
        forall|p: int, q: int|
            #![trigger x[p], x[q]]
            0 <= p < q < x.len() ==> order::key_before(x[p].sort_key(), x[q].sort_key()),
        forall|p: int, q: int|
            #![trigger y[p], y[q]]
            0 <= p < q < y.len() ==> order::key_before(y[p].sort_key(), y[q].sort_key()),
        0 <= i < x.len(),
        0 <= j < y.len(),
        x[i].name@ == y[j].name@,
    ensures
        i <= j,
    decreases i,
{
    if i > 0 {
        let before = x[i - 1];
        let k = choose|k: int|
            #![trigger y[k]]
            0 <= k < y.len() && before.name@ == y[k].name@ && same_payload(before.node, y[k].node);
        lemma_not_sooner(x, y, i - 1, k);
        lemma_key_is_the_name(before, y[k]);
        lemma_key_is_the_name(x[i], y[j]);
        assert(order::key_before(y[k].sort_key(), y[j].sort_key()));
        order::lemma_key_irreflexive(y[k].sort_key());
        if j < k {
            order::lemma_key_transitive(y[k].sort_key(), y[j].sort_key(), y[k].sort_key());
        }
    }
}

proof fn lemma_not_later(x: Seq<PayloadChild>, y: Seq<PayloadChild>, i: int, j: int)
    requires
        same_listing(x, y),
        forall|p: int, q: int|
            #![trigger x[p], x[q]]
            0 <= p < q < x.len() ==> order::key_before(x[p].sort_key(), x[q].sort_key()),
        forall|p: int, q: int|
            #![trigger y[p], y[q]]
            0 <= p < q < y.len() ==> order::key_before(y[p].sort_key(), y[q].sort_key()),
        0 <= i < x.len(),
        0 <= j < y.len(),
        x[i].name@ == y[j].name@,
    ensures
        j <= i,
    decreases x.len() - i,
{
    if i + 1 < x.len() {
        let behind = x[i + 1];
        let k = choose|k: int|
            #![trigger y[k]]
            0 <= k < y.len() && behind.name@ == y[k].name@ && same_payload(behind.node, y[k].node);
        lemma_not_later(x, y, i + 1, k);
        lemma_key_is_the_name(behind, y[k]);
        lemma_key_is_the_name(x[i], y[j]);
        assert(order::key_before(y[j].sort_key(), y[k].sort_key()));
        order::lemma_key_irreflexive(y[j].sort_key());
        if k < j {
            order::lemma_key_transitive(y[j].sort_key(), y[k].sort_key(), y[j].sort_key());
        }
    }
}

proof fn lemma_same_payload_is_same_tree(a: PayloadNode, b: PayloadNode)
    requires
        is_ordered(a),
        is_ordered(b),
        same_payload(a, b),
    ensures
        same_tree(a, b),
    decreases a,
{
    match (a, b) {
        (PayloadNode::Directory { children: x }, PayloadNode::Directory { children: y }) => {
            assert forall|i: int| 0 <= i < x@.len() implies (#[trigger] x@[i]).name@ == y@[i].name@
                && same_tree(x@[i].node, y@[i].node) by {
                let j = choose|j: int|
                    #![trigger y@[j]]
                    0 <= j < y@.len() && x@[i].name@ == y@[j].name@ && same_payload(
                        x@[i].node,
                        y@[j].node,
                    );
                lemma_not_sooner(x@, y@, i, j);
                lemma_not_later(x@, y@, i, j);
                lemma_same_payload_is_same_tree(x@[i].node, y@[i].node);
            }
            lemma_same_children(x@, y@);
        },
        _ => {},
    }
}

proof fn lemma_same_children_encoding(
    a: Seq<PayloadChild>,
    b: Seq<PayloadChild>,
    relative: Seq<u8>,
)
    requires
        same_children(a, b),
    ensures
        children_encoding(a, relative) == children_encoding(b, relative),
    decreases a,
{
    if a.len() > 0 {
        lemma_same_encoding(a[0].node, b[0].node, child_path(relative, a[0].name@));
        lemma_same_children_encoding(a.drop_first(), b.drop_first(), relative);
    }
}

proof fn lemma_same_encoding(a: PayloadNode, b: PayloadNode, relative: Seq<u8>)
    requires
        same_tree(a, b),
    ensures
        encoding(a, relative) == encoding(b, relative),
    decreases a,
{
    match (a, b) {
        (PayloadNode::Directory { children: x }, PayloadNode::Directory { children: y }) => {
            lemma_same_children(x@, y@);
            lemma_same_children_encoding(x@, y@, relative);
        },
        _ => {},
    }
}

/// The bytes that are digested tell trees apart: they are the same exactly for trees with the same
/// entries, names, kinds and content.
pub proof fn law_payload_bytes_are_unambiguous(a: PayloadNode, b: PayloadNode)
    requires
        encodable(a, Seq::empty()),
        encodable(b, Seq::empty()),
    ensures
        payload_bytes(a) == payload_bytes(b) <==> same_tree(a, b),
{
    let marker = vstd::utf8::encode_utf8("acp-agent-payload-tree-v2\0"@);
    let root = Seq::<u8>::empty();
    if payload_bytes(a) == payload_bytes(b) {
        lemma_split(marker, encoding(a, root), marker, encoding(b, root));
        assert(encoding(a, root) + root == encoding(a, root));
        assert(encoding(b, root) + root == encoding(b, root));
        lemma_unambiguous(a, root, root, b, root, root);
    }
    if same_tree(a, b) {
        lemma_same_encoding(a, b, root);
    }
}

/// The bytes that are digested are those of the payload, not of the order in which its directories
/// happen to be listed: for ordered trees they are the same exactly for the same payloads.
pub proof fn law_payload_bytes_tell_payloads_apart(a: PayloadNode, b: PayloadNode)
    requires
        encodable(a, Seq::empty()),
        encodable(b, Seq::empty()),
        is_ordered(a),
        is_ordered(b),
    ensures
        payload_bytes(a) == payload_bytes(b) <==> same_payload(a, b),
{
    law_payload_bytes_are_unambiguous(a, b);
    if same_tree(a, b) {
        lemma_same_tree_is_same_payload(a, b);
    }
    if same_payload(a, b) {
        lemma_same_payload_is_same_tree(a, b);
    }
}

/// The order in which a directory lists its entries does not matter: from two listings of the same
/// entries [`PayloadNode::directory`] makes directories with one encoding.
pub proof fn law_listing_order_does_not_matter(
    x: Seq<PayloadChild>,
    y: Seq<PayloadChild>,
    a: PayloadNode,
    b: PayloadNode,
    relative: Seq<u8>,
)
    requires
        is_listing(x),
        is_listing(y),
        same_listing(x, y),
        a matches PayloadNode::Directory { children } && children@ == order::sorted(x),
        b matches PayloadNode::Directory { children } && children@ == order::sorted(y),
    ensures
        same_payload(a, b),
        encoding(a, relative) == encoding(b, relative),
        payload_bytes(a) == payload_bytes(b),
{
    let p = order::sorted(x);
    let q = order::sorted(y);
    order::lemma_sorted(x);
    order::lemma_sorted(y);
    lemma_sorted_listing(x);
    lemma_sorted_listing(y);
    assert forall|i: int| #![trigger p[i]] 0 <= i < p.len() implies exists|j: int|
        #![trigger q[j]]
        0 <= j < q.len() && p[i].name@ == q[j].name@ && same_payload(p[i].node, q[j].node) by {
        lemma_same_members(p, x, i);
        let u = choose|u: int| 0 <= u < x.len() && #[trigger] x[u] == p[i];
        let v = choose|v: int|
            #![trigger y[v]]
            0 <= v < y.len() && x[u].name@ == y[v].name@ && same_payload(x[u].node, y[v].node);
        lemma_same_members(y, q, v);
    }
    assert(is_ordered(a));
    assert(is_ordered(b));
    lemma_same_payload_is_same_tree(a, b);
    lemma_same_encoding(a, b, relative);
    lemma_same_encoding(a, b, Seq::empty());
}

/// The path of an entry below the root of a payload is its own name; below a directory it is the
/// directory's path, a slash and the name.
pub proof fn law_payload_paths_are_joined_by_slashes(relative: Seq<u8>, name: Seq<u8>)
    ensures
        child_path(Seq::empty(), name) == name,
        relative.len() > 0 ==> child_path(relative, name) == relative + seq![47u8] + name,
{
    assert(relative.push(47u8) + name =~= relative + seq![47u8] + name);
}

/// A file has changed exactly if it does not have the length that was declared for it; a payload has
/// changed exactly if one of its files has.
pub proof fn law_changed_payloads_hold_a_changed_file(
    children: Vec<PayloadChild>,
    declared_len: u64,
    content: Vec<u8>,
    relative: Seq<u8>,
)
    ensures
        first_changed(PayloadNode::File { declared_len, content }, relative) is Some
            <==> declared_len != content@.len(),
        declared_len != content@.len() ==> first_changed(
            PayloadNode::File { declared_len, content },
            relative,
        ) == Some(relative),
        first_changed(PayloadNode::Directory { children }, relative) is None <==> forall|i: int|
            #![trigger children@[i]]
            0 <= i < children@.len() ==> first_changed(
                children@[i].node,
                child_path(relative, children@[i].name@),
            ) is None,
{
    lemma_unchanged_children(children@, relative);
}

proof fn lemma_unchanged_children(children: Seq<PayloadChild>, relative: Seq<u8>)
    ensures
        first_changed_child(children, relative) is None <==> forall|i: int|
            #![trigger children[i]]
            0 <= i < children.len() ==> first_changed(
                children[i].node,
                child_path(relative, children[i].name@),
            ) is None,
    decreases children.len(),
{
    if children.len() > 0 {
        let rest = children.drop_first();
        lemma_unchanged_children(rest, relative);
        if first_changed_child(children, relative) is None {
            assert forall|i: int| #![trigger children[i]] 0 <= i < children.len() implies
                first_changed(children[i].node, child_path(relative, children[i].name@)) is None by {
                if i > 0 {
                    assert(rest[i - 1] == children[i]);
                }
            }
        }
        if forall|i: int|
            #![trigger children[i]]
            0 <= i < children.len() ==> first_changed(
                children[i].node,
                child_path(relative, children[i].name@),
            ) is None {
            assert(children[0] == children[0]);
            assert forall|i: int| #![trigger rest[i]] 0 <= i < rest.len() implies first_changed(
                rest[i].node,
                child_path(relative, rest[i].name@),
            ) is None by {
                assert(rest[i] == children[i + 1]);
            }
        }
    }
}

/// A payload has a digest exactly if none of its files changed while it was read; else the one that
/// did is named.
pub proof fn law_changed_payloads_have_no_digest(
    root: &PayloadNode,
    r: Result<String, PayloadChanged>,
)
    requires
        call_ensures(payload_digest, (root,), r),
    ensures
        r is Ok <==> first_changed(*root, Seq::empty()) is None,
        r is Ok ==> r->Ok_0@ == digest::hex_text(digest::sha256(payload_bytes(*root))),
        r is Err ==> first_changed(*root, Seq::empty()) == Some(r->Err_0.relative@),
{
}

} // verus!
