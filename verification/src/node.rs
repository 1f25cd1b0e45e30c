//! Dynamic config-node trees and pointer-style path navigation.
//!
//! A [`Node`] models the shape a structured config file parses into:
//! mappings, ordered lists and scalars.  Paths address a node by walking
//! `/`-separated segments; each segment is unescaped (`~1` to `/`, `~0` to
//! `~`) and then used as a mapping key, or parsed as a decimal index into a
//! list.  Keys and segments are byte strings, as the file formats deliver
//! them.

use vstd::prelude::*;

verus! {

/// A parsed config node.
pub enum Node {
    Null,
    Bool(bool),
    Int(i64),
    Str(Vec<u8>),
    List(Vec<Node>),
    Mapping(Vec<(Vec<u8>, Node)>),
}

/// Byte-string equality.
pub fn bytes_eq(a: &Vec<u8>, b: &Vec<u8>) -> (r: bool)
    ensures
        r == (a@ == b@),
{
    if a.len() != b.len() {
        proof {
            assert(a@ != b@);
        }
        return false;
    }
    let n = a.len();
    let mut i: usize = 0;
    while i < n
        invariant
            i <= n,
            n == a@.len() && n == b@.len(),
            forall|j: int| 0 <= j < i ==> a@[j] == b@[j],
        decreases n - i,
    {
        if a[i] != b[i] {
            return false;
        }
        i = i + 1;
    }
    proof {
        assert(a@ =~= b@);
    }
    true
}

/// One non-overlapping left-to-right pass replacing the two-byte pattern
/// `p0 p1` by the single byte `r`.
pub open spec fn replace2(s: Seq<u8>, p0: u8, p1: u8, r: u8) -> Seq<u8>
    decreases s.len(),
{
    if s.len() < 2 {
        s
    } else if s[0] == p0 && s[1] == p1 {
        seq![r] + replace2(s.skip(2), p0, p1, r)
    } else {
        seq![s[0]] + replace2(s.skip(1), p0, p1, r)
    }
}

/// Pointer-segment unescaping: `~1` stands for `/` and `~0` for `~`, with the
/// `~1` pass running first.
pub open spec fn unescape_spec(s: Seq<u8>) -> Seq<u8> {
    replace2(replace2(s, 0x7e, 0x31, 0x2f), 0x7e, 0x30, 0x7e)
}

fn replace2_exec(v: &Vec<u8>, p0: u8, p1: u8, r: u8) -> (out: Vec<u8>)
    ensures
        out@ == replace2(v@, p0, p1, r),
{
    let n = v.len();
    let mut out: Vec<u8> = Vec::new();
    let mut i: usize = 0;
    proof {
        assert(v@.skip(0) =~= v@);
        assert(out@ + replace2(v@, p0, p1, r) =~= replace2(v@, p0, p1, r));
    }
    while i < n
        invariant
            i <= n,
            n == v@.len(),
            replace2(v@, p0, p1, r) == out@ + replace2(v@.skip(i as int), p0, p1, r),
        decreases n - i,
    {
        let ghost out0 = out@;
        if i + 1 < n && v[i] == p0 && v[i + 1] == p1 {
            proof {
                let rest2 = replace2(v@.skip(i as int + 2), p0, p1, r);
                assert(v@.skip(i as int)[0] == v@[i as int]);
                assert(v@.skip(i as int)[1] == v@[i as int + 1]);
                assert(v@.skip(i as int).skip(2) =~= v@.skip(i as int + 2));
                assert(replace2(v@.skip(i as int), p0, p1, r) == seq![r] + rest2);
                assert(out0 + (seq![r] + rest2) =~= (out0 + seq![r]) + rest2);
            }
            out.push(r);
            proof {
                assert(out@ =~= out0 + seq![r]);
            }
            i = i + 2;
        } else {
            proof {
                let rest1 = replace2(v@.skip(i as int + 1), p0, p1, r);
                assert(v@.skip(i as int)[0] == v@[i as int]);
                if i + 1 < n {
                    assert(v@.skip(i as int)[1] == v@[i as int + 1]);
                }
                assert(v@.skip(i as int).skip(1) =~= v@.skip(i as int + 1));
                assert(replace2(v@.skip(i as int), p0, p1, r) =~= seq![v@[i as int]] + rest1);
                assert(out0 + (seq![v@[i as int]] + rest1) =~= (out0 + seq![v@[i as int]]) + rest1);
            }
            out.push(v[i]);
            proof {
                assert(out@ =~= out0 + seq![v@[i as int]]);
            }
            i = i + 1;
        }
    }
    proof {
        assert(v@.skip(n as int) =~= Seq::<u8>::empty());
        assert(out@ + replace2(v@.skip(n as int), p0, p1, r) =~= out@);
    }
    out
}

/// Pointer-segment unescaping: `~1` becomes `/`, then `~0` becomes `~`.
pub fn unescape_token(token: &Vec<u8>) -> (out: Vec<u8>)
    ensures
        out@ == unescape_spec(token@),
{
    let pass1 = replace2_exec(token, 0x7e, 0x31, 0x2f);
    replace2_exec(&pass1, 0x7e, 0x30, 0x7e)
}

/// Whether every byte is an ASCII decimal digit.
pub open spec fn all_digits(s: Seq<u8>) -> bool {
    forall|j: int| 0 <= j < s.len() ==> 0x30 <= #[trigger] s[j] <= 0x39
}

/// The number a digit string denotes.
pub open spec fn digits_val(s: Seq<u8>) -> nat
    decreases s.len(),
{
    if s.len() == 0 {
        0
    } else {
        digits_val(s.drop_last()) * 10 + (s.last() - 0x30) as nat
    }
}

/// What parsing a decimal index from a segment yields: an optional leading
/// `+`, then one or more digits, rejected on overflow — the standard
/// library's unsigned parse.
/// The digits of an index segment, with an optional leading `+` stripped.
pub open spec fn index_body(t: Seq<u8>) -> Seq<u8> {
    if t.len() >= 1 && t[0] == 0x2b {
        t.drop_first()
    } else {
        t
    }
}

pub open spec fn parse_index_spec(t: Seq<u8>) -> Option<usize> {
    let body = index_body(t);
    if body.len() == 0 || !all_digits(body) || digits_val(body) > usize::MAX {
        None
    } else {
        Some(digits_val(body) as usize)
    }
}

/// Parse a decimal list index from a segment.
pub fn parse_index(t: &Vec<u8>) -> (r: Option<usize>)
    ensures
        r == parse_index_spec(t@),
{
    let n = t.len();
    let start: usize = if n >= 1 && t[0] == 0x2b {
        1
    } else {
        0
    };
    let ghost body = index_body(t@);
    proof {
        assert(body =~= t@.skip(start as int));
    }
    if n == start {
        return None;
    }
    let mut val: usize = 0;
    let mut i: usize = start;
    while i < n
        invariant
            start <= i <= n,
            n == t@.len(),
            body == index_body(t@),
            body == t@.skip(start as int),
            all_digits(t@.skip(start as int).take(i - start)),
            val == digits_val(t@.skip(start as int).take(i - start)),
            val <= usize::MAX,
        decreases n - i,
    {
        let ghost prefix = t@.skip(start as int).take(i - start);
        let b = t[i];
        if b < 0x30 || b > 0x39 {
            proof {
                assert(body[(i - start) as int] == t@[i as int]);
                assert(!(0x30 <= body[(i - start) as int] <= 0x39));
                assert(!all_digits(body));
            }
            return None;
        }
        let d = (b - 0x30) as usize;
        if val > (usize::MAX - d) / 10 {
            proof {
                let ext = body.take(i - start + 1);
                assert(ext.drop_last() =~= prefix);
                assert(ext.last() == t@[i as int]);
                assert(digits_val(ext) == digits_val(prefix) * 10 + (ext.last() - 0x30) as nat);
                lemma_digits_val_monotonic(body, i - start + 1);
                assert(val * 10 + d > usize::MAX) by (nonlinear_arith)
                    requires
                        val > (usize::MAX - d) / 10,
                        d <= 9,
                ;
            }
            return None;
        }
        proof {
            assert(val * 10 + d <= usize::MAX) by (nonlinear_arith)
                requires
                    val <= (usize::MAX - d) / 10,
                    d <= 9,
            ;
            let ext = body.take(i - start + 1);
            assert(ext.drop_last() =~= prefix);
            assert(ext.last() == t@[i as int]);
            assert(digits_val(ext) == digits_val(prefix) * 10 + (ext.last() - 0x30) as nat);
        }
        val = val * 10 + d;
        i = i + 1;
    }
    proof {
        assert(t@.skip(start as int).take(n - start) =~= body);
    }
    Some(val)
}

/// A digit string's value only grows as more digits are appended.
proof fn lemma_digits_val_monotonic(s: Seq<u8>, k: int)
    requires
        0 <= k <= s.len(),
    ensures
        digits_val(s.take(k)) <= digits_val(s),
    decreases s.len() - k,
{
    if k < s.len() {
        lemma_digits_val_monotonic(s, k + 1);
        let ext = s.take(k + 1);
        assert(ext.drop_last() =~= s.take(k));
        assert(digits_val(ext) == digits_val(s.take(k)) * 10 + (ext.last() - 0x30) as nat);
    } else {
        assert(s.take(k) =~= s);
    }
}

/// Lookup of a key among a mapping's entries: the first entry with that key.
pub open spec fn map_get(entries: Seq<(Vec<u8>, Node)>, key: Seq<u8>) -> Option<Node>
    decreases entries.len(),
{
    if entries.len() == 0 {
        None
    } else if entries[0].0@ == key {
        Some(entries[0].1)
    } else {
        map_get(entries.drop_first(), key)
    }
}

/// The index right after the segment starting at `from`: the next `/`, or the
/// end of the path.
pub open spec fn seg_end(s: Seq<u8>, from: int) -> int
    decreases s.len() - from,
{
    if from >= s.len() {
        s.len() as int
    } else if s[from] == 0x2f {
        from
    } else {
        seg_end(s, from + 1)
    }
}

/// The segment boundary lies between `from` and the end of the path, at a
/// slash unless it is the end.
pub proof fn lemma_seg_end_bounds(s: Seq<u8>, from: int)
    requires
        from <= s.len(),
    ensures
        from <= seg_end(s, from) <= s.len(),
    decreases s.len() - from,
{
    if from < s.len() && s[from] != 0x2f {
        lemma_seg_end_bounds(s, from + 1);
    }
}

/// Walking the path from byte `from`: take the segment up to the next slash,
/// unescape it, use it as a mapping key or a list index, and continue past
/// the slash until the path is exhausted.
pub open spec fn navigate_from(cur: Node, s: Seq<u8>, from: int) -> Option<Node>
    decreases s.len() - from,
    via navigate_from_decreases
{
    let end = seg_end(s, from);
    let t = unescape_spec(s.subrange(from, end));
    let next = match cur {
        Node::Mapping(entries) => map_get(entries@, t),
        Node::List(items) => match parse_index_spec(t) {
            Some(idx) => if idx < items@.len() {
                Some(items@[idx as int])
            } else {
                None
            },
            None => None,
        },
        _ => None,
    };
    match next {
        None => None,
        Some(n) => if end >= s.len() {
            Some(n)
        } else {
            navigate_from(n, s, end + 1)
        },
    }
}

#[via_fn]
proof fn navigate_from_decreases(cur: Node, s: Seq<u8>, from: int) {
    if from <= s.len() {
        lemma_seg_end_bounds(s, from);
    }
}

/// What navigating a whole path yields: the node itself for the empty path,
/// otherwise a walk over the `/`-separated segments.
pub open spec fn navigate_spec(root: Node, label: Seq<u8>) -> Option<Node> {
    if label.len() == 0 {
        Some(root)
    } else {
        navigate_from(root, label, 0)
    }
}

/// Find the end of the segment starting at `from`.
fn find_seg_end(label: &Vec<u8>, from: usize) -> (end: usize)
    requires
        from <= label@.len(),
    ensures
        end == seg_end(label@, from as int),
        from <= end <= label@.len(),
    decreases label@.len() - from,
{
    proof {
        lemma_seg_end_bounds(label@, from as int);
    }
    if from >= label.len() {
        label.len()
    } else if label[from] == 0x2f {
        from
    } else {
        find_seg_end(label, from + 1)
    }
}

/// Copy the bytes of `label[from..end]`.
fn copy_range(label: &Vec<u8>, from: usize, end: usize) -> (out: Vec<u8>)
    requires
        from <= end <= label@.len(),
    ensures
        out@ == label@.subrange(from as int, end as int),
{
    let mut out: Vec<u8> = Vec::new();
    let mut i: usize = from;
    while i < end
        invariant
            from <= i <= end <= label@.len(),
            out@ == label@.subrange(from as int, i as int),
        decreases end - i,
    {
        out.push(label[i]);
        proof {
            assert(out@ =~= label@.subrange(from as int, i + 1 as int));
        }
        i = i + 1;
    }
    proof {
        assert(out@ =~= label@.subrange(from as int, end as int));
    }
    out
}

/// Copy a byte string.
pub fn clone_bytes(v: &Vec<u8>) -> (out: Vec<u8>)
    ensures
        out@ == v@,
{
    let out = copy_range(v, 0, v.len());
    proof {
        assert(v@.subrange(0, v@.len() as int) =~= v@);
    }
    out
}

/// Look a key up among a mapping's entries.
fn mapping_lookup<'a>(entries: &'a Vec<(Vec<u8>, Node)>, key: &Vec<u8>) -> (r: Option<&'a Node>)
    ensures
        match r {
            Some(n) => map_get(entries@, key@) == Some(*n),
            None => map_get(entries@, key@) is None,
        },
{
    let n = entries.len();
    let mut j: usize = 0;
    proof {
        assert(entries@.skip(0) =~= entries@);
    }
    while j < n
        invariant
            j <= n,
            n == entries@.len(),
            map_get(entries@, key@) == map_get(entries@.skip(j as int), key@),
        decreases n - j,
    {
        proof {
            assert(entries@.skip(j as int)[0] == entries@[j as int]);
            assert(entries@.skip(j as int).drop_first() =~= entries@.skip(j as int + 1));
        }
        if bytes_eq(&entries[j].0, key) {
            return Some(&entries[j].1);
        }
        j = j + 1;
    }
    None
}

/// Navigate a pointer-style path below `root`: the root itself for the empty
/// path, otherwise one mapping lookup or list indexing per `/`-separated,
/// unescaped segment.  Returns nothing when any step misses.
pub fn navigate<'a>(root: &'a Node, label: &Vec<u8>) -> (r: Option<&'a Node>)
    ensures
        match r {
            Some(n) => navigate_spec(*root, label@) == Some(*n),
            None => navigate_spec(*root, label@) is None,
        },
{
    if label.len() == 0 {
        return Some(root);
    }
    navigate_at(root, label, 0)
}

/// Walk the path from byte `start`, as [`navigate_from`] does.
pub(crate) fn navigate_at<'a>(root: &'a Node, label: &Vec<u8>, start: usize) -> (r: Option<
    &'a Node,
>)
    requires
        start <= label@.len(),
    ensures
        match r {
            Some(n) => navigate_from(*root, label@, start as int) == Some(*n),
            None => navigate_from(*root, label@, start as int) is None,
        },
{
    let mut cur: &Node = root;
    let mut from: usize = start;
    loop
        invariant
            from <= label@.len(),
            navigate_from(*root, label@, start as int) == navigate_from(*cur, label@, from as int),
        decreases label@.len() - from,
    {
        let end = find_seg_end(label, from);
        let raw = copy_range(label, from, end);
        let t = unescape_token(&raw);
        let next: Option<&Node> = match cur {
            Node::Mapping(entries) => mapping_lookup(entries, &t),
            Node::List(items) => {
                match parse_index(&t) {
                    Some(idx) => {
                        if idx < items.len() {
                            Some(&items[idx])
                        } else {
                            None
                        }
                    },
                    None => None,
                }
            },
            _ => None,
        };
        match next {
            None => {
                return None;
            },
            Some(n) => {
                if end >= label.len() {
                    return Some(n);
                }
                cur = n;
                from = end + 1;
            },
        }
    }
}

} // verus!
