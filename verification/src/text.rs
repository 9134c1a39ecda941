//! Order and concatenation of strings.

use vstd::prelude::*;
use vstd::utf8;

verus! {

/// Lexicographic order on byte strings; a proper prefix comes first.
pub open spec fn bytes_before(a: Seq<u8>, b: Seq<u8>) -> bool
    decreases a.len(),
{
    &&& b.len() > 0
    &&& a.len() > 0 ==> a[0] < b[0] || (a[0] == b[0] && bytes_before(
        a.drop_first(),
        b.drop_first(),
    ))
}

/// The order of Rust's strings: lexicographic by UTF-8 bytes.
pub open spec fn before(a: Seq<char>, b: Seq<char>) -> bool {
    bytes_before(utf8::encode_utf8(a), utf8::encode_utf8(b))
}

/// Nothing comes before itself.
pub proof fn bytes_before_irreflexive(a: Seq<u8>)
    ensures
        !bytes_before(a, a),
    decreases a.len(),
{
    if a.len() > 0 {
        bytes_before_irreflexive(a.drop_first());
    }
}

proof fn bytes_before_transitive(a: Seq<u8>, b: Seq<u8>, c: Seq<u8>)
    requires
        bytes_before(a, b),
        bytes_before(b, c),
    ensures
        bytes_before(a, c),
    decreases a.len(),
{
    if a.len() > 0 && a[0] == b[0] && b[0] == c[0] {
        bytes_before_transitive(a.drop_first(), b.drop_first(), c.drop_first());
    }
}

/// The order of strings is transitive.
pub proof fn before_transitive(a: Seq<char>, b: Seq<char>, c: Seq<char>)
    requires
        before(a, b),
        before(b, c),
    ensures
        before(a, c),
{
    bytes_before_transitive(utf8::encode_utf8(a), utf8::encode_utf8(b), utf8::encode_utf8(c));
}

/// No string comes before itself.
pub proof fn before_irreflexive(a: Seq<char>)
    ensures
        !before(a, a),
{
    bytes_before_irreflexive(utf8::encode_utf8(a));
}

/// How two strings stand to each other.
#[derive(Debug, Clone, Copy, PartialEq, Eq, Structural)]
pub enum Place {
    Before,
    Same,
    After,
}

/// Compares two strings in the order of Rust's strings.
pub fn compare(a: &str, b: &str) -> (place: Place)
    ensures
        place == Place::Before <==> before(a@, b@),
        place == Place::Same <==> a@ == b@,
        place == Place::After <==> before(b@, a@),
{
    let x = a.as_bytes();
    let y = b.as_bytes();
    let ghost s = utf8::encode_utf8(a@);
    let ghost t = utf8::encode_utf8(b@);
    proof {
        utf8::encode_utf8_decode_utf8(a@);
        utf8::encode_utf8_decode_utf8(b@);
        before_irreflexive(a@);
        if before(a@, b@) && before(b@, a@) {
            before_transitive(a@, b@, a@);
        }
        assert(s.skip(0) == s);
        assert(t.skip(0) == t);
    }
    let mut i: usize = 0;
    while i < x.len() && i < y.len()
        invariant
            i <= s.len(),
            i <= t.len(),
            x@ == s,
            y@ == t,
            s == utf8::encode_utf8(a@),
            t == utf8::encode_utf8(b@),
            s.take(i as int) == t.take(i as int),
            bytes_before(s, t) == bytes_before(s.skip(i as int), t.skip(i as int)),
            bytes_before(t, s) == bytes_before(t.skip(i as int), s.skip(i as int)),
            s == t <==> a@ == b@,
            !(before(a@, b@) && before(b@, a@)),
        decreases s.len() - i,
    {
        proof {
            assert(s.skip(i as int).drop_first() == s.skip(i + 1));
            assert(t.skip(i as int).drop_first() == t.skip(i + 1));
        }
        if x[i] < y[i] {
            return Place::Before;
        }
        if y[i] < x[i] {
            return Place::After;
        }
        assert(s.take(i + 1) == t.take(i + 1)) by {
            assert(s.take(i + 1) == s.take(i as int).push(s[i as int]));
            assert(t.take(i + 1) == t.take(i as int).push(t[i as int]));
        }
        i = i + 1;
    }
    if x.len() < y.len() {
        Place::Before
    } else if y.len() < x.len() {
        Place::After
    } else {
        assert(s == s.take(i as int));
        assert(t == t.take(i as int));
        proof {
            bytes_before_irreflexive(s);
        }
        Place::Same
    }
}

/// The parts in order, with a slash between each two.
pub open spec fn joined(parts: Seq<Seq<char>>) -> Seq<char>
    decreases parts.len(),
{
    if parts.len() == 0 {
        Seq::empty()
    } else if parts.len() == 1 {
        parts[0]
    } else {
        joined(parts.drop_last()) + "/"@ + parts.last()
    }
}

/// The views of a list of strings.
pub open spec fn views(parts: Seq<String>) -> Seq<Seq<char>> {
    parts.map_values(|part: String| part@)
}

/// Joins the parts with slashes.
pub fn join(parts: &Vec<String>) -> (whole: String)
    ensures
        whole@ == joined(views(parts@)),
{
    let mut whole = String::new();
    let mut i: usize = 0;
    while i < parts.len()
        invariant
            i <= parts@.len(),
            whole@ == joined(views(parts@).take(i as int)),
        decreases parts@.len() - i,
    {
        let ghost next = views(parts@).take(i + 1);
        assert(next.drop_last() == views(parts@).take(i as int));
        assert(next.last() == parts@[i as int]@);
        if i > 0 {
            whole.append("/");
        }
        whole.append(parts[i].as_str());
        i = i + 1;
    }
    assert(views(parts@).take(i as int) == views(parts@));
    whole
}

} // verus!
