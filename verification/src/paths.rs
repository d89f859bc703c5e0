//! What the standard library reads from a path given as text.
use vstd::prelude::*;
use crate::text::chars_of;

verus! {

/// What `std::path::Path::file_stem` gives for a path, as text.
pub uninterp spec fn path_stem(p: Seq<char>) -> Option<Seq<char>>;

/// What `std::path::Path::extension` gives for a path, as text.
pub uninterp spec fn path_extension(p: Seq<char>) -> Option<Seq<char>>;

/// `Path::file_stem` of a path given as text, converted back to text
/// (a part of valid text is valid text).  The rules for the stem are not
/// restated; the result is named `path_stem` of the path.
#[verifier::external_body]
pub(crate) fn file_stem(p: &str) -> (r: Option<String>)
    ensures
        match r {
            Some(s) => path_stem(p@) == Some(s@),
            None => path_stem(p@) is None,
        },
{
    std::path::Path::new(p).file_stem().map(|s| s.to_string_lossy().to_string())
}

/// `Path::extension` of a path given as text, converted back to text.
/// The rules for the extension are not restated; the result is named
/// `path_extension` of the path.
#[verifier::external_body]
pub(crate) fn file_extension(p: &str) -> (r: Option<String>)
    ensures
        match r {
            Some(s) => path_extension(p@) == Some(s@),
            None => path_extension(p@) is None,
        },
{
    std::path::Path::new(p).extension().map(|s| s.to_string_lossy().to_string())
}

// ---------------------------------------------------------------------
// the order of paths
// ---------------------------------------------------------------------

/// A component of a path: its kind (0 the root, 1 a leading `.`, 2 `..`,
/// 3 a name) and, for a name, its text.  Kinds are ordered as listed, and
/// names by their text.
pub type Part = (u8, Seq<char>);

/// The component that the piece of a path between two separators stands
/// for: none for an empty piece or `.`, the parent for `..`, else a name.
pub open spec fn part_of(piece: Seq<char>) -> Seq<Part> {
    if piece.len() == 0 || piece == seq!['.'] {
        Seq::empty()
    } else if piece == seq!['.', '.'] {
        seq![(2u8, Seq::<char>::empty())]
    } else {
        seq![(3u8, piece)]
    }
}

/// The components of `q` from position `i` on, where the piece being read
/// started at `s`: the pieces between the separators `/`, each read by
/// `part_of`.
pub open spec fn parts_from(q: Seq<char>, s: int, i: int) -> Seq<Part>
    decreases q.len() - i,
{
    if i >= q.len() {
        part_of(q.subrange(s, q.len() as int))
    } else if q[i] == '/' {
        part_of(q.subrange(s, i)) + parts_from(q, i + 1, i + 1)
    } else {
        parts_from(q, s, i + 1)
    }
}

/// Whether a path starts at the root.
pub open spec fn rooted(p: Seq<char>) -> bool {
    p.len() > 0 && p[0] == '/'
}

/// Whether a relative path starts with the component `.`.
pub open spec fn leading_dot(p: Seq<char>) -> bool {
    !rooted(p) && p.len() > 0 && p[0] == '.' && (p.len() == 1 || p[1] == '/')
}

/// The components of a path, as `std::path::Path::components` reads a
/// Unix path: the root, or a leading `.`, then the names and `..`s between
/// separators; empty pieces and other `.`s are skipped.
pub open spec fn components(p: Seq<char>) -> Seq<Part> {
    if rooted(p) {
        seq![(0u8, Seq::<char>::empty())] + parts_from(p, 0, 0)
    } else if leading_dot(p) {
        seq![(1u8, Seq::<char>::empty())] + parts_from(p, 1, 1)
    } else {
        parts_from(p, 0, 0)
    }
}

/// Text order: by the first differing character (by code point, which is
/// also the order of their UTF-8 bytes), a proper prefix first.
pub open spec fn text_less(a: Seq<char>, b: Seq<char>) -> bool
    decreases a.len(),
{
    if a.len() == 0 {
        b.len() > 0
    } else if b.len() == 0 {
        false
    } else if a[0] != b[0] {
        (a[0] as int) < (b[0] as int)
    } else {
        text_less(a.drop_first(), b.drop_first())
    }
}

/// Component order: by kind, then names by their text.
pub open spec fn part_less(x: Part, y: Part) -> bool {
    x.0 < y.0 || (x.0 == y.0 && text_less(x.1, y.1))
}

/// Component-list order: by the first differing component, a proper
/// prefix first.
pub open spec fn parts_less(a: Seq<Part>, b: Seq<Part>) -> bool
    decreases a.len(),
{
    if a.len() == 0 {
        b.len() > 0
    } else if b.len() == 0 {
        false
    } else if a[0] != b[0] {
        part_less(a[0], b[0])
    } else {
        parts_less(a.drop_first(), b.drop_first())
    }
}

/// The order of `std::path::Path` on Unix paths: by their components.
pub open spec fn path_before(p: Seq<char>, q: Seq<char>) -> bool {
    parts_less(components(p), components(q))
}

proof fn lemma_text_order(a: Seq<char>, b: Seq<char>, c: Seq<char>)
    ensures
        !text_less(a, a),
        text_less(a, b) && text_less(b, c) ==> text_less(a, c),
        text_less(a, b) || text_less(b, a) || a =~= b,
    decreases a.len(),
{
    if a.len() > 0 && b.len() > 0 && a[0] != b[0] {
        assert((a[0] as int) != (b[0] as int));
    }
    if a.len() > 0 && b.len() > 0 && c.len() > 0 {
        lemma_text_order(a.drop_first(), b.drop_first(), c.drop_first());
        if a[0] == b[0] && !text_less(a.drop_first(), b.drop_first()) && !text_less(b.drop_first(), a.drop_first()) {
            assert(a =~= seq![a[0]] + a.drop_first());
            assert(b =~= seq![b[0]] + b.drop_first());
        }
    } else if a.len() > 0 && b.len() > 0 {
        lemma_text_order(a.drop_first(), b.drop_first(), b.drop_first());
        if a[0] == b[0] && !text_less(a.drop_first(), b.drop_first()) && !text_less(b.drop_first(), a.drop_first()) {
            assert(a =~= seq![a[0]] + a.drop_first());
            assert(b =~= seq![b[0]] + b.drop_first());
        }
    } else if a.len() > 0 {
        lemma_text_order(a.drop_first(), a.drop_first(), a.drop_first());
    }
}

proof fn lemma_parts_order(a: Seq<Part>, b: Seq<Part>, c: Seq<Part>)
    ensures
        !parts_less(a, a),
        parts_less(a, b) && parts_less(b, c) ==> parts_less(a, c),
        parts_less(a, b) || parts_less(b, a) || a =~= b,
    decreases a.len(),
{
    if a.len() > 0 {
        lemma_text_order(a[0].1, a[0].1, a[0].1);
    }
    if a.len() > 0 && b.len() > 0 {
        lemma_text_order(a[0].1, b[0].1, b[0].1);
        if c.len() > 0 {
            lemma_text_order(a[0].1, b[0].1, c[0].1);
            lemma_parts_order(a.drop_first(), b.drop_first(), c.drop_first());
        } else {
            lemma_parts_order(a.drop_first(), b.drop_first(), b.drop_first());
        }
        if a[0] != b[0] && !part_less(a[0], b[0]) && !part_less(b[0], a[0]) {
            lemma_text_order(b[0].1, a[0].1, a[0].1);
            assert(a[0].1 =~= b[0].1);
        }
        if a[0] == b[0] && !parts_less(a.drop_first(), b.drop_first()) && !parts_less(b.drop_first(), a.drop_first()) {
            assert(a =~= seq![a[0]] + a.drop_first());
            assert(b =~= seq![b[0]] + b.drop_first());
        }
    } else if a.len() > 0 {
        lemma_parts_order(a.drop_first(), a.drop_first(), a.drop_first());
    }
}

/// The order of paths is a strict total order on their components: no path
/// comes before itself, it is transitive, and of two paths with different
/// components one comes first.
pub proof fn path_order_is_total(p: Seq<char>, q: Seq<char>, r: Seq<char>)
    ensures
        !path_before(p, p),
        path_before(p, q) && path_before(q, r) ==> path_before(p, r),
        path_before(p, q) || path_before(q, p) || components(p) == components(q),
{
    lemma_parts_order(components(p), components(q), components(r));
}

proof fn lemma_part_order(x: Part, y: Part, z: Part)
    ensures
        !part_less(x, x),
        part_less(x, y) && part_less(y, z) ==> part_less(x, z),
        part_less(x, y) || part_less(y, x) || x == y,
{
    lemma_text_order(x.1, y.1, z.1);
    lemma_text_order(x.1, x.1, x.1);
    lemma_text_order(y.1, x.1, x.1);
    if x.0 == y.0 && x.1 =~= y.1 {
        assert(x == y);
    }
}

/// The components of a path as values: kind and name characters.
pub open spec fn parts_view(v: Seq<(u8, Vec<char>)>) -> Seq<Part> {
    Seq::new(v.len(), |i: int| (v[i].0, v[i].1@))
}

fn text_lt(a: &Vec<char>, b: &Vec<char>) -> (r: bool)
    ensures
        r == text_less(a@, b@),
{
    let mut i: usize = 0;
    assert(a@.skip(0) =~= a@ && b@.skip(0) =~= b@);
    loop
        invariant
            i <= a@.len(),
            i <= b@.len(),
            text_less(a@, b@) == text_less(a@.skip(i as int), b@.skip(i as int)),
        decreases a@.len() - i,
    {
        if i == a.len() {
            return i < b.len();
        }
        if i == b.len() {
            return false;
        }
        let x = a[i];
        let y = b[i];
        if x != y {
            assert(a@.skip(i as int)[0] == x && b@.skip(i as int)[0] == y);
            return x < y;
        }
        assert(a@.skip(i as int).drop_first() =~= a@.skip(i + 1));
        assert(b@.skip(i as int).drop_first() =~= b@.skip(i + 1));
        i = i + 1;
    }
}

fn part_lt(x: &(u8, Vec<char>), y: &(u8, Vec<char>)) -> (r: bool)
    ensures
        r == part_less((x.0, x.1@), (y.0, y.1@)),
{
    if x.0 < y.0 {
        true
    } else if x.0 > y.0 {
        false
    } else {
        text_lt(&x.1, &y.1)
    }
}

pub(crate) fn parts_lt(a: &Vec<(u8, Vec<char>)>, b: &Vec<(u8, Vec<char>)>) -> (r: bool)
    ensures
        r == parts_less(parts_view(a@), parts_view(b@)),
{
    let ghost pa = parts_view(a@);
    let ghost pb = parts_view(b@);
    let mut i: usize = 0;
    assert(pa.skip(0) =~= pa && pb.skip(0) =~= pb);
    loop
        invariant
            i <= a@.len(),
            i <= b@.len(),
            pa == parts_view(a@),
            pb == parts_view(b@),
            parts_less(pa, pb) == parts_less(pa.skip(i as int), pb.skip(i as int)),
        decreases a@.len() - i,
    {
        if i == a.len() {
            return i < b.len();
        }
        if i == b.len() {
            return false;
        }
        let ghost x = pa[i as int];
        let ghost y = pb[i as int];
        assert(pa.skip(i as int)[0] == x && pb.skip(i as int)[0] == y);
        proof {
            lemma_part_order(x, y, y);
            lemma_part_order(y, x, x);
        }
        if part_lt(&a[i], &b[i]) {
            return true;
        }
        if part_lt(&b[i], &a[i]) {
            return false;
        }
        assert(x == y);
        assert(pa.skip(i as int).drop_first() =~= pa.skip(i + 1));
        assert(pb.skip(i as int).drop_first() =~= pb.skip(i + 1));
        i = i + 1;
    }
}

fn chars_range(v: &Vec<char>, from: usize, to: usize) -> (r: Vec<char>)
    requires
        from <= to <= v@.len(),
    ensures
        r@ == v@.subrange(from as int, to as int),
{
    let mut r: Vec<char> = Vec::new();
    let mut i = from;
    while i < to
        invariant
            from <= i <= to <= v@.len(),
            r@ == v@.subrange(from as int, i as int),
        decreases to - i,
    {
        r.push(v[i]);
        assert(v@.subrange(from as int, i + 1) =~= v@.subrange(from as int, i as int).push(v@[i as int]));
        i = i + 1;
    }
    r
}

proof fn lemma_parts_view_push(v: Seq<(u8, Vec<char>)>, x: (u8, Vec<char>))
    ensures
        parts_view(v.push(x)) == parts_view(v).push((x.0, x.1@)),
{
    assert(parts_view(v.push(x)) =~= parts_view(v).push((x.0, x.1@)));
}

fn push_part(r: &mut Vec<(u8, Vec<char>)>, v: &Vec<char>, s: usize, i: usize)
    requires
        s <= i <= v@.len(),
    ensures
        parts_view(final(r)@) == parts_view(old(r)@) + part_of(v@.subrange(s as int, i as int)),
{
    let ghost piece = v@.subrange(s as int, i as int);
    if i == s {
        assert(parts_view(r@) + part_of(piece) =~= parts_view(r@));
    } else if i - s == 1 && v[s] == '.' {
        assert(piece =~= seq!['.']);
        assert(parts_view(r@) + part_of(piece) =~= parts_view(r@));
    } else if i - s == 2 && v[s] == '.' && v[s + 1] == '.' {
        assert(piece =~= seq!['.', '.']);
        let ghost before = r@;
        let e: Vec<char> = Vec::new();
        proof {
            lemma_parts_view_push(before, (2u8, e));
        }
        r.push((2u8, e));
        assert(parts_view(r@) =~= parts_view(before) + part_of(piece));
    } else {
        assert(piece != seq!['.']) by {
            if piece.len() == 1 {
                assert(piece[0] == v@[s as int]);
            }
        }
        assert(piece != seq!['.', '.']) by {
            if piece.len() == 2 {
                assert(piece[0] == v@[s as int] && piece[1] == v@[s + 1]);
            }
        }
        let name = chars_range(v, s, i);
        let ghost before = r@;
        proof {
            lemma_parts_view_push(before, (3u8, name));
        }
        r.push((3u8, name));
        assert(parts_view(r@) =~= parts_view(before) + part_of(piece));
    }
}

/// The components of a path given as text, as `components` says.
pub(crate) fn path_parts(p: &str) -> (r: Vec<(u8, Vec<char>)>)
    ensures
        parts_view(r@) == components(p@),
{
    let v = chars_of(p);
    let n = v.len();
    let mut r: Vec<(u8, Vec<char>)> = Vec::new();
    let is_rooted = n > 0 && v[0] == '/';
    let dot = !is_rooted && n > 0 && v[0] == '.' && (n == 1 || v[1] == '/');
    let start: usize = if dot { 1 } else { 0 };
    if is_rooted {
        r.push((0u8, Vec::new()));
    } else if dot {
        r.push((1u8, Vec::new()));
    }
    let ghost head = parts_view(r@);
    assert(components(p@) == head + parts_from(v@, start as int, start as int)) by {
        if is_rooted {
            assert(head =~= seq![(0u8, Seq::<char>::empty())]);
        } else if dot {
            assert(head =~= seq![(1u8, Seq::<char>::empty())]);
        } else {
            assert(head =~= Seq::<Part>::empty());
            assert(head + parts_from(v@, 0, 0) =~= parts_from(v@, 0, 0));
        }
    }
    let mut s: usize = start;
    let mut i: usize = start;
    while i < n
        invariant
            v@ == p@,
            n == v@.len(),
            s <= i <= n,
            components(p@) == parts_view(r@) + parts_from(v@, s as int, i as int),
        decreases n - i,
    {
        if v[i] == '/' {
            let ghost old_r = parts_view(r@);
            push_part(&mut r, &v, s, i);
            assert(old_r + parts_from(v@, s as int, i as int) =~= parts_view(r@) + parts_from(
                v@,
                i + 1,
                i + 1,
            ));
            i = i + 1;
            s = i;
        } else {
            i = i + 1;
        }
    }
    let ghost old_r = parts_view(r@);
    push_part(&mut r, &v, s, n);
    assert(old_r + parts_from(v@, s as int, n as int) =~= parts_view(r@));
    r
}

} // verus!
