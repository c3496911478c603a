//! Unix paths held as text, compared the way `std::path::Path` compares
//! them: by their components. Parsing into components normalises a little:
//! repeated separators are ignored, a trailing separator is dropped, and
//! `.` is dropped everywhere except as the first component of a relative
//! path. So `/a/b/`, `/a//b` and `/a/./b` are the same path as `/a/b`,
//! while `./a` and `a` differ.

use vstd::prelude::*;

verus! {

/// The path starts at the root (on Unix this is also what makes it
/// absolute).
pub open spec fn has_root(p: Seq<char>) -> bool {
    p.len() > 0 && p[0] == '/'
}

/// The path begins with a `.` component, which parsing keeps.
pub open spec fn leading_cur_dir(p: Seq<char>) -> bool {
    p.len() > 0 && p[0] == '.' && (p.len() == 1 || p[1] == '/')
}

/// A piece between separators that is a component of its own: not empty
/// and not `.`.
pub open spec fn kept(piece: Seq<char>) -> bool {
    piece.len() > 0 && piece != seq!['.']
}

/// `parts` with `piece` appended when it is a component of its own.
pub open spec fn keep_piece(parts: Seq<Seq<char>>, piece: Seq<char>) -> Seq<Seq<char>> {
    if kept(piece) {
        parts.push(piece)
    } else {
        parts
    }
}

/// The named components of `p[i..]`, given the piece `piece` read so far
/// and the components `parts` kept before it.
pub open spec fn scan_parts(p: Seq<char>, i: int, piece: Seq<char>, parts: Seq<Seq<char>>) -> Seq<
    Seq<char>,
>
    decreases p.len() - i,
{
    if i < 0 || i >= p.len() {
        keep_piece(parts, piece)
    } else if p[i] == '/' {
        scan_parts(p, i + 1, Seq::empty(), keep_piece(parts, piece))
    } else {
        scan_parts(p, i + 1, piece.push(p[i]), parts)
    }
}

/// The components of `p` after the root or the leading `.`: the pieces
/// between separators, without empty pieces and `.`.
pub open spec fn path_parts(p: Seq<char>) -> Seq<Seq<char>> {
    scan_parts(p, 0, Seq::empty(), Seq::empty())
}

/// Two paths are the same path: the same root, the same leading `.`, and
/// the same components after them.
pub open spec fn same_path(a: Seq<char>, b: Seq<char>) -> bool {
    &&& has_root(a) == has_root(b)
    &&& leading_cur_dir(a) == leading_cur_dir(b)
    &&& path_parts(a) == path_parts(b)
}

pub open spec fn pieces_view(v: Seq<Vec<char>>) -> Seq<Seq<char>> {
    v.map_values(|piece: Vec<char>| piece@)
}

/// The components of `p`, per [`path_parts`].
fn parts_of(p: &str) -> (parts: Vec<Vec<char>>)
    ensures
        pieces_view(parts@) == path_parts(p@),
{
    let n = p.unicode_len();
    let mut parts: Vec<Vec<char>> = Vec::new();
    let mut piece: Vec<char> = Vec::new();
    let mut i: usize = 0;
    assert(piece@ =~= Seq::<char>::empty());
    assert(pieces_view(parts@) =~= Seq::<Seq<char>>::empty());
    while i < n
        invariant
            n == p@.len(),
            i <= n,
            scan_parts(p@, i as int, piece@, pieces_view(parts@)) == path_parts(p@),
        decreases n - i,
    {
        let c = p.get_char(i);
        if c == '/' {
            let ghost before = pieces_view(parts@);
            if piece.len() > 0 && !(piece.len() == 1 && piece[0] == '.') {
                assert(kept(piece@)) by {
                    if piece@ == seq!['.'] {
                        assert(piece@.len() == 1 && piece@[0] == '.');
                    }
                }
                parts.push(piece);
                assert(pieces_view(parts@) =~= before.push(piece@));
            } else {
                assert(!kept(piece@)) by {
                    if piece@.len() == 1 && piece@[0] == '.' {
                        assert(piece@ =~= seq!['.']);
                    }
                }
            }
            piece = Vec::new();
            assert(piece@ =~= Seq::<char>::empty());
        } else {
            piece.push(c);
        }
        i = i + 1;
    }
    let ghost before = pieces_view(parts@);
    if piece.len() > 0 && !(piece.len() == 1 && piece[0] == '.') {
        assert(kept(piece@)) by {
            if piece@ == seq!['.'] {
                assert(piece@.len() == 1 && piece@[0] == '.');
            }
        }
        parts.push(piece);
        assert(pieces_view(parts@) =~= before.push(piece@));
    } else {
        assert(!kept(piece@)) by {
            if piece@.len() == 1 && piece@[0] == '.' {
                assert(piece@ =~= seq!['.']);
            }
        }
    }
    parts
}

/// Whether two character lists are equal.
fn chars_equal(a: &Vec<char>, b: &Vec<char>) -> (r: bool)
    ensures
        r == (a@ == b@),
{
    if a.len() != b.len() {
        return false;
    }
    let mut i: usize = 0;
    while i < a.len()
        invariant
            a@.len() == b@.len(),
            i <= a@.len(),
            forall|j: int| 0 <= j < i ==> a@[j] == b@[j],
        decreases a@.len() - i,
    {
        if a[i] != b[i] {
            return false;
        }
        i = i + 1;
    }
    assert(a@ =~= b@);
    true
}

/// The path starts at the root, per [`has_root`].
pub fn path_has_root(p: &str) -> (r: bool)
    ensures
        r == has_root(p@),
{
    p.unicode_len() > 0 && p.get_char(0) == '/'
}

/// Whether `a` and `b` name the same path, per [`same_path`].
pub fn is_same_path(a: &str, b: &str) -> (r: bool)
    ensures
        r == same_path(a@, b@),
{
    if path_has_root(a) != path_has_root(b) {
        return false;
    }
    let la = a.unicode_len();
    let lb = b.unicode_len();
    let cur_a = la > 0 && a.get_char(0) == '.' && (la == 1 || a.get_char(1) == '/');
    let cur_b = lb > 0 && b.get_char(0) == '.' && (lb == 1 || b.get_char(1) == '/');
    if cur_a != cur_b {
        return false;
    }
    let pa = parts_of(a);
    let pb = parts_of(b);
    if pa.len() != pb.len() {
        assert(pieces_view(pa@).len() != pieces_view(pb@).len());
        return false;
    }
    let mut i: usize = 0;
    while i < pa.len()
        invariant
            pa@.len() == pb@.len(),
            i <= pa@.len(),
            pieces_view(pa@) == path_parts(a@),
            pieces_view(pb@) == path_parts(b@),
            has_root(a@) == has_root(b@),
            leading_cur_dir(a@) == leading_cur_dir(b@),
            forall|j: int| 0 <= j < i ==> pa@[j]@ == pb@[j]@,
        decreases pa@.len() - i,
    {
        if !chars_equal(&pa[i], &pb[i]) {
            assert(pieces_view(pa@)[i as int] == pa@[i as int]@);
            assert(pieces_view(pb@)[i as int] == pb@[i as int]@);
            assert(pieces_view(pa@) != pieces_view(pb@));
            return false;
        }
        i = i + 1;
    }
    assert(pieces_view(pa@) =~= pieces_view(pb@));
    true
}

} // verus!
