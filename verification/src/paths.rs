//! Paths as texts whose components are parted by slashes.

use vstd::prelude::*;

use crate::rows::{group_views, take_all, take_next, views};
use crate::text::{chars_of, owned, same_text};

verus! {

/// What is at a path below a directory. An absolute path stands for itself.
pub open spec fn joined(base: Seq<char>, rest: Seq<char>) -> Seq<char> {
    if rest.len() > 0 && rest[0] == '/' {
        rest
    } else if base.len() == 0 || base.last() == '/' {
        base + rest
    } else {
        base + "/"@ + rest
    }
}

/// Joins a path to a directory.
pub fn join_path(base: &str, rest: &str) -> (r: String)
    ensures
        r@ == joined(base@, rest@),
{
    if rest.unicode_len() > 0 && rest.get_char(0) == '/' {
        return owned(rest);
    }
    let n: usize = base.unicode_len();
    let mut r = owned(base);
    if n > 0 && base.get_char(n - 1) != '/' {
        r.append("/");
    }
    r.append(rest);
    r
}

/// Whether a path starts at the root.
pub open spec fn absolute(path: Seq<char>) -> bool {
    path.len() > 0 && path[0] == '/'
}

/// Tells whether a path starts at the root.
pub fn is_absolute(path: &str) -> (r: bool)
    ensures
        r == absolute(path@),
{
    path.unicode_len() > 0 && path.get_char(0) == '/'
}

/// The texts between slashes.
pub open spec fn pieces(path: Seq<char>) -> Seq<Seq<char>>
    decreases path.len(),
{
    if path.len() == 0 {
        seq![Seq::empty()]
    } else {
        let rest = pieces(path.drop_last());
        if path.last() == '/' {
            rest.push(Seq::empty())
        } else {
            rest.drop_last().push(rest.last().push(path.last()))
        }
    }
}

/// The pieces that are components: not the empty ones, and not a dot but in front of a path
/// that is not absolute.
pub open spec fn named_pieces(pieces: Seq<Seq<char>>, absolute: bool) -> Seq<Seq<char>>
    decreases pieces.len(),
{
    if pieces.len() == 0 {
        Seq::empty()
    } else {
        let rest = named_pieces(pieces.drop_last(), absolute);
        let piece = pieces.last();
        if piece.len() == 0 || (piece == "."@ && (absolute || pieces.len() > 1)) {
            rest
        } else {
            rest.push(piece)
        }
    }
}

/// The components of a path behind its root.
pub open spec fn parts(path: Seq<char>) -> Seq<Seq<char>> {
    named_pieces(pieces(path), absolute(path))
}

/// Whether two texts name the same path.
pub open spec fn same_path(a: Seq<char>, b: Seq<char>) -> bool {
    absolute(a) == absolute(b) && parts(a) == parts(b)
}

/// Whether a path is a directory or lies below it.
pub open spec fn within(path: Seq<char>, dir: Seq<char>) -> bool {
    absolute(path) == absolute(dir) && parts(dir).is_prefix_of(parts(path))
}

/// The name at the end of a path, where it ends in one.
pub open spec fn file_name(path: Seq<char>) -> Option<Seq<char>> {
    let all = parts(path);
    if all.len() == 0 || all.last() == "."@ || all.last() == ".."@ {
        None
    } else {
        Some(all.last())
    }
}

fn split(path: &str) -> (r: Vec<String>)
    ensures
        views(r@) == pieces(path@),
{
    broadcast use group_views;

    let chars = chars_of(path);
    let ghost all = path@;
    let mut done: Vec<String> = Vec::new();
    let mut last = String::new();
    let mut i: usize = 0;
    while i < chars.len()
        invariant
            i <= chars.len(),
            chars@ == all,
            views(done@).push(last@) == pieces(all.take(i as int)),
        decreases chars.len() - i,
    {
        proof {
            take_next(all, i as int);
        }
        let ghost before = views(done@).push(last@);
        assert(before.drop_last() =~= views(done@));
        assert(before.last() == last@);
        if chars[i] == '/' {
            done.push(last);
            last = String::new();
        } else {
            last.push(chars[i]);
        }
        i += 1;
    }
    proof {
        take_all(all);
    }
    done.push(last);
    done
}

/// Splits a path into the components behind its root.
pub fn path_parts(path: &str) -> (r: Vec<String>)
    ensures
        views(r@) == parts(path@),
{
    broadcast use group_views;

    let rooted: bool = is_absolute(path);
    let all = split(path);
    let ghost given = views(all@);
    let mut r: Vec<String> = Vec::new();
    let mut i: usize = 0;
    while i < all.len()
        invariant
            i <= all.len(),
            given == views(all@),
            views(r@) == named_pieces(given.take(i as int), rooted),
        decreases all.len() - i,
    {
        proof {
            take_next(given, i as int);
        }
        assert(given[i as int] == all@[i as int]@);
        let piece = &all[i];
        if piece.as_str().unicode_len() == 0 || (same_text(piece, ".") && (rooted || i > 0)) {
        } else {
            r.push(piece.clone());
        }
        i += 1;
    }
    proof {
        take_all(given);
    }
    r
}

fn begins(all: &Vec<String>, first: &Vec<String>) -> (r: bool)
    ensures
        r == views(first@).is_prefix_of(views(all@)),
{
    broadcast use group_views;

    if first.len() > all.len() {
        return false;
    }
    let mut i: usize = 0;
    while i < first.len()
        invariant
            i <= first.len() <= all.len(),
            forall|j: int| 0 <= j < i ==> #[trigger] views(first@)[j] == views(all@)[j],
        decreases first.len() - i,
    {
        assert(views(first@)[i as int] == first@[i as int]@);
        assert(views(all@)[i as int] == all@[i as int]@);
        if !same_text(&first[i], &all[i]) {
            assert(views(all@).subrange(0, first.len() as int)[i as int] == all@[i as int]@);
            return false;
        }
        i += 1;
    }
    assert(views(first@) =~= views(all@).subrange(0, first.len() as int));
    true
}

/// Tells whether two texts name the same path.
pub fn is_same_path(a: &str, b: &str) -> (r: bool)
    ensures
        r == same_path(a@, b@),
{
    broadcast use group_views;

    let x = path_parts(a);
    let y = path_parts(b);
    if is_absolute(a) != is_absolute(b) || x.len() != y.len() {
        assert(x.len() != y.len() ==> views(x@).len() != views(y@).len());
        return false;
    }
    let r: bool = begins(&x, &y);
    assert(views(x@).subrange(0, views(y@).len() as int) =~= views(x@));
    r
}

/// Tells whether a path is a directory or lies below it.
pub fn is_within(path: &str, dir: &str) -> (r: bool)
    ensures
        r == within(path@, dir@),
{
    is_absolute(path) == is_absolute(dir) && begins(&path_parts(path), &path_parts(dir))
}

/// Reads the name at the end of a path.
pub fn path_file_name(path: &str) -> (r: Option<String>)
    ensures
        crate::rows::opt_view(r) == file_name(path@),
{
    broadcast use group_views;

    let all = path_parts(path);
    let n: usize = all.len();
    assert(n > 0 ==> views(all@).last() == all@.last()@);
    if n == 0 || same_text(&all[n - 1], ".") || same_text(&all[n - 1], "..") {
        None
    } else {
        Some(all[n - 1].clone())
    }
}

/// Whether a name has the extension of a transcript.
pub open spec fn jsonl_name(name: Seq<char>) -> bool {
    name.len() > 6 && name.skip(name.len() - 6) == ".jsonl"@
}

/// Tells whether a file name has the extension of a transcript.
pub fn is_jsonl_name(name: &str) -> (r: bool)
    ensures
        r == jsonl_name(name@),
{
    let n: usize = name.unicode_len();
    if n <= 6 {
        return false;
    }
    let end = name.substring_char(n - 6, n);
    assert(end@ =~= name@.skip(name@.len() - 6));
    same_text(end, ".jsonl")
}

/// A path lies within a directory exactly where its components begin with the directory's:
/// a directory lies within itself, and what lies within a directory that lies within another
/// lies within that.
pub proof fn within_is_an_order(a: Seq<char>, b: Seq<char>, c: Seq<char>)
    ensures
        within(a, a),
        within(a, b) && within(b, c) ==> within(a, c),
        within(a, b) && within(b, a) ==> same_path(a, b),
{
    assert(parts(a).subrange(0, parts(a).len() as int) =~= parts(a));
    if within(a, b) && within(b, c) {
        let n = parts(c).len() as int;
        assert(parts(a).subrange(0, n) =~= parts(b).subrange(0, n)) by {
            let m = parts(b).len() as int;
            assert forall|j: int| 0 <= j < n implies parts(a).subrange(0, n)[j] == parts(
                b,
            ).subrange(0, n)[j] by {
                assert(parts(a).subrange(0, m)[j] == parts(b)[j]);
            }
        }
    }
    if within(a, b) && within(b, a) {
        assert(parts(a).subrange(0, parts(b).len() as int) =~= parts(a));
    }
}

/// Texts with a slash between them.
pub open spec fn with_slashes(pieces: Seq<Seq<char>>) -> Seq<char>
    decreases pieces.len(),
{
    if pieces.len() == 0 {
        Seq::empty()
    } else if pieces.len() == 1 {
        pieces[0]
    } else {
        with_slashes(pieces.drop_last()) + seq!['/'] + pieces.last()
    }
}

/// The pieces of a path, with slashes between them, are the path, and none holds a slash.
pub proof fn pieces_make_the_path(path: Seq<char>)
    ensures
        pieces(path).len() > 0,
        with_slashes(pieces(path)) == path,
        forall|i: int| 0 <= i < pieces(path).len() ==> !(#[trigger] pieces(path)[i]).contains('/'),
    decreases path.len(),
{
    let all = pieces(path);
    if path.len() == 0 {
        assert(all =~= seq![Seq::empty()]);
    } else {
        let rest = pieces(path.drop_last());
        let c = path.last();
        pieces_make_the_path(path.drop_last());
        assert(path =~= path.drop_last().push(c));
        if c == '/' {
            assert(all.drop_last() =~= rest);
            assert(with_slashes(all) =~= with_slashes(rest) + seq!['/']);
            assert forall|i: int| 0 <= i < all.len() implies !(#[trigger] all[i]).contains('/') by {
                if i < rest.len() {
                    assert(all[i] == rest[i]);
                }
            }
        } else {
            let before = rest.drop_last();
            let piece = rest.last();
            assert(all.drop_last() =~= before);
            assert(all.last() == piece.push(c));
            if rest.len() == 1 {
                assert(with_slashes(all) == all[0]);
                assert(with_slashes(rest) == rest[0]);
            } else {
                assert(with_slashes(all) =~= with_slashes(rest).push(c));
            }
            assert forall|i: int| 0 <= i < all.len() implies !(#[trigger] all[i]).contains('/') by {
                if i < before.len() {
                    assert(all[i] == rest[i]);
                } else {
                    assert(!rest[rest.len() - 1].contains('/'));
                    if all[i].contains('/') {
                        let k = choose|k: int| 0 <= k < all[i].len() && all[i][k] == '/';
                        assert(piece[k] == '/');
                    }
                }
            }
        }
    }
}

/// The components of a path are those of its pieces that name something: none is empty, a
/// dot is one at most in front of a path that is not absolute, and every other piece is one.
pub proof fn components_name_something(path: Seq<char>, piece: Seq<char>)
    ensures
        !parts(path).contains(Seq::<char>::empty()),
        absolute(path) ==> !parts(path).contains("."@),
        parts(path).contains(piece) ==> pieces(path).contains(piece),
        pieces(path).contains(piece) && piece.len() > 0 && piece != "."@ ==> parts(path).contains(
            piece,
        ),
{
    named_among(pieces(path), absolute(path), piece);
}

proof fn named_among(all: Seq<Seq<char>>, absolute: bool, piece: Seq<char>)
    ensures
        !named_pieces(all, absolute).contains(Seq::<char>::empty()),
        absolute ==> !named_pieces(all, absolute).contains("."@),
        named_pieces(all, absolute).contains(piece) ==> all.contains(piece),
        all.contains(piece) && piece.len() > 0 && piece != "."@ ==> named_pieces(
            all,
            absolute,
        ).contains(piece),
    decreases all.len(),
{
    if all.len() > 0 {
        let less = all.drop_last();
        let rest = named_pieces(less, absolute);
        let now = named_pieces(all, absolute);
        let last = all.last();
        named_among(less, absolute, piece);
        assert(all[all.len() - 1] == last);
        if now == rest.push(last) {
            assert(now[rest.len() as int] == last);
            if rest.contains(piece) {
                let k = choose|k: int| 0 <= k < rest.len() && rest[k] == piece;
                assert(now[k] == piece);
            }
            if now.contains(piece) && piece != last {
                let k = choose|k: int| 0 <= k < now.len() && now[k] == piece;
                assert(rest[k] == piece);
            }
            if now.contains(Seq::<char>::empty()) {
                let k = choose|k: int| 0 <= k < now.len() && now[k] == Seq::<char>::empty();
                if k < rest.len() {
                    assert(rest[k] == Seq::<char>::empty());
                }
            }
            if absolute && now.contains("."@) {
                let k = choose|k: int| 0 <= k < now.len() && now[k] == "."@;
                if k < rest.len() {
                    assert(rest[k] == "."@);
                }
            }
        }
        if less.contains(piece) {
            let k = choose|k: int| 0 <= k < less.len() && less[k] == piece;
            assert(all[k] == piece);
        }
        if all.contains(piece) && piece != last {
            let k = choose|k: int| 0 <= k < all.len() && all[k] == piece;
            assert(less[k] == piece);
        }
    }
}

/// What is at a path below a directory begins with the directory and ends with the path, with
/// a slash between them and no second one added; an absolute path stands for itself.
pub proof fn a_joined_path_is_below(base: Seq<char>, rest: Seq<char>)
    ensures
        absolute(rest) ==> joined(base, rest) == rest,
        !absolute(rest) && base.len() > 0 && base.last() == '/' ==> joined(base, rest) == base
            + rest,
        !absolute(rest) && base.len() > 0 && base.last() != '/' ==> joined(base, rest) == base
            + seq!['/'] + rest,
        base.len() == 0 ==> joined(base, rest) == rest,
{
    reveal_strlit("/");
    assert("/"@ =~= seq!['/']);
    if base.len() == 0 {
        assert(base + rest =~= rest);
    }
}

} // verus!
