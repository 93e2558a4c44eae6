//! Searching text with patterns, as SQLite's `LIKE` does with a backslash as escape.

use vstd::prelude::*;

use crate::text::{chars_of, lowercase, owned, to_lowercase, trim, trimmed};

verus! {

/// A letter of the ASCII alphabet as a small one; any other character as it is.
pub open spec fn folded(c: char) -> char {
    if 'A' <= c && c <= 'Z' {
        (c as u32 + 32) as char
    } else {
        c
    }
}

/// A text with its ASCII letters as small ones.
pub open spec fn folded_text(s: Seq<char>) -> Seq<char> {
    s.map_values(|c: char| folded(c))
}

fn fold(c: char) -> (r: char)
    ensures
        r == folded(c),
{
    if 'A' <= c && c <= 'Z' {
        let n: u8 = c as u8;
        (n + 32) as char
    } else {
        c
    }
}

/// The character that a match reads: ASCII letters as small ones, and the two last code
/// points of the first plane, which are no characters, as the replacement character.
pub open spec fn read_as(c: char) -> char {
    if c == '\u{FFFE}' || c == '\u{FFFF}' {
        '\u{FFFD}'
    } else {
        folded(c)
    }
}

/// A text as a match reads it.
pub open spec fn read_text(s: Seq<char>) -> Seq<char> {
    s.map_values(|c: char| read_as(c))
}

fn read_char(c: char) -> (r: char)
    ensures
        r == read_as(c),
{
    if c == '\u{FFFE}' || c == '\u{FFFF}' {
        '\u{FFFD}'
    } else {
        fold(c)
    }
}

/// What stands before the first zero character of a text.
pub open spec fn up_to_zero(s: Seq<char>) -> Seq<char>
    decreases s.len(),
{
    if s.len() == 0 || s[0] == '\0' {
        Seq::empty()
    } else {
        seq![s[0]] + up_to_zero(s.skip(1))
    }
}

/// Whether a text without a zero character matches a pattern without one: `%` stands for
/// any text, `_` for any character, a backslash takes away the meaning of what follows, and
/// ASCII letters match whatever their case.
pub open spec fn matches_pattern(p: Seq<char>, t: Seq<char>) -> bool
    decreases p.len(),
{
    if p.len() == 0 {
        t.len() == 0
    } else if p[0] == '%' {
        exists|k: int| 0 <= k <= t.len() && matches_pattern(p.skip(1), #[trigger] t.skip(k))
    } else if p[0] == '_' {
        t.len() > 0 && matches_pattern(p.skip(1), t.skip(1))
    } else if p[0] == '\\' {
        p.len() > 1 && t.len() > 0 && read_as(t[0]) == read_as(p[1]) && matches_pattern(
            p.skip(2),
            t.skip(1),
        )
    } else {
        t.len() > 0 && read_as(t[0]) == read_as(p[0]) && matches_pattern(p.skip(1), t.skip(1))
    }
}

/// Whether a text matches a pattern. Both end at their first zero character.
pub open spec fn like(p: Seq<char>, t: Seq<char>) -> bool {
    matches_pattern(up_to_zero(p), up_to_zero(t))
}

/// Reads the characters of a text before its first zero character.
fn chars_up_to_zero(s: &str) -> (r: Vec<char>)
    ensures
        r@ == up_to_zero(s@),
{
    let cs = chars_of(s);
    let mut out: Vec<char> = Vec::new();
    let mut i: usize = 0;
    assert(cs@.skip(0) =~= s@);
    assert(out@ + up_to_zero(s@) =~= up_to_zero(s@));
    while i < cs.len()
        invariant
            i <= cs.len(),
            up_to_zero(s@) == out@ + up_to_zero(cs@.skip(i as int)),
        decreases cs.len() - i,
    {
        let ghost rest = cs@.skip(i as int);
        assert(rest[0] == cs@[i as int]);
        assert(rest.skip(1) =~= cs@.skip(i + 1));
        if cs[i] == '\0' {
            assert(out@ + up_to_zero(rest) =~= out@);
            return out;
        }
        out.push(cs[i]);
        assert(up_to_zero(s@) =~= out@ + up_to_zero(rest.skip(1)));
        i += 1;
    }
    assert(out@ + up_to_zero(cs@.skip(i as int)) =~= out@);
    out
}

/// Matches the rest of a text against the rest of a pattern.
fn like_from(p: &Vec<char>, from: usize, t: &Vec<char>, at: usize) -> (r: bool)
    requires
        from <= p.len(),
        at <= t.len(),
    ensures
        r == matches_pattern(p@.skip(from as int), t@.skip(at as int)),
    decreases p.len() - from,
{
    let mut i: usize = from;
    let mut j: usize = at;
    while i < p.len()
        invariant
            from <= i <= p.len(),
            at <= j <= t.len(),
            matches_pattern(p@.skip(from as int), t@.skip(at as int)) == matches_pattern(
                p@.skip(i as int),
                t@.skip(j as int),
            ),
        decreases p.len() - i,
    {
        let ghost ps = p@.skip(i as int);
        let ghost ts = t@.skip(j as int);
        let c = p[i];
        assert(ps[0] == c);
        assert(ps.skip(1) =~= p@.skip(i + 1));
        if c == '%' {
            let mut k: usize = j;
            while k <= t.len()
                invariant
                    i < p.len(),
                    from <= i,
                    j <= k <= t.len() + 1,
                    ps == p@.skip(i as int),
                    ts == t@.skip(j as int),
                    ps[0] == '%',
                    ps.skip(1) == p@.skip(i + 1),
                    matches_pattern(p@.skip(from as int), t@.skip(at as int)) == matches_pattern(
                        ps,
                        ts,
                    ),
                    forall|m: int|
                        0 <= m < k - j ==> !matches_pattern(ps.skip(1), #[trigger] ts.skip(m)),
                decreases t.len() + 1 - k,
            {
                assert(ts.skip(k - j) =~= t@.skip(k as int));
                if like_from(p, i + 1, t, k) {
                    return true;
                }
                if k == t.len() {
                    assert(!matches_pattern(ps, ts));
                    return false;
                }
                k += 1;
            }
            return false;
        }
        if c == '\\' {
            if i + 1 >= p.len() || j >= t.len() || read_char(t[j]) != read_char(p[i + 1]) {
                assert(j < t.len() ==> ts[0] == t@[j as int]);
                assert(i + 1 < p.len() ==> ps[1] == p@[i + 1]);
                return false;
            }
            assert(ts[0] == t@[j as int]);
            assert(ps[1] == p@[i + 1]);
            assert(ps.skip(2) =~= p@.skip(i + 2));
            assert(ts.skip(1) =~= t@.skip(j + 1));
            i += 2;
            j += 1;
        } else {
            if j >= t.len() || (c != '_' && read_char(t[j]) != read_char(c)) {
                assert(j < t.len() ==> ts[0] == t@[j as int]);
                return false;
            }
            assert(ts[0] == t@[j as int]);
            assert(ts.skip(1) =~= t@.skip(j + 1));
            i += 1;
            j += 1;
        }
    }
    j == t.len()
}

/// Tests whether a text matches a pattern.
pub fn is_like(pattern: &str, text: &str) -> (r: bool)
    ensures
        r == like(pattern@, text@),
{
    let p = chars_up_to_zero(pattern);
    let t = chars_up_to_zero(text);
    assert(p@.skip(0) =~= p@);
    assert(t@.skip(0) =~= t@);
    like_from(&p, 0, &t, 0)
}

/// A text with every character that has a meaning in a pattern behind a backslash.
pub open spec fn escaped(s: Seq<char>) -> Seq<char>
    decreases s.len(),
{
    if s.len() == 0 {
        Seq::empty()
    } else {
        let rest = escaped(s.drop_last());
        let c = s.last();
        if c == '\\' || c == '%' || c == '_' {
            rest.push('\\').push(c)
        } else {
            rest.push(c)
        }
    }
}

/// The pattern that finds a query anywhere in a text.
pub open spec fn like_pattern(query: Seq<char>) -> Seq<char> {
    "%"@ + escaped(lowercase(trimmed(query))) + "%"@
}

/// Builds the pattern that finds a query anywhere in a text.
pub fn sql_like_pattern(query: &str) -> (r: String)
    ensures
        r@ == like_pattern(query@),
{
    let lowered = to_lowercase(trim(query));
    let cs = chars_of(&lowered);
    let mut out = owned("%");
    let mut i: usize = 0;
    assert("%"@ + escaped(cs@.take(0)) =~= "%"@);
    while i < cs.len()
        invariant
            i <= cs.len(),
            out@ == "%"@ + escaped(cs@.take(i as int)),
        decreases cs.len() - i,
    {
        proof {
            crate::rows::take_next(cs@, i as int);
        }
        let c = cs[i];
        if c == '\\' || c == '%' || c == '_' {
            out.push('\\');
        }
        out.push(c);
        assert(out@ =~= "%"@ + escaped(cs@.take(i + 1)));
        i += 1;
    }
    proof {
        crate::rows::take_all(cs@);
    }
    out.append("%");
    out
}

/// Whether a text holds another, whatever the case of its ASCII letters.
pub open spec fn holds(t: Seq<char>, part: Seq<char>) -> bool {
    exists|k: int| #[trigger] holds_at(t, part, k)
}

/// Whether a text holds another at a place.
pub open spec fn holds_at(t: Seq<char>, part: Seq<char>, k: int) -> bool {
    0 <= k && k + part.len() <= t.len() && read_text(t.subrange(k, k + part.len()))
        == read_text(part)
}

/// Whether a text ends with another, whatever the case of its ASCII letters.
pub open spec fn ends_with_part(t: Seq<char>, part: Seq<char>) -> bool {
    holds_at(t, part, t.len() - part.len())
}

/// The pattern for a query matches exactly the texts that hold the query as it is written:
/// no character of a query has a meaning of its own. A text is searched up to its first zero
/// character. Of a query with such a character what stands before it is sought, at the end
/// of that text.
pub proof fn like_finds_the_query_itself(query: Seq<char>, t: Seq<char>)
    ensures
        ({
            let part = lowercase(trimmed(query));
            like(like_pattern(query), t) == (if part.contains('\0') {
                ends_with_part(up_to_zero(t), up_to_zero(part))
            } else {
                holds(up_to_zero(t), part)
            })
        }),
{
    reveal_strlit("%");
    let part = lowercase(trimmed(query));
    let u = up_to_zero(t);
    if part.contains('\0') {
        let head = up_to_zero(part);
        let p = "%"@ + escaped(head);
        assert(up_to_zero(like_pattern(query)) == p) by {
            cut_behind(part);
            escaped_up_to_zero(part, "%"@);
            assert(like_pattern(query) =~= "%"@ + (escaped(part) + "%"@));
            assert((escaped(part) + "%"@) =~= like_pattern(query).skip(1));
            assert(p =~= seq!['%'] + escaped(head));
        }
        assert(p.skip(1) =~= escaped(head));
        assert(p[0] == '%');
        if matches_pattern(p, u) {
            let k = choose|k: int|
                0 <= k <= u.len() && matches_pattern(p.skip(1), #[trigger] u.skip(k));
            escaped_matches_alone(head, u.skip(k));
            assert(read_text(u.skip(k)).len() == read_text(head).len());
            assert(u.skip(k) =~= u.subrange(k, k + head.len()));
        }
        if ends_with_part(u, head) {
            let k = u.len() - head.len();
            assert(u.skip(k) =~= u.subrange(k, k + head.len()));
            escaped_matches_alone(head, u.skip(k));
            assert(matches_pattern(p.skip(1), u.skip(k)));
        }
    } else {
        let p = like_pattern(query);
        assert(up_to_zero(p) == p) by {
            escaped_has_no_zero(part);
            whole_without_zero(p);
        }
        assert(p[0] == '%');
        assert(p.skip(1) =~= escaped(part) + "%"@);
        if matches_pattern(p, u) {
            let k = choose|k: int|
                0 <= k <= u.len() && matches_pattern(p.skip(1), #[trigger] u.skip(k));
            escaped_matches_itself(part, u.skip(k));
            assert(u.skip(k).take(part.len() as int) =~= u.subrange(k, k + part.len()));
            assert(holds_at(u, part, k));
        }
        if holds(u, part) {
            let k = choose|k: int| #[trigger] holds_at(u, part, k);
            escaped_matches_itself(part, u.skip(k));
            assert(u.skip(k).take(part.len() as int) =~= u.subrange(k, k + part.len()));
            assert(matches_pattern(p.skip(1), u.skip(k)));
        }
    }
}

proof fn whole_without_zero(s: Seq<char>)
    requires
        !s.contains('\0'),
    ensures
        up_to_zero(s) == s,
    decreases s.len(),
{
    if s.len() > 0 {
        assert(s.contains(s[0]));
        assert forall|i: int| 0 <= i < s.skip(1).len() implies s.skip(1)[i] != '\0' by {
            assert(s.contains(s[i + 1]));
        }
        whole_without_zero(s.skip(1));
        assert(up_to_zero(s) =~= s);
    } else {
        assert(s =~= Seq::empty());
    }
}

proof fn escaped_has_no_zero(part: Seq<char>)
    requires
        !part.contains('\0'),
    ensures
        !escaped(part).contains('\0'),
    decreases part.len(),
{
    if part.len() > 0 {
        assert(part.contains(part.last()));
        assert forall|i: int| 0 <= i < part.drop_last().len() implies part.drop_last()[i]
            != '\0' by {
            assert(part.contains(part[i]));
        }
        escaped_has_no_zero(part.drop_last());
        let rest = escaped(part.drop_last());
        assert forall|i: int| 0 <= i < rest.len() implies rest[i] != '\0' by {
            assert(rest.contains(rest[i]));
        }
    }
}

/// What stands before the first zero character holds none, and the rest begins with one.
proof fn cut_behind(s: Seq<char>)
    requires
        s.contains('\0'),
    ensures
        ({
            let n = up_to_zero(s).len() as int;
            &&& n < s.len()
            &&& s.take(n) == up_to_zero(s)
            &&& s[n] == '\0'
            &&& !up_to_zero(s).contains('\0')
        }),
    decreases s.len(),
{
    let i = choose|i: int| 0 <= i < s.len() && s[i] == '\0';
    if s[0] != '\0' {
        assert(s.skip(1)[i - 1] == '\0');
        cut_behind(s.skip(1));
        let rest = up_to_zero(s.skip(1));
        let n = rest.len() as int;
        assert(s.take(n + 1) =~= seq![s[0]] + s.skip(1).take(n));
        assert forall|j: int| 0 <= j < up_to_zero(s).len() implies up_to_zero(s)[j] != '\0' by {
            if j > 0 {
                assert(rest.contains(rest[j - 1]));
            }
        }
    } else {
        assert(s.take(0) =~= Seq::empty());
    }
}

proof fn up_to_zero_behind(a: Seq<char>, b: Seq<char>)
    requires
        !a.contains('\0'),
    ensures
        up_to_zero(a + b) == a + up_to_zero(b),
    decreases a.len(),
{
    if a.len() == 0 {
        assert(a + b =~= b);
        assert(a + up_to_zero(b) =~= up_to_zero(b));
    } else {
        assert(a.contains(a[0]));
        assert forall|i: int| 0 <= i < a.skip(1).len() implies a.skip(1)[i] != '\0' by {
            assert(a.contains(a[i + 1]));
        }
        up_to_zero_behind(a.skip(1), b);
        assert((a + b).skip(1) =~= a.skip(1) + b);
        assert(up_to_zero(a + b) =~= a + up_to_zero(b));
    }
}

proof fn escaped_up_to_zero(part: Seq<char>, tail: Seq<char>)
    requires
        part.contains('\0'),
    ensures
        up_to_zero(escaped(part) + tail) == escaped(up_to_zero(part)),
{
    cut_behind(part);
    let head = up_to_zero(part);
    let n = head.len() as int;
    let rest = part.skip(n);
    assert(part =~= head + rest);
    escaped_concat(head, rest);
    escaped_has_no_zero(head);
    let one = seq!['\0'];
    assert(rest =~= one + rest.skip(1));
    escaped_concat(one, rest.skip(1));
    assert(one.drop_last() =~= Seq::empty());
    assert(escaped(one.drop_last()) =~= Seq::empty());
    assert(escaped(one) =~= one);
    let b = escaped(rest) + tail;
    assert(b[0] == '\0');
    up_to_zero_behind(escaped(head), b);
    assert(escaped(part) + tail =~= escaped(head) + b);
    assert(escaped(head) + up_to_zero(b) =~= escaped(head));
}

proof fn escaped_first(part: Seq<char>)
    requires
        part.len() > 0,
    ensures
        ({
            let c = part[0];
            escaped(part) == (if c == '\\' || c == '%' || c == '_' {
                seq!['\\', c]
            } else {
                seq![c]
            }) + escaped(part.skip(1))
        }),
{
    let one = seq![part[0]];
    assert(part =~= one + part.skip(1));
    escaped_concat(one, part.skip(1));
    assert(one.drop_last() =~= Seq::empty());
    assert(escaped(one.drop_last()) =~= Seq::empty());
    assert(escaped(one) =~= (if part[0] == '\\' || part[0] == '%' || part[0] == '_' {
        seq!['\\', part[0]]
    } else {
        seq![part[0]]
    }));
}

proof fn escaped_matches_alone(part: Seq<char>, t: Seq<char>)
    ensures
        matches_pattern(escaped(part), t) == (read_text(t) == read_text(part)),
    decreases part.len(),
{
    let p = escaped(part);
    if part.len() == 0 {
        if t.len() == 0 {
            assert(read_text(t) =~= read_text(part));
        } else {
            assert(read_text(t).len() == t.len());
        }
    } else {
        escaped_first(part);
        let c = part[0];
        let rest = part.skip(1);
        if c == '\\' || c == '%' || c == '_' {
            assert(p[0] == '\\' && p[1] == c);
            assert(p.skip(2) =~= escaped(rest));
        } else {
            assert(p[0] == c);
            assert(p.skip(1) =~= escaped(rest));
        }
        let x = read_text(t);
        let y = read_text(part);
        if t.len() > 0 {
            escaped_matches_alone(rest, t.skip(1));
            let x1 = read_text(t.skip(1));
            let y1 = read_text(rest);
            assert(x =~= seq![read_as(t[0])] + x1);
            assert(y =~= seq![read_as(c)] + y1);
            if x == y {
                assert(x[0] == y[0]);
                assert(x1 =~= x.skip(1));
                assert(y1 =~= y.skip(1));
            }
        } else {
            assert(x.len() != y.len());
        }
    }
}

proof fn escaped_concat(a: Seq<char>, b: Seq<char>)
    ensures
        escaped(a + b) == escaped(a) + escaped(b),
    decreases b.len(),
{
    if b.len() == 0 {
        assert(a + b =~= a);
        assert(escaped(a) + escaped(b) =~= escaped(a));
    } else {
        escaped_concat(a, b.drop_last());
        assert((a + b).drop_last() =~= a + b.drop_last());
        assert(escaped(a + b) =~= escaped(a) + escaped(b));
    }
}

proof fn escaped_matches_itself(part: Seq<char>, t: Seq<char>)
    ensures
        matches_pattern(escaped(part) + "%"@, t) == (part.len() <= t.len() && read_text(
            t.take(part.len() as int),
        ) == read_text(part)),
    decreases part.len(),
{
    reveal_strlit("%");
    let p = escaped(part) + "%"@;
    if part.len() == 0 {
        assert(p =~= "%"@);
        assert(p.skip(1).len() == 0);
        assert(t.skip(t.len() as int).len() == 0);
        assert(matches_pattern(p.skip(1), t.skip(t.len() as int)));
        assert(read_text(t.take(0)) =~= read_text(part));
    } else {
        let c = part[0];
        let rest = part.skip(1);
        escaped_first(part);
        let special = c == '\\' || c == '%' || c == '_';
        if special {
            assert(p[0] == '\\' && p[1] == c);
            assert(p.skip(2) =~= escaped(rest) + "%"@);
        } else {
            assert(p[0] == c);
            assert(p.skip(1) =~= escaped(rest) + "%"@);
        }
        if t.len() > 0 {
            let u = t.skip(1);
            escaped_matches_itself(rest, u);
            if part.len() <= t.len() {
                let x = read_text(t.take(part.len() as int));
                let y = read_text(part);
                let x1 = read_text(u.take(rest.len() as int));
                let y1 = read_text(rest);
                assert(x =~= seq![read_as(t[0])] + x1);
                assert(y =~= seq![read_as(c)] + y1);
                if x == y {
                    assert(x[0] == y[0]);
                    assert(x1 =~= x.skip(1));
                    assert(y1 =~= y.skip(1));
                }
            }
        }
    }
}

/// Folds the ASCII letters of a text.
pub fn fold_text(s: &str) -> (r: String)
    ensures
        r@ == folded_text(s@),
{
    let cs = chars_of(s);
    let mut out = owned("");
    let mut i: usize = 0;
    proof {
        reveal_strlit("");
        assert(out@ =~= folded_text(s@).take(0));
    }
    while i < cs.len()
        invariant
            i <= cs.len(),
            cs@ == s@,
            out@ == folded_text(s@).take(i as int),
        decreases cs.len() - i,
    {
        proof {
            crate::rows::take_next(folded_text(s@), i as int);
        }
        out.push(fold(cs[i]));
        i += 1;
    }
    proof {
        crate::rows::take_all(folded_text(s@));
    }
    out
}

} // verus!
