//! Content hashes of memories.

use vstd::prelude::*;
use vstd::string::*;
use vstd::wrapping::u64_specs;

use crate::text::{chars_of, hex, hex_text, is_white_space, lowercase, to_lowercase, white_space};

verus! {

// --- white space ----------------------------------------------------------------------

/// The words of `s` with one space between them, and whether white space ends `s`.
pub open spec fn squeezed(s: Seq<char>) -> (Seq<char>, bool)
    decreases s.len(),
{
    if s.len() == 0 {
        (Seq::empty(), false)
    } else {
        let (out, gap) = squeezed(s.drop_last());
        let c = s.last();
        if white_space(c) {
            (out, true)
        } else if gap && out.len() > 0 {
            (out.push(' ').push(c), false)
        } else {
            (out.push(c), false)
        }
    }
}

/// Collapses every run of white space to one space and drops it at both ends.
pub fn collapse_white_space(s: &str) -> (r: String)
    ensures
        r@ == squeezed(s@).0,
{
    let cs = chars_of(s);
    let mut out = String::new();
    let mut started = false;
    let mut gap = false;
    let mut i: usize = 0;
    while i < cs.len()
        invariant
            i <= cs.len(),
            cs@ == s@,
            (out@, gap) == squeezed(s@.take(i as int)),
            started == (out@.len() > 0),
        decreases cs.len() - i,
    {
        assert(s@.take(i + 1).drop_last() =~= s@.take(i as int));
        let c: char = cs[i];
        if is_white_space(c) {
            gap = true;
        } else {
            if gap && started {
                out.push(' ');
            }
            out.push(c);
            gap = false;
            started = true;
        }
        i += 1;
    }
    assert(s@.take(s@.len() as int) =~= s@);
    out
}

// --- MD5 ------------------------------------------------------------------------------

/// The MD5 digest of some bytes.
pub uninterp spec fn md5_digest(data: Seq<u8>) -> Seq<u8>;

/// Computes an MD5 digest with `md5::compute`, whose result is sixteen bytes and a function
/// of the input bytes alone.
#[verifier::external_body]
fn md5_bytes(data: &[u8]) -> (r: Vec<u8>)
    ensures
        r@ == md5_digest(data@),
        r@.len() == 16,
{
    md5::compute(data).0.to_vec()
}

/// The hexadecimal text of some bytes, two digits for each.
pub open spec fn hex_bytes(bytes: Seq<u8>) -> Seq<char>
    decreases bytes.len(),
{
    if bytes.len() == 0 {
        Seq::empty()
    } else {
        hex_bytes(bytes.drop_last()) + hex(bytes.last() as nat, 2)
    }
}

/// Writes bytes in hexadecimal.
pub fn hex_bytes_text(bytes: &Vec<u8>) -> (r: String)
    ensures
        r@ == hex_bytes(bytes@),
{
    let mut r = String::new();
    let mut i: usize = 0;
    while i < bytes.len()
        invariant
            i <= bytes.len(),
            r@ == hex_bytes(bytes@.take(i as int)),
        decreases bytes.len() - i,
    {
        assert(bytes@.take(i + 1).drop_last() =~= bytes@.take(i as int));
        r.append(&hex_text(bytes[i] as u64, 2));
        i += 1;
    }
    assert(bytes@.take(bytes@.len() as int) =~= bytes@);
    r
}

/// The hash by which memories are compared: MD5 of the lower-cased words.
pub open spec fn normalized_hash(content: Seq<char>) -> Seq<char> {
    hex_bytes(md5_digest(vstd::utf8::encode_utf8(squeezed(lowercase(content)).0)))
}

/// Computes the hash by which memories are compared.
pub fn compute_normalized_memory_hash(content: &str) -> (r: String)
    ensures
        r@ == normalized_hash(content@),
{
    let normalized = collapse_white_space(&to_lowercase(content));
    hex_bytes_text(&md5_bytes(normalized.as_str().as_bytes()))
}

// --- FNV-1a ---------------------------------------------------------------------------

/// The FNV-1a hash of some bytes.
pub open spec fn fnv1a(bytes: Seq<u8>) -> u64
    decreases bytes.len(),
{
    if bytes.len() == 0 {
        0xcbf2_9ce4_8422_2325u64
    } else {
        u64_specs::wrapping_mul(
            fnv1a(bytes.drop_last()) ^ (bytes.last() as u64),
            0x0000_0100_0000_01b3u64,
        )
    }
}

/// Hashes a text with FNV-1a over its UTF-8 bytes.
pub fn stable_content_hash(content: &str) -> (r: u64)
    ensures
        r == fnv1a(vstd::utf8::encode_utf8(content@)),
{
    let bytes = content.as_bytes();
    let mut hash: u64 = 0xcbf2_9ce4_8422_2325;
    let mut i: usize = 0;
    while i < bytes.len()
        invariant
            i <= bytes.len(),
            hash == fnv1a(bytes@.take(i as int)),
        decreases bytes.len() - i,
    {
        assert(bytes@.take(i + 1).drop_last() =~= bytes@.take(i as int));
        hash = hash ^ (bytes[i] as u64);
        hash = hash.wrapping_mul(0x0000_0100_0000_01b3);
        i += 1;
    }
    assert(bytes@.take(bytes@.len() as int) =~= bytes@);
    hash
}

/// A text without white space is squeezed to itself, white space at the ends goes, and white
/// space between two texts that hold more than that becomes one space.
pub proof fn squeezing_leaves_one_space_between_words(a: Seq<char>, b: Seq<char>, w: char)
    requires
        white_space(w),
    ensures
        (forall|i: int| 0 <= i < a.len() ==> !white_space(#[trigger] a[i])) ==> squeezed(a).0 == a,
        squeezed(a.push(w)).0 == squeezed(a).0,
        squeezed(seq![w] + a).0 == squeezed(a).0,
        squeezed(a).0.len() > 0 && squeezed(b).0.len() > 0 ==> squeezed(a.push(w) + b).0
            == squeezed(a).0 + seq![' '] + squeezed(b).0,
        squeezed(b).0.len() == 0 ==> squeezed(a.push(w) + b).0 == squeezed(a).0,
{
    if forall|i: int| 0 <= i < a.len() ==> !white_space(#[trigger] a[i]) {
        squeezed_as_it_is(a);
    }
    assert(a.push(w).drop_last() =~= a);
    squeezed_behind(a.push(w), b);
    assert(Seq::<char>::empty().push(w) + a =~= seq![w] + a);
    assert(Seq::<char>::empty().push(w).drop_last() =~= Seq::<char>::empty());
    assert(squeezed(Seq::<char>::empty()).0 =~= Seq::<char>::empty());
    squeezed_behind(Seq::<char>::empty().push(w), a);
    if squeezed(a).0.len() == 0 {
        assert(squeezed(a).0 =~= Seq::<char>::empty());
    }
}

proof fn squeezed_as_it_is(a: Seq<char>)
    requires
        forall|i: int| 0 <= i < a.len() ==> !white_space(#[trigger] a[i]),
    ensures
        squeezed(a) == (a, false),
    decreases a.len(),
{
    if a.len() > 0 {
        let rest = a.drop_last();
        assert forall|i: int| 0 <= i < rest.len() implies !white_space(#[trigger] rest[i]) by {
            assert(rest[i] == a[i]);
        }
        squeezed_as_it_is(rest);
        assert(!white_space(a[a.len() - 1]));
        assert(rest.push(a.last()) =~= a);
    } else {
        assert(a =~= Seq::empty());
    }
}

// Behind a text that ends in white space, another is squeezed by itself.
proof fn squeezed_behind(a: Seq<char>, b: Seq<char>)
    requires
        squeezed(a).1,
    ensures
        squeezed(a + b).0 == (if squeezed(b).0.len() == 0 {
            squeezed(a).0
        } else if squeezed(a).0.len() == 0 {
            squeezed(b).0
        } else {
            squeezed(a).0 + seq![' '] + squeezed(b).0
        }),
        squeezed(a + b).1 == (squeezed(b).1 || squeezed(b).0.len() == 0),
    decreases b.len(),
{
    if b.len() == 0 {
        assert(a + b =~= a);
    } else {
        let less = b.drop_last();
        squeezed_behind(a, less);
        assert((a + b).drop_last() =~= a + less);
        assert((a + b).last() == b.last());
        let (x, _) = squeezed(a);
        let (y, gap) = squeezed(less);
        let c = b.last();
        if !white_space(c) {
            if y.len() == 0 {
                assert(squeezed(b).0 =~= seq![c]);
                if x.len() == 0 {
                    assert(squeezed(a + b).0 =~= seq![c]);
                } else {
                    assert(squeezed(a + b).0 =~= x + seq![' '] + seq![c]);
                }
            } else if x.len() > 0 {
                if gap {
                    assert(squeezed(a + b).0 =~= x + seq![' '] + y.push(' ').push(c));
                } else {
                    assert(squeezed(a + b).0 =~= x + seq![' '] + y.push(c));
                }
            }
        }
    }
}

/// Some bytes are written one behind the other, two digits each.
pub proof fn bytes_are_written_one_by_one(a: Seq<u8>, b: Seq<u8>)
    ensures
        hex_bytes(a + b) == hex_bytes(a) + hex_bytes(b),
        hex_bytes(a).len() == 2 * a.len(),
    decreases b.len(), a.len(),
{
    if b.len() > 0 {
        let less = b.drop_last();
        bytes_are_written_one_by_one(a, less);
        assert((a + b).drop_last() =~= a + less);
        assert(hex_bytes(a + b) =~= hex_bytes(a) + hex_bytes(b));
    } else {
        assert(a + b =~= a);
        assert(hex_bytes(a) + hex_bytes(b) =~= hex_bytes(a));
        if a.len() > 0 {
            bytes_are_written_one_by_one(a.drop_last(), Seq::empty());
            crate::text::hex_len(a.last() as nat, 2);
        }
    }
}

} // verus!
