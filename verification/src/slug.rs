//! Slug derivation: a URL-safe, human-readable identifier computed from a
//! title, plus the random suffix used to resolve collisions.
//!
//! `slugify` lower-cases the title, turns every maximal run of characters
//! that are not ASCII letters or digits into a single hyphen, and drops a
//! leading or trailing hyphen.  The result therefore consists of lower-case
//! alphanumeric words separated by single hyphens.

use vstd::prelude::*;

use crate::text::push_char;
use crate::text::spec_is_lower_alnum;
use crate::text::spec_is_upper;
use crate::text::spec_to_lower;
use crate::text::to_lower_char;

verus! {

/// One character of the normalisation pass: ASCII letters are lower-cased,
/// digits kept, and everything else becomes a separator.
pub open spec fn spec_norm_char(c: char) -> char {
    if spec_is_lower_alnum(c) {
        c
    } else if spec_is_upper(c) {
        spec_to_lower(c)
    } else {
        '-'
    }
}

/// The normalisation pass over a whole title.
pub open spec fn spec_norm(s: Seq<char>) -> Seq<char> {
    s.map_values(|c: char| spec_norm_char(c))
}

/// Collapses every run of adjacent hyphens into a single hyphen.
pub open spec fn spec_squash(s: Seq<char>) -> Seq<char>
    decreases s.len(),
{
    if s.len() == 0 {
        s
    } else if s.len() >= 2 && s[s.len() - 1] == '-' && s[s.len() - 2] == '-' {
        spec_squash(s.drop_last())
    } else {
        spec_squash(s.drop_last()).push(s.last())
    }
}

/// Drops a trailing and then a leading hyphen, if present.
pub open spec fn spec_strip(s: Seq<char>) -> Seq<char> {
    let t = if s.len() > 0 && s.last() == '-' {
        s.drop_last()
    } else {
        s
    };
    if t.len() > 0 && t[0] == '-' {
        t.drop_first()
    } else {
        t
    }
}

/// The slug derived from a title.
pub open spec fn spec_slugify(s: Seq<char>) -> Seq<char> {
    spec_strip(spec_squash(spec_norm(s)))
}

/// No two adjacent characters are both hyphens.
pub open spec fn spec_no_adj(s: Seq<char>) -> bool {
    forall|i: int, j: int|
        0 <= i && j == i + 1 && j < s.len() ==> !(#[trigger] s[i] == '-' && #[trigger] s[j] == '-')
}

/// A well-formed slug: lower-case alphanumeric characters and single
/// separating hyphens, with no hyphen at either end.
pub open spec fn spec_is_slug(s: Seq<char>) -> bool {
    &&& forall|i: int| 0 <= i < s.len() ==> spec_is_lower_alnum(#[trigger] s[i]) || s[i] == '-'
    &&& spec_no_adj(s)
    &&& (s.len() > 0 ==> s[0] != '-' && s.last() != '-')
}

/// Squashing never changes the last character, nor emptiness.
proof fn lemma_squash_last(s: Seq<char>)
    requires
        s.len() > 0,
    ensures
        spec_squash(s).len() > 0,
        spec_squash(s).last() == s.last(),
    decreases s.len(),
{
    if s.len() >= 2 && s[s.len() - 1] == '-' && s[s.len() - 2] == '-' {
        lemma_squash_last(s.drop_last());
    }
}

/// After squashing, no two adjacent characters are both hyphens, and every
/// character of the result occurs in the input's character set.
proof fn lemma_squash_shape(s: Seq<char>)
    ensures
        spec_no_adj(spec_squash(s)),
        forall|i: int|
            0 <= i < spec_squash(s).len() ==> exists|j: int|
                0 <= j < s.len() && s[j] == #[trigger] spec_squash(s)[i],
    decreases s.len(),
{
    if s.len() == 0 {
    } else if s.len() >= 2 && s[s.len() - 1] == '-' && s[s.len() - 2] == '-' {
        lemma_squash_shape(s.drop_last());
        assert(spec_squash(s) == spec_squash(s.drop_last()));
        assert forall|i: int| 0 <= i < spec_squash(s).len() implies exists|j: int|
            0 <= j < s.len() && s[j] == #[trigger] spec_squash(s)[i] by {
            assert(spec_squash(s)[i] == spec_squash(s.drop_last())[i]);
            let j = choose|j: int|
                0 <= j < s.drop_last().len() && s.drop_last()[j] == spec_squash(s.drop_last())[i];
            assert(s[j] == spec_squash(s)[i]);
        }
    } else {
        lemma_squash_shape(s.drop_last());
        if s.len() >= 2 {
            lemma_squash_last(s.drop_last());
            assert(s.drop_last().last() == s[s.len() - 2]);
        }
        assert(s.last() == s[s.len() - 1]);
        let q = spec_squash(s);
        assert(q == spec_squash(s.drop_last()).push(s.last()));
        assert forall|i: int| 0 <= i < q.len() implies exists|j: int|
            0 <= j < s.len() && s[j] == #[trigger] q[i] by {
            if i < q.len() - 1 {
                assert(q[i] == spec_squash(s.drop_last())[i]);
                let j = choose|j: int|
                    0 <= j < s.drop_last().len() && s.drop_last()[j] == spec_squash(
                        s.drop_last(),
                    )[i];
                assert(s[j] == q[i]);
            } else {
                assert(s[s.len() - 1] == q[i]);
            }
        }
        assert forall|i: int, j: int|
            0 <= i && j == i + 1 && j < q.len() implies !(#[trigger] q[i] == '-' && #[trigger] q[j]
            == '-') by {
            if j < q.len() - 1 {
                assert(q[i] == spec_squash(s.drop_last())[i]);
                assert(q[j] == spec_squash(s.drop_last())[j]);
            } else {
                assert(q[j] == s.last());
                if q.len() >= 2 {
                    assert(q[i] == spec_squash(s.drop_last()).last());
                }
            }
        }
    }
}

/// A sequence with no adjacent hyphens squashes to itself.
proof fn lemma_squash_id(s: Seq<char>)
    requires
        spec_no_adj(s),
    ensures
        spec_squash(s) == s,
    decreases s.len(),
{
    if s.len() == 0 {
        assert(spec_squash(s) =~= s);
    } else {
        assert(spec_no_adj(s.drop_last())) by {
            assert forall|i: int, j: int|
                0 <= i && j == i + 1 && j < s.drop_last().len() implies !(#[trigger] s.drop_last()[i]
                == '-' && #[trigger] s.drop_last()[j] == '-') by {
                assert(s.drop_last()[i] == s[i]);
                assert(s.drop_last()[j] == s[j]);
            }
        }
        lemma_squash_id(s.drop_last());
        if s.len() >= 2 {
            assert(!(s[s.len() - 2] == '-' && s[s.len() - 1] == '-'));
        }
        assert(spec_squash(s) =~= s);
    }
}

/// Every slug the derivation produces is well-formed.
pub proof fn lemma_slugify_wf(s: Seq<char>)
    ensures
        spec_is_slug(spec_slugify(s)),
{
    let n = spec_norm(s);
    let q = spec_squash(n);
    lemma_squash_shape(n);
    assert(forall|i: int|
        0 <= i < q.len() ==> spec_is_lower_alnum(#[trigger] q[i]) || q[i] == '-') by {
        assert(forall|j: int|
            0 <= j < n.len() ==> spec_is_lower_alnum(#[trigger] n[j]) || n[j] == '-');
    }
    let t = if q.len() > 0 && q.last() == '-' {
        q.drop_last()
    } else {
        q
    };
    let r = if t.len() > 0 && t[0] == '-' {
        t.drop_first()
    } else {
        t
    };
    assert(r == spec_slugify(s));
    assert(forall|i: int| 0 <= i < t.len() ==> t[i] == #[trigger] q[i]);
    let d: int = if t.len() > 0 && t[0] == '-' {
        1
    } else {
        0
    };
    assert(forall|i: int| 0 <= i < r.len() ==> r[i] == #[trigger] t[i + d]);
    assert forall|i: int| 0 <= i < r.len() implies spec_is_lower_alnum(#[trigger] r[i]) || r[i]
        == '-' by {
        assert(r[i] == q[i + d]);
    }
    assert forall|i: int, j: int|
        0 <= i && j == i + 1 && j < r.len() implies !(#[trigger] r[i] == '-' && #[trigger] r[j]
        == '-') by {
        assert(r[i] == q[i + d]);
        assert(r[j] == q[j + d]);
        assert(!(q[i + d] == '-' && q[j + d] == '-'));
    }
    if r.len() > 0 {
        if q.len() > 0 && q.last() == '-' {
            assert(!(q[t.len() - 1] == '-' && q[t.len() as int] == '-'));
            assert(t.last() == q[t.len() - 1]);
        }
        assert(r.last() == t[r.len() - 1 + d]);
        assert(r.last() != '-');
        if d == 1 {
            assert(t.len() >= 2);
            assert(t[1] == q[1]);
            assert(r[0] == t[1]);
            assert(q[0] == '-');
            assert(0 < 1 < q.len());
            assert(!(q[1] == '-' && q[0] == '-'));
        }
        assert(r[0] != '-');
    }
}

/// A well-formed slug is a fixed point of the derivation.
pub proof fn lemma_slugify_fixed(s: Seq<char>)
    requires
        spec_is_slug(s),
    ensures
        spec_slugify(s) == s,
{
    assert(spec_norm(s) =~= s);
    lemma_squash_id(s);
    if s.len() > 0 {
        assert(spec_strip(s) == s);
    } else {
        assert(spec_strip(s) =~= s);
    }
}

/// Deriving a slug is idempotent: slugifying a slug returns it unchanged.
pub proof fn lemma_slugify_idempotent(t: Seq<char>)
    ensures
        spec_slugify(spec_slugify(t)) == spec_slugify(t),
{
    lemma_slugify_wf(t);
    lemma_slugify_fixed(spec_slugify(t));
}

/// Relies on std's `SystemTime`: nanoseconds since the unix epoch, read
/// from the clock; nothing is promised of the value.
#[verifier::external_body]
fn now_nanos() -> u128 {
    std::time::SystemTime::now().duration_since(std::time::UNIX_EPOCH).map(
        |d| d.as_nanos(),
    ).unwrap_or(0)
}

/// Relies on std's `DefaultHasher`: one SipHash evaluation of the input;
/// nothing is promised of the value.
#[verifier::external_body]
fn hash_u128(x: u128) -> u64 {
    let mut h = std::collections::hash_map::DefaultHasher::new();
    std::hash::Hash::hash(&x, &mut h);
    std::hash::Hasher::finish(&h)
}

/// A lower-case hexadecimal digit.
pub open spec fn spec_is_hex_digit(c: char) -> bool {
    ('0' <= c && c <= '9') || ('a' <= c && c <= 'f')
}

/// One lower-case hex digit.
fn hex_char(d: u8) -> (c: char)
    requires
        d < 16,
    ensures
        spec_is_hex_digit(c),
        spec_is_lower_alnum(c),
{
    if d < 10 {
        (48 + d) as char
    } else {
        (87 + d) as char
    }
}

/// Draws a four-character suffix from the clock, used to resolve slug
/// collisions.  Only its shape is promised: four lower-case hex digits.
pub fn generate_random_suffix() -> (r: String)
    ensures
        r@.len() == 4,
        forall|i: int| 0 <= i < 4 ==> spec_is_hex_digit(#[trigger] r@[i]),
        forall|i: int| 0 <= i < 4 ==> spec_is_lower_alnum(#[trigger] r@[i]),
{
    let t = now_nanos();
    let h = hash_u128(t);
    let x: u16 = (h % 65536) as u16;
    let mut out = String::new();
    push_char(&mut out, hex_char(((x / 4096) % 16) as u8));
    push_char(&mut out, hex_char(((x / 256) % 16) as u8));
    push_char(&mut out, hex_char(((x / 16) % 16) as u8));
    push_char(&mut out, hex_char((x % 16) as u8));
    out
}

/// Exec counterpart of `spec_norm_char`.
fn norm_char(c: char) -> (r: char)
    ensures
        r == spec_norm_char(c),
{
    let lc = to_lower_char(c);
    if ('a' <= lc && lc <= 'z') || ('0' <= lc && lc <= '9') {
        lc
    } else {
        '-'
    }
}

/// Derives the slug of a title: lower-cases it, replaces every run of
/// non-alphanumeric characters (spaces included) by a single hyphen, and
/// drops leading and trailing hyphens.
pub fn slugify(title: &str) -> (r: String)
    ensures
        r@ == spec_slugify(title@),
{
    let n = title.unicode_len();
    let mut out = String::new();
    let mut have: bool = false;
    let mut lead: bool = false;
    let mut pending: bool = false;
    let mut i: usize = 0;
    proof {
        assert(spec_norm(title@.take(0)) =~= Seq::<char>::empty());
    }
    while i < n
        invariant
            n == title@.len(),
            i <= n,
            pending ==> out@.len() > 0,
            have == (out@.len() > 0),
            spec_squash(spec_norm(title@.take(i as int))) =~= (if lead {
                seq!['-']
            } else {
                Seq::<char>::empty()
            }) + out@ + (if pending {
                seq!['-']
            } else {
                Seq::<char>::empty()
            }),
            out@.len() > 0 ==> out@[0] != '-',
            out@.len() > 0 ==> out@.last() != '-',
        decreases n - i,
    {
        let ghost prefix = title@.take(i as int);
        let ghost np = spec_norm(prefix);
        let ghost q = spec_squash(np);
        let c = title.get_char(i);
        let nc = norm_char(c);
        proof {
            assert(spec_norm(title@.take(i + 1)) =~= np.push(spec_norm_char(title@[i as int])));
            if np.len() > 0 {
                lemma_squash_last(np);
            }
            assert(np.push(spec_norm_char(title@[i as int])).drop_last() =~= np);
        }
        if nc == '-' {
            if !have {
                lead = true;
            } else {
                pending = true;
            }
        } else {
            if pending {
                push_char(&mut out, '-');
            }
            push_char(&mut out, nc);
            pending = false;
            have = true;
        }
        i = i + 1;
    }
    proof {
        assert(title@.take(n as int) =~= title@);
        let q = spec_squash(spec_norm(title@));
        if pending {
            assert(q.drop_last() =~= (if lead {
                seq!['-']
            } else {
                Seq::<char>::empty()
            }) + out@);
            assert(spec_strip(q) =~= out@);
        } else if lead {
            if out@.len() == 0 {
                assert(q =~= seq!['-']);
                assert(spec_strip(q) =~= out@);
            } else {
                assert(q.last() == out@.last());
                assert(q.last() != '-' ==> spec_strip(q) =~= out@);
                assert(q.last() == '-' ==> spec_strip(q) =~= out@.drop_last() && false);
                assert(spec_strip(q) =~= out@);
            }
        } else {
            assert(q =~= out@);
            if out@.len() > 0 {
                assert(q.last() == out@.last());
            }
            assert(spec_strip(q) =~= out@);
        }
    }
    out
}

} // verus!
