//! Character-level text operations: ASCII case folding, filter-token
//! normalization (lowercase, then drop hyphens and underscores),
//! case-insensitive equality and substring matching, and lexicographic
//! comparison. All operations are defined over `Seq<char>` views and
//! implemented as verified executable functions.

use vstd::prelude::*;

verus! {

/// Case folding maps the ASCII uppercase letters to their lowercase
/// counterparts and leaves every other character unchanged.
pub open spec fn lower_char(c: char) -> char {
    if 'A' <= c && c <= 'Z' {
        ((c as u32) + 32) as char
    } else {
        c
    }
}

/// Case folding of a whole character sequence.
pub open spec fn lower_seq(s: Seq<char>) -> Seq<char> {
    Seq::new(s.len(), |i: int| lower_char(s[i]))
}

/// The characters a filter token is tolerant of: hyphens and underscores.
pub open spec fn is_separator(c: char) -> bool {
    c == '-' || c == '_'
}

/// Canonical form of a filter token: lowercase it, then remove every
/// hyphen and underscore.
pub open spec fn normalize_seq(s: Seq<char>) -> Seq<char>
    decreases s.len(),
{
    if s.len() == 0 {
        Seq::empty()
    } else {
        let rest = normalize_seq(s.drop_last());
        let lc = lower_char(s.last());
        if is_separator(lc) {
            rest
        } else {
            rest.push(lc)
        }
    }
}

/// Two sequences are equal up to case.
pub open spec fn eq_ignore_case(a: Seq<char>, b: Seq<char>) -> bool {
    lower_seq(a) == lower_seq(b)
}

/// `needle` occurs contiguously inside `hay`.
pub open spec fn is_substring(needle: Seq<char>, hay: Seq<char>) -> bool {
    exists|k: int|
        0 <= k && k + needle.len() <= hay.len() && #[trigger] hay.subrange(k, k + needle.len())
            == needle
}

/// `hay` contains `needle` up to case.
pub open spec fn contains_ignore_case(hay: Seq<char>, needle: Seq<char>) -> bool {
    is_substring(lower_seq(needle), lower_seq(hay))
}

/// Lexicographic order by code point, starting the comparison at index `i`.
pub open spec fn lex_leq_from(a: Seq<char>, b: Seq<char>, i: int) -> bool
    decreases a.len() - i,
{
    if i >= a.len() {
        true
    } else if i >= b.len() {
        false
    } else if (a[i] as u32) == (b[i] as u32) {
        lex_leq_from(a, b, i + 1)
    } else {
        (a[i] as u32) < (b[i] as u32)
    }
}

/// Lexicographic order by code point: either `a` is a prefix of `b`, or at
/// the first differing position `a` holds the smaller code point.
pub open spec fn lex_leq(a: Seq<char>, b: Seq<char>) -> bool {
    lex_leq_from(a, b, 0)
}

/// Case folding of a single character.
pub fn lower_char_exec(c: char) -> (r: char)
    ensures
        r == lower_char(c),
{
    let u = c as u32;
    if 65 <= u && u <= 90 {
        ((u + 32) as u8) as char
    } else {
        c
    }
}

/// Canonical form of a filter token, as a vector of characters.
pub fn normalize_str(s: &str) -> (r: Vec<char>)
    ensures
        r@ == normalize_seq(s@),
{
    let n = s.unicode_len();
    let mut r: Vec<char> = Vec::new();
    let mut i: usize = 0;
    while i < n
        invariant
            n == s@.len(),
            i <= n,
            r@ == normalize_seq(s@.subrange(0, i as int)),
        decreases n - i,
    {
        let c = s.get_char(i);
        let lc = lower_char_exec(c);
        if !(lc == '-' || lc == '_') {
            r.push(lc);
        }
        proof {
            let pre = s@.subrange(0, i as int);
            let post = s@.subrange(0, i + 1 as int);
            assert(post.drop_last() =~= pre);
            assert(post.last() == s@[i as int]);
        }
        i += 1;
    }
    proof {
        assert(s@.subrange(0, n as int) =~= s@);
    }
    r
}

/// Whether a vector of characters spells exactly the given string.
pub fn chars_eq_str(v: &Vec<char>, t: &str) -> (r: bool)
    ensures
        r == (v@ == t@),
{
    let n = t.unicode_len();
    if v.len() != n {
        proof {
            assert(v@.len() != t@.len());
        }
        return false;
    }
    let mut i: usize = 0;
    while i < n
        invariant
            n == t@.len(),
            v@.len() == n,
            i <= n,
            forall|j: int| 0 <= j < i ==> v@[j] == t@[j],
        decreases n - i,
    {
        let c = v[i];
        if c != t.get_char(i) {
            proof {
                assert(v@[i as int] != t@[i as int]);
            }
            return false;
        }
        i += 1;
    }
    proof {
        assert(v@ =~= t@);
    }
    true
}

/// Whether two strings are equal up to case.
pub fn str_eq_ignore_case(a: &str, b: &str) -> (r: bool)
    ensures
        r == eq_ignore_case(a@, b@),
{
    let n = a.unicode_len();
    if b.unicode_len() != n {
        proof {
            assert(lower_seq(a@).len() != lower_seq(b@).len());
        }
        return false;
    }
    let mut i: usize = 0;
    while i < n
        invariant
            n == a@.len(),
            b@.len() == n,
            i <= n,
            forall|j: int| 0 <= j < i ==> lower_char(a@[j]) == lower_char(b@[j]),
        decreases n - i,
    {
        if lower_char_exec(a.get_char(i)) != lower_char_exec(b.get_char(i)) {
            proof {
                assert(lower_seq(a@)[i as int] != lower_seq(b@)[i as int]);
            }
            return false;
        }
        i += 1;
    }
    proof {
        assert(lower_seq(a@) =~= lower_seq(b@));
    }
    true
}

/// Whether two strings are equal, character for character.
pub fn str_eq(a: &str, b: &str) -> (r: bool)
    ensures
        r == (a@ == b@),
{
    let n = a.unicode_len();
    if b.unicode_len() != n {
        proof {
            assert(a@.len() != b@.len());
        }
        return false;
    }
    let mut i: usize = 0;
    while i < n
        invariant
            n == a@.len(),
            b@.len() == n,
            i <= n,
            forall|j: int| 0 <= j < i ==> a@[j] == b@[j],
        decreases n - i,
    {
        if a.get_char(i) != b.get_char(i) {
            proof {
                assert(a@[i as int] != b@[i as int]);
            }
            return false;
        }
        i += 1;
    }
    proof {
        assert(a@ =~= b@);
    }
    true
}

/// Whether the case-folded needle occurs in the case-folded hay starting
/// exactly at position `k`.
fn match_at(hay: &str, needle: &str, k: usize) -> (r: bool)
    requires
        k + needle@.len() <= hay@.len(),
        hay@.len() <= usize::MAX as int,
    ensures
        r == (lower_seq(hay@).subrange(k as int, k + needle@.len()) == lower_seq(needle@)),
{
    let n = needle.unicode_len();
    let ghost sub = lower_seq(hay@).subrange(k as int, k + needle@.len());
    let mut j: usize = 0;
    while j < n
        invariant
            n == needle@.len(),
            k + n <= hay@.len(),
            hay@.len() <= usize::MAX as int,
            j <= n,
            sub == lower_seq(hay@).subrange(k as int, k + needle@.len()),
            forall|j2: int| 0 <= j2 < j ==> lower_char(hay@[k + j2]) == lower_char(needle@[j2]),
        decreases n - j,
    {
        if lower_char_exec(hay.get_char(k + j)) != lower_char_exec(needle.get_char(j)) {
            proof {
                assert(sub[j as int] == lower_char(hay@[k + j]));
                assert(lower_seq(needle@)[j as int] == lower_char(needle@[j as int]));
            }
            return false;
        }
        j += 1;
    }
    proof {
        assert forall|j2: int| 0 <= j2 < n implies sub[j2] == lower_seq(needle@)[j2] by {
            assert(lower_char(hay@[k + j2]) == lower_char(needle@[j2]));
        }
        assert(sub =~= lower_seq(needle@));
    }
    true
}

/// Whether `hay` contains `needle` up to case. An empty needle is contained
/// in every string.
pub fn str_contains_ignore_case(hay: &str, needle: &str) -> (r: bool)
    ensures
        r == contains_ignore_case(hay@, needle@),
{
    let h = hay.unicode_len();
    let n = needle.unicode_len();
    if n > h {
        return false;
    }
    if n == 0 {
        proof {
            assert(lower_seq(hay@).subrange(0, 0 + lower_seq(needle@).len() as int) =~= lower_seq(
                needle@,
            ));
            assert(0 <= 0 && 0 + lower_seq(needle@).len() as int <= lower_seq(hay@).len() && lower_seq(
                hay@,
            ).subrange(0, 0 + lower_seq(needle@).len() as int) == lower_seq(needle@));
        }
        return true;
    }
    let mut k: usize = 0;
    while k <= h - n
        invariant
            h == hay@.len(),
            n == needle@.len(),
            1 <= n <= h,
            k <= h - n + 1,
            forall|k2: int|
                0 <= k2 < k ==> #[trigger] lower_seq(hay@).subrange(k2, k2 + needle@.len())
                    != lower_seq(needle@),
        decreases h - k,
    {
        if match_at(hay, needle, k) {
            proof {
                let kk = k as int;
                assert(0 <= kk && kk + lower_seq(needle@).len() <= lower_seq(hay@).len()
                    && lower_seq(hay@).subrange(kk, kk + lower_seq(needle@).len()) == lower_seq(
                    needle@,
                ));
            }
            return true;
        }
        k += 1;
    }
    proof {
        assert forall|kk: int|
            0 <= kk && kk + lower_seq(needle@).len() <= lower_seq(hay@).len() implies #[trigger] lower_seq(
            hay@,
        ).subrange(kk, kk + lower_seq(needle@).len()) != lower_seq(needle@) by {
            assert(kk < k);
            assert(lower_seq(hay@).subrange(kk, kk + needle@.len()) != lower_seq(needle@));
        }
    }
    false
}

/// Whether `a` comes no later than `b` in lexicographic code-point order.
pub fn str_lex_leq(a: &str, b: &str) -> (r: bool)
    ensures
        r == lex_leq(a@, b@),
{
    let alen = a.unicode_len();
    let blen = b.unicode_len();
    let mut i: usize = 0;
    while i < alen && i < blen
        invariant
            alen == a@.len(),
            blen == b@.len(),
            i <= alen,
            i <= blen,
            lex_leq(a@, b@) == lex_leq_from(a@, b@, i as int),
        decreases alen - i,
    {
        let ca = a.get_char(i) as u32;
        let cb = b.get_char(i) as u32;
        if ca != cb {
            return ca < cb;
        }
        i += 1;
    }
    alen <= blen
}

/// Lexicographic order is total: of any two sequences, one comes no later
/// than the other.
pub proof fn lemma_lex_leq_total(a: Seq<char>, b: Seq<char>)
    ensures
        lex_leq(a, b) || lex_leq(b, a),
{
    lemma_lex_leq_from_total(a, b, 0);
}

proof fn lemma_lex_leq_from_total(a: Seq<char>, b: Seq<char>, i: int)
    ensures
        lex_leq_from(a, b, i) || lex_leq_from(b, a, i),
    decreases a.len() - i,
{
    if i >= a.len() || i >= b.len() {
    } else if (a[i] as u32) == (b[i] as u32) {
        lemma_lex_leq_from_total(a, b, i + 1);
    }
}

/// Lexicographic order is transitive.
pub proof fn lemma_lex_leq_trans(a: Seq<char>, b: Seq<char>, c: Seq<char>)
    requires
        lex_leq(a, b),
        lex_leq(b, c),
    ensures
        lex_leq(a, c),
{
    lemma_lex_leq_from_trans(a, b, c, 0);
}

proof fn lemma_lex_leq_from_trans(a: Seq<char>, b: Seq<char>, c: Seq<char>, i: int)
    requires
        lex_leq_from(a, b, i),
        lex_leq_from(b, c, i),
    ensures
        lex_leq_from(a, c, i),
    decreases a.len() - i,
{
    if i >= a.len() {
    } else if i >= b.len() {
    } else if i >= c.len() {
    } else {
        if (a[i] as u32) == (b[i] as u32) && (b[i] as u32) == (c[i] as u32) {
            lemma_lex_leq_from_trans(a, b, c, i + 1);
        }
    }
}

} // verus!
