//! Verified text utilities the providers and the dispatcher rely on:
//! character-wise string equality, ASCII-case-insensitive comparison,
//! lexicographic order on strings (the order forecast dates are sorted by),
//! and extraction of the first whitespace-delimited token (the date part of
//! an upstream timestamp).

use vstd::prelude::*;

verus! {

/// The whitespace characters recognized when splitting a timestamp.
pub open spec fn is_space(c: char) -> bool {
    c == ' ' || c == '\t' || c == '\n' || c == '\r'
}

/// The longest prefix of `s` that holds no whitespace.
pub open spec fn token_prefix(s: Seq<char>) -> Seq<char>
    decreases s.len(),
{
    if s.len() == 0 {
        Seq::empty()
    } else if is_space(s[0]) {
        Seq::empty()
    } else {
        seq![s[0]] + token_prefix(s.drop_first())
    }
}

/// The first whitespace-delimited token of `s`: leading whitespace is
/// skipped, and the empty sequence comes back when `s` holds no token.
pub open spec fn first_token(s: Seq<char>) -> Seq<char>
    decreases s.len(),
{
    if s.len() == 0 {
        Seq::empty()
    } else if is_space(s[0]) {
        first_token(s.drop_first())
    } else {
        token_prefix(s)
    }
}

/// Lexicographic order on character sequences by code point, the order in
/// which forecast dates are sorted. On UTF-8 text this coincides with the
/// byte-wise order of the encoded strings.
pub open spec fn lex_le(a: Seq<char>, b: Seq<char>) -> bool
    decreases a.len(),
{
    if a.len() == 0 {
        true
    } else if b.len() == 0 {
        false
    } else if a[0] != b[0] {
        (a[0] as u32) < (b[0] as u32)
    } else {
        lex_le(a.drop_first(), b.drop_first())
    }
}

/// The code point of `c` with an upper-case ASCII letter folded to its
/// lower-case counterpart.
pub open spec fn lower_code(c: char) -> int {
    if 65 <= c as u32 && c as u32 <= 90 {
        c as u32 + 32
    } else {
        c as int
    }
}

/// Equality up to ASCII letter case: equal lengths and, position by
/// position, equal case-folded code points.
pub open spec fn eq_ignore_ascii_case(a: Seq<char>, b: Seq<char>) -> bool {
    a.len() == b.len() && forall|i: int| 0 <= i < a.len() ==> lower_code(a[i]) == lower_code(b[i])
}

/// `lex_le` is reflexive over equal sequences.
pub proof fn lemma_lex_le_refl(a: Seq<char>, b: Seq<char>)
    requires
        a == b,
    ensures
        lex_le(a, b),
    decreases a.len(),
{
    if a.len() != 0 {
        lemma_lex_le_refl(a.drop_first(), b.drop_first());
    }
}

/// Any two sequences are ordered one way or the other.
pub proof fn lemma_lex_le_total(a: Seq<char>, b: Seq<char>)
    ensures
        lex_le(a, b) || lex_le(b, a),
    decreases a.len(),
{
    if a.len() != 0 && b.len() != 0 {
        if a[0] == b[0] {
            lemma_lex_le_total(a.drop_first(), b.drop_first());
        } else {
            vstd::utf8::char_u32_cast(a[0], a[0] as u32);
            vstd::utf8::char_u32_cast(b[0], b[0] as u32);
        }
    }
}

/// `lex_le` is transitive.
pub proof fn lemma_lex_le_trans(a: Seq<char>, b: Seq<char>, c: Seq<char>)
    requires
        lex_le(a, b),
        lex_le(b, c),
    ensures
        lex_le(a, c),
    decreases a.len(),
{
    if a.len() != 0 && b.len() != 0 && c.len() != 0 {
        if a[0] == b[0] && b[0] == c[0] {
            lemma_lex_le_trans(a.drop_first(), b.drop_first(), c.drop_first());
        }
    }
}

/// Dropping the first element of a suffix moves the suffix start by one.
proof fn lemma_skip_drop_first(s: Seq<char>, i: int)
    requires
        0 <= i < s.len(),
    ensures
        s.skip(i).drop_first() =~= s.skip(i + 1),
{
}

/// Character-wise string equality: true exactly when the views agree.
pub fn str_eq(a: &str, b: &str) -> (r: bool)
    ensures
        r == (a@ == b@),
{
    let la = a.unicode_len();
    let lb = b.unicode_len();
    if la != lb {
        return false;
    }
    let mut i: usize = 0;
    while i < la
        invariant
            la == a@.len(),
            lb == b@.len(),
            la == lb,
            i <= la,
            forall|j: int| 0 <= j < i ==> a@[j] == b@[j],
        decreases la - i,
    {
        if a.get_char(i) != b.get_char(i) {
            return false;
        }
        i = i + 1;
    }
    proof {
        assert(a@ =~= b@);
    }
    true
}

/// String equality up to ASCII letter case.
pub fn str_ieq(a: &str, b: &str) -> (r: bool)
    ensures
        r == eq_ignore_ascii_case(a@, b@),
{
    let la = a.unicode_len();
    let lb = b.unicode_len();
    if la != lb {
        return false;
    }
    let mut i: usize = 0;
    while i < la
        invariant
            la == a@.len(),
            lb == b@.len(),
            la == lb,
            i <= la,
            forall|j: int| 0 <= j < i ==> lower_code(a@[j]) == lower_code(b@[j]),
        decreases la - i,
    {
        let ca = a.get_char(i) as u32;
        let cb = b.get_char(i) as u32;
        let fa = if 65 <= ca && ca <= 90 { ca + 32 } else { ca };
        let fb = if 65 <= cb && cb <= 90 { cb + 32 } else { cb };
        if fa != fb {
            return false;
        }
        i = i + 1;
    }
    true
}

/// Decides `lex_le` on two strings.
pub fn lex_le_str(a: &str, b: &str) -> (r: bool)
    ensures
        r == lex_le(a@, b@),
{
    let la = a.unicode_len();
    let lb = b.unicode_len();
    let mut i: usize = 0;
    proof {
        assert(a@.skip(0) =~= a@);
        assert(b@.skip(0) =~= b@);
    }
    loop
        invariant
            la == a@.len(),
            lb == b@.len(),
            i <= la,
            i <= lb,
            lex_le(a@, b@) == lex_le(a@.skip(i as int), b@.skip(i as int)),
        decreases la - i,
    {
        if i == la {
            return true;
        }
        if i == lb {
            return false;
        }
        let ca = a.get_char(i);
        let cb = b.get_char(i);
        proof {
            assert(a@.skip(i as int)[0] == a@[i as int]);
            assert(b@.skip(i as int)[0] == b@[i as int]);
        }
        if ca != cb {
            return (ca as u32) < (cb as u32);
        }
        proof {
            lemma_skip_drop_first(a@, i as int);
            lemma_skip_drop_first(b@, i as int);
        }
        i = i + 1;
    }
}

/// A prefix of non-whitespace closed off by the end or by whitespace is the
/// token prefix.
proof fn lemma_token_prefix_closed(s: Seq<char>, j: int)
    requires
        0 <= j <= s.len(),
        forall|k: int| 0 <= k < j ==> !is_space(s[k]),
        j == s.len() || is_space(s[j]),
    ensures
        token_prefix(s) =~= s.subrange(0, j),
    decreases j,
{
    if j == 0 {
        assert(token_prefix(s) =~= s.subrange(0, 0));
    } else {
        assert(!is_space(s[0]));
        lemma_token_prefix_closed(s.drop_first(), j - 1);
        assert(token_prefix(s) =~= seq![s[0]] + token_prefix(s.drop_first()));
        assert(s.subrange(0, j) =~= seq![s[0]] + s.drop_first().subrange(0, j - 1));
    }
}

/// Decides `is_space` on a single character.
pub fn is_space_char(c: char) -> (r: bool)
    ensures
        r == is_space(c),
{
    c == ' ' || c == '\t' || c == '\n' || c == '\r'
}

/// Extracts the first whitespace-delimited token of `s`, the way an
/// upstream timestamp's date part stands before its time part. An input of
/// nothing but whitespace yields the empty string.
pub fn first_token_str(s: &str) -> (r: String)
    ensures
        r@ == first_token(s@),
{
    let len = s.unicode_len();
    let mut i: usize = 0;
    proof {
        assert(s@.skip(0) =~= s@);
    }
    while i < len && is_space_char(s.get_char(i))
        invariant
            len == s@.len(),
            i <= len,
            first_token(s@) == first_token(s@.skip(i as int)),
        decreases len - i,
    {
        proof {
            assert(s@.skip(i as int)[0] == s@[i as int]);
            lemma_skip_drop_first(s@, i as int);
        }
        i = i + 1;
    }
    if i == len {
        proof {
            assert(s@.skip(i as int).len() == 0);
            assert(first_token(s@) =~= Seq::<char>::empty());
        }
        return String::new();
    }
    proof {
        assert(s@.skip(i as int)[0] == s@[i as int]);
    }
    let start = i;
    let mut j: usize = start;
    while j < len && !is_space_char(s.get_char(j))
        invariant
            len == s@.len(),
            start <= j <= len,
            start < len,
            !is_space(s@[start as int]),
            forall|k: int| start <= k < j ==> !is_space(s@[k]),
        decreases len - j,
    {
        j = j + 1;
    }
    let tok = s.substring_char(start, j);
    proof {
        let suffix = s@.skip(start as int);
        assert(first_token(s@) == first_token(suffix));
        assert(suffix[0] == s@[start as int]);
        assert(first_token(suffix) == token_prefix(suffix));
        assert(forall|k: int| 0 <= k < j - start ==> suffix[k] == s@[k + start]);
        assert(forall|k: int| 0 <= k < j - start ==> !is_space(suffix[k]));
        if (j as int) < s@.len() {
            assert(is_space(s@[j as int]));
            assert(suffix[j - start] == s@[j as int]);
        }
        lemma_token_prefix_closed(suffix, j - start);
        assert(suffix.subrange(0, j - start) =~= s@.subrange(start as int, j as int));
    }
    tok.to_owned()
}

} // verus!
