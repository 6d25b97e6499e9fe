use vstd::prelude::*;

verus! {

// ---------------------------------------------------------------------------
// Character classes
// ---------------------------------------------------------------------------

/// The whitespace characters stripped from the ends of a query.
pub open spec fn is_space(c: char) -> bool {
    c == ' ' || c == '\t' || c == '\n' || c == '\r'
}

pub fn is_space_char(c: char) -> (r: bool)
    ensures
        r == is_space(c),
{
    c == ' ' || c == '\t' || c == '\n' || c == '\r'
}

/// ASCII decimal digit.
pub open spec fn is_digit(c: char) -> bool {
    '0' <= c && c <= '9'
}

pub fn is_digit_char(c: char) -> (r: bool)
    ensures
        r == is_digit(c),
{
    '0' <= c && c <= '9'
}

/// ASCII upper-case letters fold to lower case; every other character is
/// left as it is, so matching is case-insensitive over the ASCII range.
pub open spec fn lower_char(c: char) -> char {
    if 'A' <= c && c <= 'Z' {
        ((c as u32) + 32) as char
    } else {
        c
    }
}

pub fn to_lower_char(c: char) -> (r: char)
    ensures
        r == lower_char(c),
{
    match c {
        'A' => 'a',
        'B' => 'b',
        'C' => 'c',
        'D' => 'd',
        'E' => 'e',
        'F' => 'f',
        'G' => 'g',
        'H' => 'h',
        'I' => 'i',
        'J' => 'j',
        'K' => 'k',
        'L' => 'l',
        'M' => 'm',
        'N' => 'n',
        'O' => 'o',
        'P' => 'p',
        'Q' => 'q',
        'R' => 'r',
        'S' => 's',
        'T' => 't',
        'U' => 'u',
        'V' => 'v',
        'W' => 'w',
        'X' => 'x',
        'Y' => 'y',
        'Z' => 'z',
        _ => c,
    }
}

/// The whole sequence folded to lower case, character by character.
pub open spec fn lower(s: Seq<char>) -> Seq<char> {
    s.map_values(|c: char| lower_char(c))
}

// ---------------------------------------------------------------------------
// Trimming
// ---------------------------------------------------------------------------

/// How many whitespace characters the sequence starts with.
pub open spec fn leading_spaces(s: Seq<char>) -> int
    decreases s.len(),
{
    if s.len() == 0 {
        0
    } else if is_space(s[0]) {
        1 + leading_spaces(s.drop_first())
    } else {
        0
    }
}

/// How many whitespace characters the sequence ends with.
pub open spec fn trailing_spaces(s: Seq<char>) -> int
    decreases s.len(),
{
    if s.len() == 0 {
        0
    } else if is_space(s.last()) {
        1 + trailing_spaces(s.drop_last())
    } else {
        0
    }
}

pub open spec fn trim_front(s: Seq<char>) -> Seq<char> {
    s.skip(leading_spaces(s))
}

pub open spec fn trim_back(s: Seq<char>) -> Seq<char> {
    s.take(s.len() - trailing_spaces(s))
}

/// The sequence with leading and trailing whitespace removed.
pub open spec fn trimmed(s: Seq<char>) -> Seq<char> {
    trim_back(trim_front(s))
}

pub proof fn lemma_leading_spaces(s: Seq<char>)
    ensures
        0 <= leading_spaces(s) <= s.len(),
        forall|j: int| 0 <= j < leading_spaces(s) ==> is_space(s[j]),
        leading_spaces(s) < s.len() ==> !is_space(s[leading_spaces(s)]),
    decreases s.len(),
{
    if s.len() > 0 && is_space(s[0]) {
        lemma_leading_spaces(s.drop_first());
        assert forall|j: int| 0 <= j < leading_spaces(s) implies is_space(s[j]) by {
            if j > 0 {
                assert(s.drop_first()[j - 1] == s[j]);
            }
        }
    }
}

pub proof fn lemma_trailing_spaces(s: Seq<char>)
    ensures
        0 <= trailing_spaces(s) <= s.len(),
        forall|j: int| s.len() - trailing_spaces(s) <= j < s.len() ==> is_space(s[j]),
        trailing_spaces(s) < s.len() ==> !is_space(s[s.len() - trailing_spaces(s) - 1]),
    decreases s.len(),
{
    if s.len() > 0 && is_space(s.last()) {
        lemma_trailing_spaces(s.drop_last());
        assert forall|j: int| s.len() - trailing_spaces(s) <= j < s.len() implies is_space(
            s[j],
        ) by {
            if j < s.len() - 1 {
                assert(s.drop_last()[j] == s[j]);
            }
        }
    }
}

/// Any cut that strips only whitespace and stops at the first non-space
/// character on each side yields exactly `trimmed(s)`.
pub proof fn lemma_leading_spaces_unique(s: Seq<char>, i: int)
    requires
        0 <= i <= s.len(),
        forall|j: int| 0 <= j < i ==> is_space(s[j]),
        i < s.len() ==> !is_space(s[i]),
    ensures
        i == leading_spaces(s),
{
    lemma_leading_spaces(s);
}

pub proof fn lemma_trailing_spaces_unique(s: Seq<char>, k: int)
    requires
        0 <= k <= s.len(),
        forall|j: int| k <= j < s.len() ==> is_space(s[j]),
        k > 0 ==> !is_space(s[k - 1]),
    ensures
        s.len() - k == trailing_spaces(s),
{
    lemma_trailing_spaces(s);
}

/// Trimming an already-trimmed sequence changes nothing.
pub proof fn lemma_trimmed_idempotent(s: Seq<char>)
    ensures
        trimmed(trimmed(s)) == trimmed(s),
        trimmed(s).len() > 0 ==> !is_space(trimmed(s)[0]),
        trimmed(s).len() > 0 ==> !is_space(trimmed(s).last()),
{
    lemma_leading_spaces(s);
    let f = trim_front(s);
    lemma_trailing_spaces(f);
    let t = trimmed(s);
    if t.len() > 0 {
        assert(t[0] == f[0]);
        assert(!is_space(t[0]));
        assert(t.last() == f[t.len() - 1]);
        assert(!is_space(t.last()));
        lemma_leading_spaces_unique(t, 0);
        lemma_trailing_spaces_unique(t, t.len() as int);
        assert(trimmed(t) =~= t);
    } else {
        lemma_leading_spaces_unique(t, 0);
        lemma_trailing_spaces_unique(t, 0);
        assert(trimmed(t) =~= t);
    }
}

/// Strips leading and trailing whitespace, as the spec-level `trimmed` does.
pub fn trim_str<'a>(s: &'a str) -> (r: &'a str)
    ensures
        r@ == trimmed(s@),
{
    let n = s.unicode_len();
    let mut i: usize = 0;
    while i < n && is_space_char(s.get_char(i))
        invariant
            0 <= i <= n,
            n == s@.len(),
            forall|j: int| 0 <= j < i ==> is_space(s@[j]),
        decreases n - i,
    {
        i = i + 1;
    }
    proof {
        lemma_leading_spaces_unique(s@, i as int);
    }
    let mut k: usize = n;
    while k > i && is_space_char(s.get_char(k - 1))
        invariant
            i <= k <= n,
            n == s@.len(),
            forall|j: int| 0 <= j < i ==> is_space(s@[j]),
            i < n ==> !is_space(s@[i as int]),
            forall|j: int| k <= j < n ==> is_space(s@[j]),
        decreases k,
    {
        k = k - 1;
    }
    proof {
        let f = trim_front(s@);
        assert forall|j: int| k - i <= j < f.len() implies is_space(f[j]) by {
            assert(f[j] == s@[j + i]);
        }
        if k > i {
            assert(f[k - i - 1] == s@[k - 1]);
        }
        lemma_trailing_spaces_unique(f, k - i);
        assert(s@.subrange(i as int, k as int) =~= trimmed(s@));
    }
    s.substring_char(i, k)
}

// ---------------------------------------------------------------------------
// Prefix, suffix, substring search
// ---------------------------------------------------------------------------

/// Whether `p` occurs in `s` starting at index `i`.
pub open spec fn occurs_at(s: Seq<char>, p: Seq<char>, i: int) -> bool {
    0 <= i <= s.len() && p.is_prefix_of(s.skip(i))
}

/// Index of the first occurrence of `p` in `s`, if any.
pub open spec fn find_sub(s: Seq<char>, p: Seq<char>) -> Option<int>
    decreases s.len(),
{
    if p.is_prefix_of(s) {
        Some(0)
    } else if s.len() == 0 {
        None
    } else {
        match find_sub(s.drop_first(), p) {
            Some(i) => Some(i + 1),
            None => None,
        }
    }
}

/// Whether `p` occurs anywhere in `s`.
pub open spec fn contains_sub(s: Seq<char>, p: Seq<char>) -> bool {
    find_sub(s, p) is Some
}

pub proof fn lemma_find_sub(s: Seq<char>, p: Seq<char>)
    ensures
        match find_sub(s, p) {
            Some(i) => occurs_at(s, p, i) && forall|j: int| 0 <= j < i ==> !occurs_at(s, p, j),
            None => forall|j: int| !occurs_at(s, p, j),
        },
    decreases s.len(),
{
    if p.is_prefix_of(s) {
        assert(s.skip(0) =~= s);
    } else if s.len() == 0 {
        assert forall|j: int| !occurs_at(s, p, j) by {
            if 0 <= j <= s.len() {
                assert(s.skip(j) =~= s);
            }
        }
    } else {
        lemma_find_sub(s.drop_first(), p);
        assert forall|j: int| 1 <= j <= s.len() implies s.skip(j) =~= s.drop_first().skip(
            j - 1,
        ) by {}
        match find_sub(s.drop_first(), p) {
            Some(i) => {
                assert(occurs_at(s.drop_first(), p, i));
                assert(s.skip(i + 1) =~= s.drop_first().skip(i));
                assert forall|j: int| 0 <= j < i + 1 implies !occurs_at(s, p, j) by {
                    if j == 0 {
                        assert(s.skip(0) =~= s);
                    } else {
                        assert(s.skip(j) =~= s.drop_first().skip(j - 1));
                        assert(!occurs_at(s.drop_first(), p, j - 1));
                    }
                }
            },
            None => {
                assert forall|j: int| !occurs_at(s, p, j) by {
                    if j == 0 {
                        assert(s.skip(0) =~= s);
                    } else if 1 <= j <= s.len() {
                        assert(s.skip(j) =~= s.drop_first().skip(j - 1));
                        assert(!occurs_at(s.drop_first(), p, j - 1));
                    }
                }
            },
        }
    }
}

/// Whether `p@` occurs in `s@` at character index `i`.
pub fn match_at(s: &str, p: &str, i: usize) -> (r: bool)
    requires
        i <= s@.len(),
    ensures
        r == occurs_at(s@, p@, i as int),
{
    let sn = s.unicode_len();
    let pn = p.unicode_len();
    if pn > sn - i {
        proof {
            assert(s@.skip(i as int).len() < p@.len());
        }
        return false;
    }
    let mut j: usize = 0;
    while j < pn
        invariant
            0 <= j <= pn,
            i + pn <= sn,
            sn == s@.len(),
            pn == p@.len(),
            forall|m: int| 0 <= m < j ==> p@[m] == s@[i + m],
        decreases pn - j,
    {
        if s.get_char(i + j) != p.get_char(j) {
            proof {
                assert(s@.skip(i as int)[j as int] == s@[i + j]);
                assert(!p@.is_prefix_of(s@.skip(i as int)));
            }
            return false;
        }
        j = j + 1;
    }
    proof {
        assert(p@ =~= s@.skip(i as int).subrange(0, p@.len() as int));
    }
    true
}

/// First occurrence of `p@` in `s@`, as `find_sub` gives it.
pub fn find_sub_str(s: &str, p: &str) -> (r: Option<usize>)
    ensures
        match r {
            Some(i) => find_sub(s@, p@) == Some(i as int),
            None => find_sub(s@, p@) is None,
        },
{
    let n = s.unicode_len();
    let mut i: usize = 0;
    while i < n
        invariant
            0 <= i <= n,
            n == s@.len(),
            forall|j: int| 0 <= j < i ==> !occurs_at(s@, p@, j),
        decreases n - i,
    {
        if match_at(s, p, i) {
            proof {
                lemma_find_sub(s@, p@);
            }
            return Some(i);
        }
        i = i + 1;
    }
    proof {
        lemma_find_sub(s@, p@);
    }
    if match_at(s, p, n) {
        Some(n)
    } else {
        None
    }
}

/// Whether `p@` occurs anywhere in `s@`.
pub fn contains_sub_str(s: &str, p: &str) -> (r: bool)
    ensures
        r == contains_sub(s@, p@),
{
    find_sub_str(s, p).is_some()
}

/// Whether `s@` starts with `p@`.
pub fn starts_with_str(s: &str, p: &str) -> (r: bool)
    ensures
        r == p@.is_prefix_of(s@),
{
    proof {
        assert(s@.skip(0) =~= s@);
    }
    match_at(s, p, 0)
}

/// Whether `s@` ends with `p@`.
pub fn ends_with_str(s: &str, p: &str) -> (r: bool)
    ensures
        r == p@.is_suffix_of(s@),
{
    let sn = s.unicode_len();
    let pn = p.unicode_len();
    if pn > sn {
        return false;
    }
    let r = match_at(s, p, sn - pn);
    proof {
        if r {
            assert(p@.is_prefix_of(s@.skip(sn - pn)));
            assert(p@ =~= s@.skip(sn - pn).subrange(0, pn as int));
            assert(p@ =~= s@.subrange(sn - pn, sn as int));
        } else {
            if p@.is_suffix_of(s@) {
                assert(p@ =~= s@.subrange(sn - pn, sn as int));
                assert(p@ =~= s@.skip(sn - pn).subrange(0, pn as int));
                assert(p@.is_prefix_of(s@.skip(sn - pn)));
            }
        }
    }
    r
}

// ---------------------------------------------------------------------------
// Building strings
// ---------------------------------------------------------------------------

/// Relies on `String::push` of std: appends exactly one character.
#[verifier::external_body]
pub(crate) fn push_char_str(s: &mut String, c: char)
    ensures
        final(s)@ == old(s)@.push(c),
{
    s.push(c);
}

/// The string folded to lower case, as the spec-level `lower` gives it.
pub fn to_lower_str(s: &str) -> (r: String)
    ensures
        r@ == lower(s@),
{
    let n = s.unicode_len();
    let mut out = String::new();
    let mut i: usize = 0;
    while i < n
        invariant
            0 <= i <= n,
            n == s@.len(),
            out@ == lower(s@.take(i as int)),
        decreases n - i,
    {
        let c = to_lower_char(s.get_char(i));
        push_char_str(&mut out, c);
        proof {
            assert(lower(s@.take(i + 1)) =~= lower(s@.take(i as int)).push(lower_char(s@[i as int])));
        }
        i = i + 1;
    }
    proof {
        assert(s@.take(n as int) =~= s@);
    }
    out
}

/// The tail of `s` from character index `i` on.
pub fn skip_str<'a>(s: &'a str, i: usize) -> (r: &'a str)
    requires
        i <= s@.len(),
    ensures
        r@ == s@.skip(i as int),
{
    let n = s.unicode_len();
    let r = s.substring_char(i, n);
    proof {
        assert(r@ =~= s@.skip(i as int));
    }
    r
}

} // verus!
