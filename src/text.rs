//! Whitespace-aware scanning of configuration strings.
use vstd::prelude::*;
use vstd::string::*;

verus! {

/// The characters with the Unicode `White_Space` property.
pub open spec fn is_white(c: char) -> bool {
    let n = c as u32;
    (0x9 <= n <= 0xD) || n == 0x20 || n == 0x85 || n == 0xA0 || n == 0x1680 || (0x2000 <= n
        <= 0x200A) || n == 0x2028 || n == 0x2029 || n == 0x202F || n == 0x205F || n == 0x3000
}

/// The first index at or after `i` that does not hold whitespace (or the length).
pub open spec fn skip_white(s: Seq<char>, i: nat) -> nat
    decreases s.len() - i,
{
    if i < s.len() && is_white(s[i as int]) {
        skip_white(s, i + 1)
    } else {
        i
    }
}

/// The first index at or after `i` that holds whitespace (or the length).
pub open spec fn skip_word(s: Seq<char>, i: nat) -> nat
    decreases s.len() - i,
{
    if i < s.len() && !is_white(s[i as int]) {
        skip_word(s, i + 1)
    } else {
        i
    }
}

/// The end of `s[lo..j]` once trailing whitespace is removed.
pub open spec fn trim_end(s: Seq<char>, lo: nat, j: nat) -> nat
    decreases j,
{
    if lo < j && is_white(s[j - 1]) {
        trim_end(s, lo, (j - 1) as nat)
    } else {
        j
    }
}

/// `s` without leading and trailing whitespace.
pub open spec fn trimmed(s: Seq<char>) -> Seq<char> {
    let a = skip_white(s, 0);
    s.subrange(a as int, trim_end(s, a, s.len()) as int)
}

/// The first whitespace-separated token of `s` (empty when there is none).
pub open spec fn first_token(s: Seq<char>) -> Seq<char> {
    let a = skip_white(s, 0);
    s.subrange(a as int, skip_word(s, a) as int)
}

/// Where the text after the first token starts, past the whitespace that follows it.
pub open spec fn rest_start(s: Seq<char>) -> nat {
    skip_white(s, skip_word(s, skip_white(s, 0)))
}

/// Whether `s` holds a second token.
pub open spec fn has_second_token(s: Seq<char>) -> bool {
    rest_start(s) < s.len()
}

/// Everything after the first token, without surrounding whitespace.
pub open spec fn after_first_token(s: Seq<char>) -> Seq<char> {
    let c = rest_start(s);
    s.subrange(c as int, trim_end(s, c, s.len()) as int)
}

/// The first index at or after `i` that holds `':'` (or the length).
pub open spec fn find_colon(s: Seq<char>, i: nat) -> nat
    decreases s.len() - i,
{
    if i < s.len() && s[i as int] != ':' {
        find_colon(s, i + 1)
    } else {
        i
    }
}

/// Whether `s` holds exactly one `':'`.
pub open spec fn has_single_colon(s: Seq<char>) -> bool {
    let p = find_colon(s, 0);
    p < s.len() && find_colon(s, p + 1) == s.len()
}

proof fn lemma_skip_white_bounds(s: Seq<char>, i: nat)
    requires
        i <= s.len(),
    ensures
        i <= skip_white(s, i) <= s.len(),
        skip_white(s, i) < s.len() ==> !is_white(s[skip_white(s, i) as int]),
    decreases s.len() - i,
{
    if i < s.len() && is_white(s[i as int]) {
        lemma_skip_white_bounds(s, i + 1);
    }
}

proof fn lemma_skip_word_bounds(s: Seq<char>, i: nat)
    requires
        i <= s.len(),
    ensures
        i <= skip_word(s, i) <= s.len(),
    decreases s.len() - i,
{
    if i < s.len() && !is_white(s[i as int]) {
        lemma_skip_word_bounds(s, i + 1);
    }
}

proof fn lemma_trim_end_bounds(s: Seq<char>, lo: nat, j: nat)
    requires
        lo <= j <= s.len(),
    ensures
        lo <= trim_end(s, lo, j) <= j,
    decreases j,
{
    if lo < j && is_white(s[j - 1]) {
        lemma_trim_end_bounds(s, lo, (j - 1) as nat);
    }
}

proof fn lemma_find_colon_bounds(s: Seq<char>, i: nat)
    requires
        i <= s.len(),
    ensures
        i <= find_colon(s, i) <= s.len(),
    decreases s.len() - i,
{
    if i < s.len() && s[i as int] != ':' {
        lemma_find_colon_bounds(s, i + 1);
    }
}

/// Whether `c` has the Unicode `White_Space` property.
pub fn is_white_char(c: char) -> (r: bool)
    ensures
        r == is_white(c),
{
    let n = c as u32;
    (0x9 <= n && n <= 0xD) || n == 0x20 || n == 0x85 || n == 0xA0 || n == 0x1680 || (0x2000 <= n
        && n <= 0x200A) || n == 0x2028 || n == 0x2029 || n == 0x202F || n == 0x205F || n == 0x3000
}

fn skip_white_from(s: &str, len: usize, i: usize) -> (r: usize)
    requires
        len == s@.len(),
        i <= len,
    ensures
        r == skip_white(s@, i as nat),
{
    let mut j: usize = i;
    while j < len && is_white_char(s.get_char(j))
        invariant
            i <= j <= len,
            len == s@.len(),
            skip_white(s@, j as nat) == skip_white(s@, i as nat),
        decreases len - j,
    {
        j = j + 1;
    }
    j
}

fn skip_word_from(s: &str, len: usize, i: usize) -> (r: usize)
    requires
        len == s@.len(),
        i <= len,
    ensures
        r == skip_word(s@, i as nat),
{
    let mut j: usize = i;
    while j < len && !is_white_char(s.get_char(j))
        invariant
            i <= j <= len,
            len == s@.len(),
            skip_word(s@, j as nat) == skip_word(s@, i as nat),
        decreases len - j,
    {
        j = j + 1;
    }
    j
}

fn trim_end_from(s: &str, lo: usize, j: usize) -> (r: usize)
    requires
        lo <= j <= s@.len(),
    ensures
        r == trim_end(s@, lo as nat, j as nat),
{
    let mut k: usize = j;
    while lo < k && is_white_char(s.get_char(k - 1))
        invariant
            lo <= k <= j <= s@.len(),
            trim_end(s@, lo as nat, k as nat) == trim_end(s@, lo as nat, j as nat),
        decreases k,
    {
        k = k - 1;
    }
    k
}

fn find_colon_from(s: &str, len: usize, i: usize) -> (r: usize)
    requires
        len == s@.len(),
        i <= len,
    ensures
        r == find_colon(s@, i as nat),
{
    let mut j: usize = i;
    while j < len && s.get_char(j) != ':'
        invariant
            i <= j <= len,
            len == s@.len(),
            find_colon(s@, j as nat) == find_colon(s@, i as nat),
        decreases len - j,
    {
        j = j + 1;
    }
    j
}

/// A copy of the characters `from..to` of `s`.
fn slice_string(s: &str, from: usize, to: usize) -> (r: String)
    requires
        from <= to <= s@.len(),
    ensures
        r@ == s@.subrange(from as int, to as int),
{
    String::from_str(s.substring_char(from, to))
}

/// `s` without leading and trailing whitespace.
pub fn trim(s: &str) -> (r: String)
    ensures
        r@ == trimmed(s@),
{
    let len = s.unicode_len();
    let a = skip_white_from(s, len, 0);
    proof {
        lemma_skip_white_bounds(s@, 0);
    }
    let b = trim_end_from(s, a, len);
    proof {
        lemma_trim_end_bounds(s@, a as nat, len as nat);
    }
    slice_string(s, a, b)
}

/// The first whitespace-separated token of `s` (empty when there is none).
pub fn first_token_of(s: &str) -> (r: String)
    ensures
        r@ == first_token(s@),
{
    let len = s.unicode_len();
    let a = skip_white_from(s, len, 0);
    proof {
        lemma_skip_white_bounds(s@, 0);
    }
    let b = skip_word_from(s, len, a);
    proof {
        lemma_skip_word_bounds(s@, a as nat);
    }
    slice_string(s, a, b)
}

/// Splits `s` after its first token: whether a second token follows, and the
/// text after the first token without surrounding whitespace.
pub fn split_after_first_token(s: &str) -> (r: (bool, String))
    ensures
        r.0 == has_second_token(s@),
        r.1@ == after_first_token(s@),
{
    let len = s.unicode_len();
    let a = skip_white_from(s, len, 0);
    proof {
        lemma_skip_white_bounds(s@, 0);
    }
    let b = skip_word_from(s, len, a);
    proof {
        lemma_skip_word_bounds(s@, a as nat);
    }
    let c = skip_white_from(s, len, b);
    proof {
        lemma_skip_white_bounds(s@, b as nat);
    }
    let e = trim_end_from(s, c, len);
    proof {
        lemma_trim_end_bounds(s@, c as nat, len as nat);
    }
    (c < len, slice_string(s, c, e))
}

/// When `s` holds exactly one `':'`, the text before it and the text after it.
pub fn split_single_colon(s: &str) -> (r: Option<(String, String)>)
    ensures
        r.is_some() == has_single_colon(s@),
        r.is_some() ==> {
            let p = find_colon(s@, 0) as int;
            &&& r.unwrap().0@ == s@.subrange(0, p)
            &&& r.unwrap().1@ == s@.subrange(p + 1, s@.len() as int)
        },
{
    let len = s.unicode_len();
    let p = find_colon_from(s, len, 0);
    proof {
        lemma_find_colon_bounds(s@, 0);
    }
    if p < len {
        let q = find_colon_from(s, len, p + 1);
        if q == len {
            return Some((slice_string(s, 0, p), slice_string(s, p + 1, len)));
        }
    }
    None
}

/// Whether `a` and `b` hold the same characters.
pub fn same_text(a: &str, b: &str) -> (r: bool)
    ensures
        r == (a@ == b@),
{
    let n = a.unicode_len();
    if n != b.unicode_len() {
        return false;
    }
    let mut i: usize = 0;
    while i < n
        invariant
            n == a@.len() == b@.len(),
            i <= n,
            a@.subrange(0, i as int) == b@.subrange(0, i as int),
        decreases n - i,
    {
        if a.get_char(i) != b.get_char(i) {
            assert(a@[i as int] != b@[i as int]);
            return false;
        }
        assert(a@.subrange(0, i + 1) =~= a@.subrange(0, i as int).push(a@[i as int]));
        assert(b@.subrange(0, i + 1) =~= b@.subrange(0, i as int).push(b@[i as int]));
        i = i + 1;
    }
    assert(a@ =~= a@.subrange(0, n as int));
    assert(b@ =~= b@.subrange(0, n as int));
    true
}

} // verus!
