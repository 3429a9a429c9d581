//! Verified string utilities: whitespace classification, word splitting,
//! equality and prefix tests, and decimal rendering. Everything here is
//! executable code proved against spec functions over `Seq<char>`.

use vstd::prelude::*;

verus! {

/// A character with the Unicode `White_Space` property, the class that word
/// splitting breaks on.
pub open spec fn is_ws_char(c: char) -> bool {
    let u = c as u32;
    u == 0x20 || (0x09 <= u && u <= 0x0D) || u == 0x85 || u == 0xA0 || u == 0x1680 || (0x2000
        <= u && u <= 0x200A) || u == 0x2028 || u == 0x2029 || u == 0x202F || u == 0x205F || u
        == 0x3000
}

/// Decides [`is_ws_char`].
pub fn is_space(c: char) -> (r: bool)
    ensures
        r == is_ws_char(c),
{
    let u = c as u32;
    u == 0x20 || (0x09 <= u && u <= 0x0D) || u == 0x85 || u == 0xA0 || u == 0x1680 || (0x2000
        <= u && u <= 0x200A) || u == 0x2028 || u == 0x2029 || u == 0x202F || u == 0x205F || u
        == 0x3000
}

/// The whitespace-separated words of `s`, in order, each word a maximal run
/// of non-whitespace characters. Defined by recursion on the last character:
/// whitespace closes the current word, a word character extends it when the
/// character before it was also a word character, and opens a new word
/// otherwise.
pub open spec fn words_of(s: Seq<char>) -> Seq<Seq<char>>
    decreases s.len(),
{
    if s.len() == 0 {
        Seq::empty()
    } else {
        let prev = words_of(s.drop_last());
        let c = s.last();
        if is_ws_char(c) {
            prev
        } else if s.len() >= 2 && !is_ws_char(s[s.len() - 2]) {
            prev.update(prev.len() - 1, prev.last().push(c))
        } else {
            prev.push(seq![c])
        }
    }
}

/// Extending a word by one non-whitespace run: if `s[start .. j)` is a
/// maximal-so-far run of word characters beginning at a word boundary, the
/// words of `s.take(j)` are the words of `s.take(start)` plus that run.
proof fn lemma_words_extend(s: Seq<char>, start: int, j: int)
    requires
        0 <= start < j <= s.len(),
        start == 0 || is_ws_char(s[start - 1]),
        forall|m: int| start <= m < j ==> !is_ws_char(s[m]),
    ensures
        words_of(s.take(j)) == words_of(s.take(start)).push(s.subrange(start, j)),
    decreases j - start,
{
    if j == start + 1 {
        assert(s.take(j).drop_last() =~= s.take(start));
        assert(s.subrange(start, j) =~= seq![s[start]]);
    } else {
        lemma_words_extend(s, start, j - 1);
        assert(s.take(j).drop_last() =~= s.take(j - 1));
        let base = words_of(s.take(start));
        let prev = words_of(s.take(j - 1));
        assert(prev.last() =~= s.subrange(start, j - 1));
        assert(prev.last().push(s[j - 1]) =~= s.subrange(start, j));
        assert(prev.update(prev.len() - 1, s.subrange(start, j)) =~= base.push(
            s.subrange(start, j),
        ));
    }
}

/// Splits `text` on whitespace into its words, exactly [`words_of`].
pub fn split_words(text: &str) -> (words: Vec<String>)
    ensures
        words.deep_view() == words_of(text@),
{
    let n = text.unicode_len();
    let mut words: Vec<String> = Vec::new();
    let mut i: usize = 0;
    while i < n
        invariant
            n as int == text@.len(),
            i <= n,
            words.deep_view() == words_of(text@.take(i as int)),
            i < n ==> (i == 0 || is_ws_char(text@[i as int - 1]) || is_ws_char(
                text@[i as int],
            )),
        decreases n - i,
    {
        let c = text.get_char(i);
        if is_space(c) {
            proof {
                assert(text@.take(i as int + 1).drop_last() =~= text@.take(i as int));
            }
            i = i + 1;
        } else {
            let start = i;
            let mut j: usize = i + 1;
            loop
                invariant
                    n as int == text@.len(),
                    start < j <= n,
                    forall|m: int| start <= m < j ==> !is_ws_char(text@[m]),
                ensures
                    start < j <= n,
                    forall|m: int| start <= m < j ==> !is_ws_char(text@[m]),
                    j == n || is_ws_char(text@[j as int]),
                decreases n - j,
            {
                if j == n {
                    break ;
                }
                let cj = text.get_char(j);
                if is_space(cj) {
                    break ;
                }
                j = j + 1;
            }
            let w = text.substring_char(start, j).to_owned();
            let ghost old_words = words.deep_view();
            words.push(w);
            proof {
                lemma_words_extend(text@, start as int, j as int);
                assert(words.deep_view() =~= old_words.push(text@.subrange(
                    start as int,
                    j as int,
                )));
            }
            i = j;
        }
    }
    proof {
        assert(text@.take(n as int) =~= text@);
    }
    words
}

/// Character-wise string equality: true exactly when the views agree.
pub fn str_eq(a: &str, b: &str) -> (r: bool)
    ensures
        r == (a@ == b@),
{
    let na = a.unicode_len();
    let nb = b.unicode_len();
    if na != nb {
        return false;
    }
    let mut i: usize = 0;
    while i < na
        invariant
            a@.len() == na as int,
            b@.len() == na as int,
            i <= na,
            forall|k: int| 0 <= k < i as int ==> a@[k] == b@[k],
        decreases na - i,
    {
        if a.get_char(i) != b.get_char(i) {
            return false;
        }
        i = i + 1;
    }
    proof {
        assert(a@ =~= b@);
    }
    true
}

/// `p` is a prefix of `s`.
pub open spec fn has_prefix(s: Seq<char>, p: Seq<char>) -> bool {
    p.len() <= s.len() && s.take(p.len() as int) == p
}

/// Decides [`has_prefix`].
pub fn str_starts_with(s: &str, p: &str) -> (r: bool)
    ensures
        r == has_prefix(s@, p@),
{
    let np = p.unicode_len();
    let ns = s.unicode_len();
    if np > ns {
        return false;
    }
    let mut i: usize = 0;
    while i < np
        invariant
            s@.len() == ns as int,
            p@.len() == np as int,
            np <= ns,
            i <= np,
            forall|k: int| 0 <= k < i as int ==> s@[k] == p@[k],
        decreases np - i,
    {
        if s.get_char(i) != p.get_char(i) {
            proof {
                assert(s@.take(np as int)[i as int] != p@[i as int]);
            }
            return false;
        }
        i = i + 1;
    }
    proof {
        assert(s@.take(np as int) =~= p@);
    }
    true
}

/// `p` occurs in `s` at position `i`.
pub open spec fn match_at(s: Seq<char>, p: Seq<char>, i: int) -> bool {
    0 <= i && i + p.len() <= s.len() && s.subrange(i, i + p.len()) == p
}

/// The first position at or after `i` where `p` occurs in `s`.
pub open spec fn first_match_from(s: Seq<char>, p: Seq<char>, i: int) -> Option<int>
    decreases s.len() + 1 - i,
{
    if i < 0 || i + p.len() > s.len() {
        None
    } else if match_at(s, p, i) {
        Some(i)
    } else {
        first_match_from(s, p, i + 1)
    }
}

/// The first position where `p` occurs in `s`.
pub open spec fn find_sub(s: Seq<char>, p: Seq<char>) -> Option<int> {
    first_match_from(s, p, 0)
}

/// Whether `p` occurs in `s` at position `i` (exec).
fn matches_at(s: &str, p: &str, i: usize) -> (r: bool)
    requires
        i + p@.len() <= s@.len(),
        s@.len() <= usize::MAX as int,
    ensures
        r == match_at(s@, p@, i as int),
{
    let np = p.unicode_len();
    let mut k: usize = 0;
    while k < np
        invariant
            np as int == p@.len(),
            i + np <= s@.len(),
            s@.len() <= usize::MAX as int,
            k <= np,
            forall|m: int| 0 <= m < k as int ==> s@[i as int + m] == p@[m],
        decreases np - k,
    {
        if s.get_char(i + k) != p.get_char(k) {
            proof {
                assert(s@.subrange(i as int, i as int + np as int)[k as int] != p@[k as int]);
            }
            return false;
        }
        k = k + 1;
    }
    proof {
        assert(s@.subrange(i as int, i as int + np as int) =~= p@);
    }
    true
}

/// Finds the first occurrence of `p` in `s`, exactly [`find_sub`].
pub fn str_find(s: &str, p: &str) -> (r: Option<usize>)
    ensures
        r is Some <==> find_sub(s@, p@) is Some,
        r matches Some(i) ==> find_sub(s@, p@) == Some(i as int) && match_at(s@, p@, i as int),
{
    let n = s.unicode_len();
    let np = p.unicode_len();
    if np > n {
        return None;
    }
    let mut i: usize = 0;
    loop
        invariant
            n as int == s@.len(),
            np as int == p@.len(),
            np <= n,
            i + np <= n,
            find_sub(s@, p@) == first_match_from(s@, p@, i as int),
        ensures
            i + np <= n && find_sub(s@, p@) == Some(i as int) && match_at(s@, p@, i as int),
        decreases n - i,
    {
        if matches_at(s, p, i) {
            proof {
                assert(first_match_from(s@, p@, i as int) == Some(i as int));
            }
            break ;
        }
        if i + np == n {
            proof {
                assert(first_match_from(s@, p@, i as int + 1) is None);
            }
            return None;
        }
        i = i + 1;
    }
    Some(i)
}

/// `p` is a suffix of `s`.
pub open spec fn has_suffix(s: Seq<char>, p: Seq<char>) -> bool {
    p.len() <= s.len() && s.skip(s.len() - p.len()) == p
}

/// Decides [`has_suffix`].
pub fn str_ends_with(s: &str, p: &str) -> (r: bool)
    ensures
        r == has_suffix(s@, p@),
{
    let n = s.unicode_len();
    let np = p.unicode_len();
    if np > n {
        return false;
    }
    let r = matches_at(s, p, n - np);
    proof {
        assert(s@.subrange(n as int - np as int, n as int) =~= s@.skip(n as int - np as int));
    }
    r
}

/// The decimal digit character for `d` in `0 ..= 9`.
pub open spec fn dec_digit(d: int) -> char {
    if d == 0 {
        '0'
    } else if d == 1 {
        '1'
    } else if d == 2 {
        '2'
    } else if d == 3 {
        '3'
    } else if d == 4 {
        '4'
    } else if d == 5 {
        '5'
    } else if d == 6 {
        '6'
    } else if d == 7 {
        '7'
    } else if d == 8 {
        '8'
    } else {
        '9'
    }
}

/// The usual decimal rendering of a non-negative integer, no leading zeros.
pub open spec fn dec_str(n: int) -> Seq<char>
    decreases n,
{
    if n < 10 {
        seq![dec_digit(n)]
    } else {
        dec_str(n / 10).push(dec_digit(n % 10))
    }
}

fn digit_str(d: usize) -> (r: &'static str)
    requires
        d < 10,
    ensures
        r@ == seq![dec_digit(d as int)],
{
    proof {
        reveal_strlit("0");
        reveal_strlit("1");
        reveal_strlit("2");
        reveal_strlit("3");
        reveal_strlit("4");
        reveal_strlit("5");
        reveal_strlit("6");
        reveal_strlit("7");
        reveal_strlit("8");
        reveal_strlit("9");
    }
    let r: &'static str = if d == 0 {
        "0"
    } else if d == 1 {
        "1"
    } else if d == 2 {
        "2"
    } else if d == 3 {
        "3"
    } else if d == 4 {
        "4"
    } else if d == 5 {
        "5"
    } else if d == 6 {
        "6"
    } else if d == 7 {
        "7"
    } else if d == 8 {
        "8"
    } else {
        "9"
    };
    proof {
        assert(r@ =~= seq![dec_digit(d as int)]);
    }
    r
}

/// Renders `n` in decimal, exactly [`dec_str`].
pub fn usize_to_string(n: usize) -> (s: String)
    ensures
        s@ == dec_str(n as int),
    decreases n,
{
    if n < 10 {
        String::from_str(digit_str(n))
    } else {
        let mut s = usize_to_string(n / 10);
        s.append(digit_str(n % 10));
        proof {
            assert(s@ =~= dec_str(n as int));
        }
        s
    }
}

/// `s` without its leading whitespace.
pub open spec fn trim_front(s: Seq<char>) -> Seq<char>
    decreases s.len(),
{
    if s.len() > 0 && is_ws_char(s[0]) {
        trim_front(s.drop_first())
    } else {
        s
    }
}

/// `s` without its trailing whitespace.
pub open spec fn trim_back(s: Seq<char>) -> Seq<char>
    decreases s.len(),
{
    if s.len() > 0 && is_ws_char(s.last()) {
        trim_back(s.drop_last())
    } else {
        s
    }
}

/// `s` without leading and trailing whitespace.
pub open spec fn trim_ws(s: Seq<char>) -> Seq<char> {
    trim_back(trim_front(s))
}

proof fn lemma_trim_front_skip(s: Seq<char>, a: int)
    requires
        0 <= a <= s.len(),
        forall|m: int| 0 <= m < a ==> is_ws_char(s[m]),
        a < s.len() ==> !is_ws_char(s[a]),
    ensures
        trim_front(s) == s.skip(a),
    decreases a,
{
    if a == 0 {
        assert(s.skip(0) =~= s);
    } else {
        lemma_trim_front_skip(s.drop_first(), a - 1);
        assert(s.drop_first().skip(a - 1) =~= s.skip(a));
    }
}

proof fn lemma_trim_back_take(s: Seq<char>, b: int)
    requires
        0 <= b <= s.len(),
        forall|m: int| b <= m < s.len() ==> is_ws_char(s[m]),
        b > 0 ==> !is_ws_char(s[b - 1]),
    ensures
        trim_back(s) == s.take(b),
    decreases s.len() - b,
{
    if b == s.len() {
        assert(s.take(b) =~= s);
    } else {
        lemma_trim_back_take(s.drop_last(), b);
        assert(s.drop_last().take(b) =~= s.take(b));
    }
}

/// Removes leading and trailing whitespace, exactly [`trim_ws`].
pub fn str_trim(s: &str) -> (r: String)
    ensures
        r@ == trim_ws(s@),
{
    let n = s.unicode_len();
    let mut a: usize = 0;
    loop
        invariant
            n as int == s@.len(),
            a <= n,
            forall|m: int| 0 <= m < a as int ==> is_ws_char(s@[m]),
        ensures
            a <= n,
            forall|m: int| 0 <= m < a as int ==> is_ws_char(s@[m]),
            a < n ==> !is_ws_char(s@[a as int]),
        decreases n - a,
    {
        if a == n {
            break ;
        }
        if !is_space(s.get_char(a)) {
            break ;
        }
        a = a + 1;
    }
    proof {
        lemma_trim_front_skip(s@, a as int);
    }
    if a == n {
        proof {
            assert(s@.skip(a as int) =~= Seq::<char>::empty());
        }
        return String::new();
    }
    let mut b: usize = n;
    loop
        invariant
            n as int == s@.len(),
            a < b <= n,
            forall|m: int| b as int <= m < n as int ==> is_ws_char(s@[m]),
            a < n && !is_ws_char(s@[a as int]),
        ensures
            a < b <= n,
            forall|m: int| b as int <= m < n as int ==> is_ws_char(s@[m]),
            !is_ws_char(s@[b as int - 1]),
        decreases b,
    {
        if !is_space(s.get_char(b - 1)) {
            break ;
        }
        b = b - 1;
    }
    let r = s.substring_char(a, b).to_owned();
    proof {
        let t = s@.skip(a as int);
        lemma_trim_back_take(t, b as int - a as int);
        assert(t.take(b as int - a as int) =~= s@.subrange(a as int, b as int));
    }
    r
}

/// Removes trailing whitespace, exactly [`trim_back`].
pub fn str_trim_end(s: &str) -> (r: String)
    ensures
        r@ == trim_back(s@),
{
    let n = s.unicode_len();
    let mut b: usize = n;
    loop
        invariant
            n as int == s@.len(),
            b <= n,
            forall|m: int| b as int <= m < n as int ==> is_ws_char(s@[m]),
        ensures
            b <= n,
            forall|m: int| b as int <= m < n as int ==> is_ws_char(s@[m]),
            b > 0 ==> !is_ws_char(s@[b as int - 1]),
        decreases b,
    {
        if b == 0 {
            break ;
        }
        if !is_space(s.get_char(b - 1)) {
            break ;
        }
        b = b - 1;
    }
    proof {
        lemma_trim_back_take(s@, b as int);
        assert(s@.take(b as int) =~= s@.subrange(0, b as int));
    }
    s.substring_char(0, b).to_owned()
}

/// `s` without leading occurrences of the character `c`.
pub open spec fn trim_char_front(s: Seq<char>, c: char) -> Seq<char>
    decreases s.len(),
{
    if s.len() > 0 && s[0] == c {
        trim_char_front(s.drop_first(), c)
    } else {
        s
    }
}

/// `s` without trailing occurrences of the character `c`.
pub open spec fn trim_char_back(s: Seq<char>, c: char) -> Seq<char>
    decreases s.len(),
{
    if s.len() > 0 && s.last() == c {
        trim_char_back(s.drop_last(), c)
    } else {
        s
    }
}

/// `s` without leading and trailing occurrences of `c`.
pub open spec fn trim_char(s: Seq<char>, c: char) -> Seq<char> {
    trim_char_back(trim_char_front(s, c), c)
}

proof fn lemma_trim_char_front_skip(s: Seq<char>, c: char, a: int)
    requires
        0 <= a <= s.len(),
        forall|m: int| 0 <= m < a ==> s[m] == c,
        a < s.len() ==> s[a] != c,
    ensures
        trim_char_front(s, c) == s.skip(a),
    decreases a,
{
    if a == 0 {
        assert(s.skip(0) =~= s);
    } else {
        lemma_trim_char_front_skip(s.drop_first(), c, a - 1);
        assert(s.drop_first().skip(a - 1) =~= s.skip(a));
    }
}

proof fn lemma_trim_char_back_take(s: Seq<char>, c: char, b: int)
    requires
        0 <= b <= s.len(),
        forall|m: int| b <= m < s.len() ==> s[m] == c,
        b > 0 ==> s[b - 1] != c,
    ensures
        trim_char_back(s, c) == s.take(b),
    decreases s.len() - b,
{
    if b == s.len() {
        assert(s.take(b) =~= s);
    } else {
        lemma_trim_char_back_take(s.drop_last(), c, b);
        assert(s.drop_last().take(b) =~= s.take(b));
    }
}

/// Removes leading and trailing occurrences of `c`, exactly [`trim_char`].
pub fn str_trim_char(s: &str, c: char) -> (r: String)
    ensures
        r@ == trim_char(s@, c),
{
    let n = s.unicode_len();
    let mut a: usize = 0;
    loop
        invariant
            n as int == s@.len(),
            a <= n,
            forall|m: int| 0 <= m < a as int ==> s@[m] == c,
        ensures
            a <= n,
            forall|m: int| 0 <= m < a as int ==> s@[m] == c,
            a < n ==> s@[a as int] != c,
        decreases n - a,
    {
        if a == n {
            break ;
        }
        if s.get_char(a) != c {
            break ;
        }
        a = a + 1;
    }
    proof {
        lemma_trim_char_front_skip(s@, c, a as int);
    }
    if a == n {
        proof {
            assert(s@.skip(a as int) =~= Seq::<char>::empty());
        }
        return String::new();
    }
    let mut b: usize = n;
    loop
        invariant
            n as int == s@.len(),
            a < b <= n,
            forall|m: int| b as int <= m < n as int ==> s@[m] == c,
            a < n && s@[a as int] != c,
        ensures
            a < b <= n,
            forall|m: int| b as int <= m < n as int ==> s@[m] == c,
            s@[b as int - 1] != c,
        decreases b,
    {
        if s.get_char(b - 1) != c {
            break ;
        }
        b = b - 1;
    }
    let r = s.substring_char(a, b).to_owned();
    proof {
        let t = s@.skip(a as int);
        lemma_trim_char_back_take(t, c, b as int - a as int);
        assert(t.take(b as int - a as int) =~= s@.subrange(a as int, b as int));
    }
    r
}

/// Removes leading occurrences of `c`, exactly [`trim_char_front`].
pub fn str_trim_char_start(s: &str, c: char) -> (r: String)
    ensures
        r@ == trim_char_front(s@, c),
{
    let n = s.unicode_len();
    let mut a: usize = 0;
    loop
        invariant
            n as int == s@.len(),
            a <= n,
            forall|m: int| 0 <= m < a as int ==> s@[m] == c,
        ensures
            a <= n,
            forall|m: int| 0 <= m < a as int ==> s@[m] == c,
            a < n ==> s@[a as int] != c,
        decreases n - a,
    {
        if a == n {
            break ;
        }
        if s.get_char(a) != c {
            break ;
        }
        a = a + 1;
    }
    proof {
        lemma_trim_char_front_skip(s@, c, a as int);
        assert(s@.skip(a as int) =~= s@.subrange(a as int, n as int));
    }
    s.substring_char(a, n).to_owned()
}

/// Removes trailing occurrences of `c`, exactly [`trim_char_back`].
pub fn str_trim_char_end(s: &str, c: char) -> (r: String)
    ensures
        r@ == trim_char_back(s@, c),
{
    let n = s.unicode_len();
    let mut b: usize = n;
    loop
        invariant
            n as int == s@.len(),
            b <= n,
            forall|m: int| b as int <= m < n as int ==> s@[m] == c,
        ensures
            b <= n,
            forall|m: int| b as int <= m < n as int ==> s@[m] == c,
            b > 0 ==> s@[b as int - 1] != c,
        decreases b,
    {
        if b == 0 {
            break ;
        }
        if s.get_char(b - 1) != c {
            break ;
        }
        b = b - 1;
    }
    proof {
        lemma_trim_char_back_take(s@, c, b as int);
        assert(s@.take(b as int) =~= s@.subrange(0, b as int));
    }
    s.substring_char(0, b).to_owned()
}

/// `s` without every repetition of the prefix `p` (for non-empty `p`).
pub open spec fn strip_prefix_all(s: Seq<char>, p: Seq<char>) -> Seq<char>
    decreases s.len(),
{
    if p.len() > 0 && has_prefix(s, p) {
        strip_prefix_all(s.skip(p.len() as int), p)
    } else {
        s
    }
}

/// Whether `p` occurs in `s` at position `i`.
fn str_has_prefix_at(s: &str, i: usize, p: &str) -> (r: bool)
    requires
        i <= s@.len(),
    ensures
        r == has_prefix(s@.skip(i as int), p@),
{
    let n = s.unicode_len();
    let np = p.unicode_len();
    if np > n - i {
        return false;
    }
    let mut k: usize = 0;
    while k < np
        invariant
            n as int == s@.len(),
            np as int == p@.len(),
            i + np <= n,
            k <= np,
            forall|m: int| 0 <= m < k as int ==> s@[i as int + m] == p@[m],
        decreases np - k,
    {
        if s.get_char(i + k) != p.get_char(k) {
            proof {
                assert(s@.skip(i as int).take(np as int)[k as int] != p@[k as int]);
            }
            return false;
        }
        k = k + 1;
    }
    proof {
        assert(s@.skip(i as int).take(np as int) =~= p@);
    }
    true
}

/// Removes every leading repetition of `p`, exactly [`strip_prefix_all`].
pub fn str_strip_prefix_all(s: &str, p: &str) -> (r: String)
    requires
        p@.len() > 0,
    ensures
        r@ == strip_prefix_all(s@, p@),
{
    let n = s.unicode_len();
    let np = p.unicode_len();
    let mut i: usize = 0;
    proof {
        assert(s@.skip(0) =~= s@);
    }
    loop
        invariant
            n as int == s@.len(),
            np as int == p@.len(),
            np >= 1,
            i <= n,
            strip_prefix_all(s@, p@) == strip_prefix_all(s@.skip(i as int), p@),
        ensures
            i <= n,
            strip_prefix_all(s@, p@) == s@.skip(i as int),
        decreases n - i,
    {
        if !str_has_prefix_at(s, i, p) {
            break ;
        }
        proof {
            assert(s@.skip(i as int).skip(np as int) =~= s@.skip(i as int + np as int));
        }
        i = i + np;
    }
    s.substring_char(i, n).to_owned()
}

/// `s` with every occurrence of `from` replaced by `to`.
pub open spec fn replace_char(s: Seq<char>, from: char, to: char) -> Seq<char> {
    s.map_values(
        |c: char|
            if c == from {
                to
            } else {
                c
            },
    )
}

/// Replaces every `-` with `.`, exactly `replace_char(s@, '-', '.')`.
pub fn str_replace_dash_with_dot(s: &str) -> (r: String)
    ensures
        r@ == replace_char(s@, '-', '.'),
{
    let n = s.unicode_len();
    let mut out = String::new();
    let mut i: usize = 0;
    proof {
        reveal_strlit(".");
        assert(out@ =~= replace_char(s@.take(0), '-', '.'));
    }
    while i < n
        invariant
            n as int == s@.len(),
            i <= n,
            out@ == replace_char(s@.take(i as int), '-', '.'),
        decreases n - i,
    {
        if s.get_char(i) == '-' {
            out.append(".");
            proof {
                reveal_strlit(".");
                assert(out@ =~= replace_char(s@.take(i as int + 1), '-', '.'));
            }
            i = i + 1;
        } else {
            let start = i;
            let mut j: usize = i + 1;
            loop
                invariant
                    n as int == s@.len(),
                    start < j <= n,
                    forall|m: int| start <= m < j ==> s@[m] != '-',
                ensures
                    start < j <= n,
                    forall|m: int| start <= m < j ==> s@[m] != '-',
                decreases n - j,
            {
                if j == n {
                    break ;
                }
                if s.get_char(j) == '-' {
                    break ;
                }
                j = j + 1;
            }
            out.append(s.substring_char(start, j));
            proof {
                assert(out@ =~= replace_char(s@.take(j as int), '-', '.'));
            }
            i = j;
        }
    }
    proof {
        assert(s@.take(n as int) =~= s@);
    }
    out
}

/// The lines split off `s` at `'\n'` terminators, before carriage-return
/// stripping and before the trailing cut: one piece per `'\n'`-free run,
/// always at least one piece.
pub open spec fn split_lines_raw(s: Seq<char>) -> Seq<Seq<char>>
    decreases s.len(),
{
    if s.len() == 0 {
        seq![Seq::empty()]
    } else {
        let prev = split_lines_raw(s.drop_last());
        if s.last() == '\n' {
            prev.push(Seq::empty())
        } else {
            prev.update(prev.len() - 1, prev.last().push(s.last()))
        }
    }
}

/// A raw split always has at least one piece.
pub proof fn lemma_split_lines_raw_len(s: Seq<char>)
    ensures
        split_lines_raw(s).len() >= 1,
    decreases s.len(),
{
    if s.len() == 0 {
    } else {
        lemma_split_lines_raw_len(s.drop_last());
    }
}

/// A line with its terminating carriage return removed.
pub open spec fn strip_cr(l: Seq<char>) -> Seq<char> {
    if l.len() > 0 && l.last() == '\r' {
        l.drop_last()
    } else {
        l
    }
}

/// The lines of `s`: split at `'\n'`, each line stripped of a terminating
/// carriage return, with no final empty line when `s` ends in a terminator
/// (and no lines at all for an empty `s`).
pub open spec fn lines_of(s: Seq<char>) -> Seq<Seq<char>> {
    let raw = split_lines_raw(s);
    let cut = if raw.last().len() == 0 {
        raw.drop_last()
    } else {
        raw
    };
    cut.map_values(|l: Seq<char>| strip_cr(l))
}

/// Splits `s` into its lines, exactly [`lines_of`].
pub fn split_str_lines(s: &str) -> (lines: Vec<String>)
    ensures
        lines.deep_view() == lines_of(s@),
{
    let n = s.unicode_len();
    let mut lines: Vec<String> = Vec::new();
    let mut i: usize = 0;
    proof {
        lemma_split_lines_raw_len(s@);
        assert(lines.deep_view() =~= split_lines_raw(s@.take(0)).drop_last().map_values(
            |l: Seq<char>| strip_cr(l),
        ));
    }
    while i < n
        invariant
            n as int == s@.len(),
            i <= n,
            i == 0 || s@[i as int - 1] == '\n',
            lines.deep_view() == split_lines_raw(s@.take(i as int)).drop_last().map_values(
                |l: Seq<char>| strip_cr(l),
            ),
            split_lines_raw(s@.take(i as int)).last().len() == 0,
        decreases n - i,
    {
        let start = i;
        let mut j: usize = i;
        loop
            invariant
                n as int == s@.len(),
                start <= j <= n,
                forall|m: int| start <= m < j ==> s@[m] != '\n',
            ensures
                start <= j <= n,
                forall|m: int| start <= m < j ==> s@[m] != '\n',
                j == n || s@[j as int] == '\n',
            decreases n - j,
        {
            if j == n {
                break ;
            }
            if s.get_char(j) == '\n' {
                break ;
            }
            j = j + 1;
        }
        let end = if j > start && s.get_char(j - 1) == '\r' {
            j - 1
        } else {
            j
        };
        let line = s.substring_char(start, end).to_owned();
        let ghost old_lines = lines.deep_view();
        lines.push(line);
        proof {
            lemma_lines_run(s@, start as int, j as int);
            assert(strip_cr(s@.subrange(start as int, j as int)) =~= s@.subrange(
                start as int,
                end as int,
            ));
            assert(lines.deep_view() =~= old_lines.push(s@.subrange(start as int, end as int)));
        }
        if j == n {
            proof {
                let raw = split_lines_raw(s@);
                assert(s@.take(n as int) =~= s@);
                assert(lines.deep_view() =~= lines_of(s@));
            }
            return lines;
        }
        proof {
            // consuming the newline closes the line
            assert(s@.take(j as int + 1).drop_last() =~= s@.take(j as int));
            let rawj = split_lines_raw(s@.take(j as int));
            assert(split_lines_raw(s@.take(j as int + 1)) == rawj.push(Seq::<char>::empty()));
            assert(split_lines_raw(s@.take(j as int + 1)).drop_last().map_values(
                |l: Seq<char>| strip_cr(l),
            ) =~= lines.deep_view());
        }
        i = j + 1;
    }
    proof {
        assert(s@.take(i as int) =~= s@);
        let raw = split_lines_raw(s@);
        assert(lines.deep_view() =~= lines_of(s@));
    }
    lines
}

/// Scanning a `'\n'`-free run extends the last raw line: if `s[start .. j)`
/// holds no newline and `start` sits just after one (or at the front), the
/// raw split of `s.take(j)` is that of `s.take(start)` with the run as its
/// last piece.
proof fn lemma_lines_run(s: Seq<char>, start: int, j: int)
    requires
        0 <= start <= j <= s.len(),
        start == 0 || s[start - 1] == '\n',
        forall|m: int| start <= m < j ==> s[m] != '\n',
        split_lines_raw(s.take(start)).last().len() == 0,
    ensures
        split_lines_raw(s.take(j)) == split_lines_raw(s.take(start)).update(
            split_lines_raw(s.take(start)).len() - 1,
            s.subrange(start, j),
        ),
        split_lines_raw(s.take(j)).last() == s.subrange(start, j),
        split_lines_raw(s.take(j)).drop_last() == split_lines_raw(s.take(start)).drop_last(),
    decreases j - start,
{
    lemma_split_lines_raw_len(s.take(start));
    let raw0 = split_lines_raw(s.take(start));
    if j == start {
        assert(s.subrange(start, j) =~= Seq::<char>::empty());
        assert(raw0.update(raw0.len() - 1, s.subrange(start, j)) =~= raw0);
        assert(raw0.drop_last() =~= raw0.update(raw0.len() - 1, s.subrange(start, j)).drop_last());
    } else {
        lemma_lines_run(s, start, j - 1);
        let prev = split_lines_raw(s.take(j - 1));
        assert(s.take(j).drop_last() =~= s.take(j - 1));
        assert(s.take(j).last() == s[j - 1]);
        assert(split_lines_raw(s.take(j)) == prev.update(prev.len() - 1, prev.last().push(
            s[j - 1],
        )));
        assert(prev.last().push(s[j - 1]) =~= s.subrange(start, j));
        assert(prev.update(prev.len() - 1, s.subrange(start, j)) =~= raw0.update(
            raw0.len() - 1,
            s.subrange(start, j),
        ));
        assert(split_lines_raw(s.take(j)).drop_last() =~= raw0.drop_last());
    }
}

} // verus!
