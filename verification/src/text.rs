//! Character-level text utilities shared by the identifier, manifest and
//! command modules: conversions between `String` and `Vec<char>`, string
//! equality, ASCII lowercasing and decimal integer parsing.

use vstd::prelude::*;

verus! {

/// Relies on `String::push`: appends exactly one character at the end.
#[verifier::external_body]
pub fn push_char(s: &mut String, c: char)
    ensures
        final(s)@ == old(s)@.push(c),
{
    s.push(c);
}

/// The characters of `s`, in order, as a vector.
pub fn chars_of(s: &str) -> (r: Vec<char>)
    ensures
        r@ == s@,
{
    let n: usize = s.unicode_len();
    let mut r: Vec<char> = Vec::new();
    let mut i: usize = 0;
    while i < n
        invariant
            n == s@.len(),
            i <= n,
            r@ == s@.subrange(0, i as int),
        decreases n - i,
    {
        r.push(s.get_char(i));
        i = i + 1;
    }
    proof {
        assert(r@ =~= s@);
    }
    r
}

/// The characters of `v`, joined into a string.
pub fn string_of(v: &Vec<char>) -> (r: String)
    ensures
        r@ == v@,
{
    let mut r: String = String::new();
    let mut i: usize = 0;
    while i < v.len()
        invariant
            i <= v@.len(),
            r@ == v@.subrange(0, i as int),
        decreases v@.len() - i,
    {
        push_char(&mut r, v[i]);
        i = i + 1;
    }
    proof {
        assert(r@ =~= v@);
    }
    r
}

/// ASCII lowercasing of one character; anything but `A`..`Z` is unchanged.
pub open spec fn lower_char(c: char) -> char {
    if 'A' <= c && c <= 'Z' {
        ((c as u32) + 32) as char
    } else {
        c
    }
}

/// ASCII lowercasing of a character sequence.
pub open spec fn lower(s: Seq<char>) -> Seq<char> {
    s.map_values(|c: char| lower_char(c))
}

/// The ASCII-lowercase counterpart of `c`.
pub fn to_lower_char(c: char) -> (r: char)
    ensures
        r == lower_char(c),
{
    if 'A' <= c && c <= 'Z' {
        (((c as u32) + 32) as u8) as char
    } else {
        c
    }
}

/// Whether two strings hold the same characters.
pub fn str_eq(a: &str, b: &str) -> (r: bool)
    ensures
        r == (a@ == b@),
{
    let na: usize = a.unicode_len();
    let nb: usize = b.unicode_len();
    if na != nb {
        return false;
    }
    let mut i: usize = 0;
    while i < na
        invariant
            na == a@.len(),
            na == b@.len(),
            i <= na,
            forall|j: int| 0 <= j < i ==> a@[j] == b@[j],
        decreases na - i,
    {
        if a.get_char(i) != b.get_char(i) {
            return false;
        }
        i = i + 1;
    }
    proof {
        assert(a@ =~= b@);
    }
    true
}

/// Whether `c` is a space or a tab.
pub open spec fn is_blank(c: char) -> bool {
    c == ' ' || c == '\t'
}

/// How many blanks open `s`.
pub open spec fn leading_blanks(s: Seq<char>) -> int
    decreases s.len(),
{
    if s.len() == 0 {
        0
    } else if is_blank(s[0]) {
        1 + leading_blanks(s.subrange(1, s.len() as int))
    } else {
        0
    }
}

/// How many blanks close `s`.
pub open spec fn trailing_blanks(s: Seq<char>) -> int
    decreases s.len(),
{
    if s.len() == 0 {
        0
    } else if is_blank(s.last()) {
        1 + trailing_blanks(s.drop_last())
    } else {
        0
    }
}

/// `s` without its leading and trailing blanks.
pub open spec fn spec_trim(s: Seq<char>) -> Seq<char> {
    if leading_blanks(s) == s.len() {
        Seq::empty()
    } else {
        s.subrange(leading_blanks(s), s.len() - trailing_blanks(s))
    }
}

/// The blank prefix is all blank, and what follows it starts nonblank.
pub proof fn lemma_leading_blanks(s: Seq<char>)
    ensures
        0 <= leading_blanks(s) <= s.len(),
        forall|i: int| #![trigger s[i]] 0 <= i < leading_blanks(s) ==> is_blank(s[i]),
        leading_blanks(s) < s.len() ==> !is_blank(s[leading_blanks(s)]),
    decreases s.len(),
{
    if s.len() > 0 && is_blank(s[0]) {
        let t = s.subrange(1, s.len() as int);
        lemma_leading_blanks(t);
        assert(forall|i: int| 0 <= i < t.len() ==> t[i] == s[i + 1]);
        assert(forall|i: int| #![trigger s[i]] 1 <= i < s.len() ==> s[i] == t[i - 1]);
    }
}

/// The blank suffix is all blank, and what precedes it ends nonblank.
pub proof fn lemma_trailing_blanks(s: Seq<char>)
    ensures
        0 <= trailing_blanks(s) <= s.len(),
        forall|i: int| #![trigger s[i]] s.len() - trailing_blanks(s) <= i < s.len() ==> is_blank(
            s[i],
        ),
        trailing_blanks(s) < s.len() ==> !is_blank(s[s.len() - trailing_blanks(s) - 1]),
    decreases s.len(),
{
    if s.len() > 0 && is_blank(s.last()) {
        let t = s.drop_last();
        lemma_trailing_blanks(t);
        assert(forall|i: int| 0 <= i < t.len() ==> t[i] == s[i]);
    }
}

/// `s` without its leading and trailing blanks.
pub fn trim(v: &Vec<char>) -> (r: Vec<char>)
    ensures
        r@ == spec_trim(v@),
{
    proof {
        lemma_leading_blanks(v@);
        lemma_trailing_blanks(v@);
    }
    let n: usize = v.len();
    let mut a: usize = 0;
    while a < n && (v[a] == ' ' || v[a] == '\t')
        invariant
            a <= n,
            n == v@.len(),
            forall|i: int| #![trigger v@[i]] 0 <= i < a ==> is_blank(v@[i]),
        decreases n - a,
    {
        a = a + 1;
    }
    proof {
        lemma_leading_blanks(v@);
        let g = leading_blanks(v@);
        if g < a as int {
            assert(!is_blank(v@[g]));
            assert(false);
        }
        if g > a as int {
            assert(is_blank(v@[a as int]));
            assert(false);
        }
    }
    if a == n {
        let r: Vec<char> = Vec::new();
        return r;
    }
    let mut b: usize = n;
    while b > a && (v[b - 1] == ' ' || v[b - 1] == '\t')
        invariant
            a <= b <= n,
            n == v@.len(),
            forall|i: int| #![trigger v@[i]] b <= i < n ==> is_blank(v@[i]),
        decreases b,
    {
        b = b - 1;
    }
    proof {
        lemma_trailing_blanks(v@);
        let g = trailing_blanks(v@);
        assert(!is_blank(v@[a as int]));
        if (n - g) < b as int {
            if b == a {
                assert(is_blank(v@[a as int]));
                assert(false);
            } else {
                assert(is_blank(v@[b - 1]));
                assert(false);
            }
        }
        if (n - g) > b as int {
            assert(g < n);
            assert(is_blank(v@[n - g - 1]));
            assert(!is_blank(v@[n - g - 1]));
            assert(false);
        }
    }
    let mut out: Vec<char> = Vec::new();
    let mut j: usize = a;
    while j < b
        invariant
            a <= j <= b <= n,
            n == v@.len(),
            out@ == v@.subrange(a as int, j as int),
        decreases b - j,
    {
        out.push(v[j]);
        proof {
            assert(v@.subrange(a as int, j + 1) =~= v@.subrange(a as int, j as int).push(
                v@[j as int],
            ));
        }
        j = j + 1;
    }
    out
}

/// The lines of `s`: the segments that its line breaks separate.
pub open spec fn lines_of(s: Seq<char>) -> Seq<Seq<char>>
    decreases s.len(),
{
    let f = crate::identifier::first_sep(s, '\n');
    if 0 <= f < s.len() {
        seq![s.subrange(0, f)] + lines_of(s.subrange(f + 1, s.len() as int))
    } else {
        seq![s]
    }
}

/// The lines of `v`, split at each line break.
pub fn split_lines(v: &Vec<char>) -> (r: Vec<Vec<char>>)
    ensures
        r@.map_values(|l: Vec<char>| l@) == lines_of(v@),
    decreases v@.len(),
{
    proof {
        crate::identifier::lemma_first_sep(v@, '\n');
    }
    let n: usize = v.len();
    let mut i: usize = 0;
    while i < n && v[i] != '\n'
        invariant
            i <= n,
            n == v@.len(),
            forall|j: int| #![trigger v@[j]] 0 <= j < i ==> v@[j] != '\n',
        decreases n - i,
    {
        i = i + 1;
    }
    let mut head: Vec<char> = Vec::new();
    let mut j: usize = 0;
    while j < i
        invariant
            j <= i <= n,
            n == v@.len(),
            head@ == v@.subrange(0, j as int),
        decreases i - j,
    {
        head.push(v[j]);
        proof {
            assert(v@.subrange(0, j + 1) =~= v@.subrange(0, j as int).push(v@[j as int]));
        }
        j = j + 1;
    }
    proof {
        crate::identifier::lemma_first_sep(v@, '\n');
        let g = crate::identifier::first_sep(v@, '\n');
        if i < n {
            if g == -1 || g > i as int {
                assert(v@[i as int] != '\n');
                assert(false);
            }
            if 0 <= g < i as int {
                assert(v@[g] != '\n');
                assert(false);
            }
        } else {
            if g >= 0 {
                assert(v@[g] != '\n');
                assert(false);
            }
        }
    }
    if i == n {
        proof {
            assert(v@.subrange(0, n as int) =~= v@);
        }
        let mut r: Vec<Vec<char>> = Vec::new();
        r.push(head);
        proof {
            assert(r@.map_values(|l: Vec<char>| l@) =~= lines_of(v@));
        }
        return r;
    }
    let mut tail: Vec<char> = Vec::new();
    let mut k: usize = i + 1;
    while k < n
        invariant
            i + 1 <= k <= n,
            n == v@.len(),
            tail@ == v@.subrange(i + 1, k as int),
        decreases n - k,
    {
        tail.push(v[k]);
        proof {
            assert(v@.subrange(i + 1, k + 1) =~= v@.subrange(i + 1, k as int).push(v@[k as int]));
        }
        k = k + 1;
    }
    let mut rest: Vec<Vec<char>> = split_lines(&tail);
    let ghost restview = rest@.map_values(|l: Vec<char>| l@);
    let total: usize = rest.len();
    let mut r: Vec<Vec<char>> = Vec::new();
    r.push(head);
    let mut m: usize = 0;
    proof {
        assert(restview.subrange(0, total as int) =~= restview);
    }
    while m < total
        invariant
            m <= total,
            total == restview.len(),
            rest@.map_values(|l: Vec<char>| l@) == restview.subrange(m as int, total as int),
            r@.len() == m + 1,
            r@[0]@ == v@.subrange(0, i as int),
            forall|t: int| 0 <= t < m ==> (#[trigger] r@[t + 1])@ == restview[t],
        decreases total - m,
    {
        proof {
            assert(rest@.len() == restview.subrange(m as int, total as int).len());
        }
        let ghost pre_rest = rest@;
        let line: Vec<char> = rest.remove(0);
        proof {
            assert(pre_rest.map_values(|l: Vec<char>| l@)[0] == line@);
            assert(line@ == restview[m as int]);
            assert(forall|t: int| 0 <= t < rest@.len() ==> rest@[t] == pre_rest[t + 1]);
            assert forall|t: int| 0 <= t < rest@.len() implies rest@.map_values(
                |l: Vec<char>| l@,
            )[t] == #[trigger] restview.subrange(m + 1, total as int)[t] by {
                assert(rest@[t] == pre_rest[t + 1]);
                assert(pre_rest.map_values(|l: Vec<char>| l@)[t + 1] == pre_rest[t + 1]@);
            }
            assert(rest@.map_values(|l: Vec<char>| l@) =~= restview.subrange(m + 1, total as int));
        }
        r.push(line);
        m = m + 1;
    }
    proof {
        assert(lines_of(v@) == seq![v@.subrange(0, i as int)] + restview);
        assert forall|t: int| 0 <= t < r@.len() implies r@.map_values(|l: Vec<char>| l@)[t] == (
        #[trigger] (seq![v@.subrange(0, i as int)] + restview)[t]) by {
            if t > 0 {
                assert(r@[(t - 1) + 1]@ == restview[t - 1]);
            }
        }
        assert(r@.map_values(|l: Vec<char>| l@) =~= lines_of(v@));
    }
    r
}

/// Whether `c` is whitespace.
pub open spec fn is_space(c: char) -> bool {
    c == ' ' || c == '\t' || c == '\r' || c == '\n'
}

/// The smallest index of a whitespace character in `s`, or `-1`.
pub open spec fn first_space(s: Seq<char>) -> int
    decreases s.len(),
{
    if s.len() == 0 {
        -1
    } else if is_space(s[0]) {
        0
    } else if first_space(s.subrange(1, s.len() as int)) == -1 {
        -1
    } else {
        1 + first_space(s.subrange(1, s.len() as int))
    }
}

/// `first_space` points at the first whitespace character.
pub proof fn lemma_first_space(s: Seq<char>)
    ensures
        -1 <= first_space(s) < s.len(),
        first_space(s) >= 0 ==> is_space(s[first_space(s)]),
        forall|i: int| #![trigger s[i]] 0 <= i < first_space(s) ==> !is_space(s[i]),
        first_space(s) == -1 ==> forall|i: int| #![trigger s[i]] 0 <= i < s.len() ==> !is_space(
            s[i],
        ),
    decreases s.len(),
{
    if s.len() > 0 && !is_space(s[0]) {
        let t = s.subrange(1, s.len() as int);
        lemma_first_space(t);
        assert(forall|i: int| 0 <= i < t.len() ==> t[i] == s[i + 1]);
        assert(forall|i: int| #![trigger s[i]] 1 <= i < s.len() ==> s[i] == t[i - 1]);
    }
}

/// The whitespace-delimited words of `s`, in order, each nonempty.
pub open spec fn words_of(s: Seq<char>) -> Seq<Seq<char>>
    decreases s.len(),
{
    if s.len() == 0 {
        Seq::empty()
    } else if is_space(s[0]) {
        words_of(s.subrange(1, s.len() as int))
    } else {
        let e = first_space(s);
        if 0 <= e < s.len() {
            seq![s.subrange(0, e)] + words_of(s.subrange(e, s.len() as int))
        } else {
            seq![s]
        }
    }
}

/// Leading whitespace does not change the words.
pub proof fn lemma_words_skip(s: Seq<char>, a: int)
    requires
        0 <= a <= s.len(),
        forall|i: int| #![trigger s[i]] 0 <= i < a ==> is_space(s[i]),
    ensures
        words_of(s) == words_of(s.subrange(a, s.len() as int)),
    decreases a,
{
    if a > 0 {
        assert(is_space(s[0]));
        let t = s.subrange(1, s.len() as int);
        assert(forall|i: int| #![trigger t[i]] 0 <= i < a - 1 ==> t[i] == s[i + 1]);
        lemma_words_skip(t, a - 1);
        assert(t.subrange(a - 1, t.len() as int) =~= s.subrange(a, s.len() as int));
    } else {
        assert(s.subrange(0, s.len() as int) =~= s);
    }
}

/// The whitespace-delimited words of `v`, in order.
pub fn split_words(v: &Vec<char>) -> (r: Vec<Vec<char>>)
    ensures
        r@.map_values(|w: Vec<char>| w@) == words_of(v@),
    decreases v@.len(),
{
    let n: usize = v.len();
    let mut a: usize = 0;
    while a < n && (v[a] == ' ' || v[a] == '\t' || v[a] == '\r' || v[a] == '\n')
        invariant
            a <= n,
            n == v@.len(),
            forall|i: int| #![trigger v@[i]] 0 <= i < a ==> is_space(v@[i]),
        decreases n - a,
    {
        a = a + 1;
    }
    proof {
        lemma_words_skip(v@, a as int);
    }
    if a == n {
        let r: Vec<Vec<char>> = Vec::new();
        proof {
            assert(v@.subrange(a as int, n as int) =~= Seq::<char>::empty());
            assert(r@.map_values(|w: Vec<char>| w@) =~= words_of(v@));
        }
        return r;
    }
    let ghost restword = v@.subrange(a as int, n as int);
    let mut e: usize = a;
    while e < n && !(v[e] == ' ' || v[e] == '\t' || v[e] == '\r' || v[e] == '\n')
        invariant
            a <= e <= n,
            n == v@.len(),
            forall|i: int| #![trigger v@[i]] a <= i < e ==> !is_space(v@[i]),
        decreases n - e,
    {
        e = e + 1;
    }
    proof {
        lemma_first_space(restword);
        assert(forall|i: int| 0 <= i < restword.len() ==> restword[i] == v@[a + i]);
        let g = first_space(restword);
        if e < n {
            if g == -1 || g > e - a {
                assert(!is_space(restword[e - a]));
                assert(is_space(v@[e as int]));
                assert(false);
            }
            if 0 <= g < e - a {
                assert(!is_space(v@[a + g]));
                assert(is_space(restword[g]));
                assert(false);
            }
        } else {
            if g >= 0 {
                assert(!is_space(v@[a + g]));
                assert(is_space(restword[g]));
                assert(false);
            }
        }
    }
    let mut head: Vec<char> = Vec::new();
    let mut j: usize = a;
    while j < e
        invariant
            a <= j <= e <= n,
            n == v@.len(),
            head@ == v@.subrange(a as int, j as int),
        decreases e - j,
    {
        head.push(v[j]);
        proof {
            assert(v@.subrange(a as int, j + 1) =~= v@.subrange(a as int, j as int).push(
                v@[j as int],
            ));
        }
        j = j + 1;
    }
    if e == n {
        let mut r: Vec<Vec<char>> = Vec::new();
        r.push(head);
        proof {
            assert(words_of(restword) == seq![restword]);
            assert(head@ =~= restword);
            assert(r@.map_values(|w: Vec<char>| w@) =~= words_of(v@));
        }
        return r;
    }
    let mut tail: Vec<char> = Vec::new();
    let mut k: usize = e;
    while k < n
        invariant
            e <= k <= n,
            n == v@.len(),
            tail@ == v@.subrange(e as int, k as int),
        decreases n - k,
    {
        tail.push(v[k]);
        proof {
            assert(v@.subrange(e as int, k + 1) =~= v@.subrange(e as int, k as int).push(
                v@[k as int],
            ));
        }
        k = k + 1;
    }
    let mut rest: Vec<Vec<char>> = split_words(&tail);
    let ghost restview = rest@.map_values(|w: Vec<char>| w@);
    let total: usize = rest.len();
    let mut r: Vec<Vec<char>> = Vec::new();
    r.push(head);
    let mut m: usize = 0;
    proof {
        assert(restview.subrange(0, total as int) =~= restview);
    }
    while m < total
        invariant
            m <= total,
            total == restview.len(),
            rest@.map_values(|w: Vec<char>| w@) == restview.subrange(m as int, total as int),
            r@.len() == m + 1,
            r@[0]@ == v@.subrange(a as int, e as int),
            forall|t: int| 0 <= t < m ==> (#[trigger] r@[t + 1])@ == restview[t],
        decreases total - m,
    {
        proof {
            assert(rest@.len() == restview.subrange(m as int, total as int).len());
        }
        let ghost pre_rest = rest@;
        let word: Vec<char> = rest.remove(0);
        proof {
            assert(pre_rest.map_values(|w: Vec<char>| w@)[0] == word@);
            assert(word@ == restview[m as int]);
            assert(forall|t: int| 0 <= t < rest@.len() ==> rest@[t] == pre_rest[t + 1]);
            assert forall|t: int| 0 <= t < rest@.len() implies rest@.map_values(
                |w: Vec<char>| w@,
            )[t] == #[trigger] restview.subrange(m + 1, total as int)[t] by {
                assert(rest@[t] == pre_rest[t + 1]);
                assert(pre_rest.map_values(|w: Vec<char>| w@)[t + 1] == pre_rest[t + 1]@);
            }
            assert(rest@.map_values(|w: Vec<char>| w@) =~= restview.subrange(m + 1, total as int));
        }
        r.push(word);
        m = m + 1;
    }
    proof {
        assert(restword.subrange(e - a, restword.len() as int) =~= v@.subrange(e as int, n as int));
        assert(restword.subrange(0, e - a) =~= v@.subrange(a as int, e as int));
        assert(words_of(restword) == seq![v@.subrange(a as int, e as int)] + restview);
        assert forall|t: int| 0 <= t < r@.len() implies r@.map_values(|w: Vec<char>| w@)[t] == (
        #[trigger] (seq![v@.subrange(a as int, e as int)] + restview)[t]) by {
            if t > 0 {
                assert(r@[(t - 1) + 1]@ == restview[t - 1]);
            }
        }
        assert(r@.map_values(|w: Vec<char>| w@) =~= words_of(v@));
    }
    r
}

/// Whether `c` is a decimal digit.
pub open spec fn is_digit(c: char) -> bool {
    '0' <= c && c <= '9'
}

/// The value of one decimal digit.
pub open spec fn digit_val(c: char) -> int {
    c as int - '0' as int
}

/// Whether every character of `s` is a decimal digit.
pub open spec fn all_digits(s: Seq<char>) -> bool {
    forall|i: int| 0 <= i < s.len() ==> is_digit(#[trigger] s[i])
}

/// The value of a digit sequence read in base ten.
pub open spec fn digits_int(s: Seq<char>) -> int
    decreases s.len(),
{
    if s.len() == 0 {
        0
    } else {
        digits_int(s.drop_last()) * 10 + digit_val(s.last())
    }
}

/// Whether `s` is an optionally signed, non-empty decimal numeral.
pub open spec fn int_grammar(s: Seq<char>) -> bool {
    if s.len() == 0 {
        false
    } else if s[0] == '-' || s[0] == '+' {
        s.len() > 1 && all_digits(s.subrange(1, s.len() as int))
    } else {
        all_digits(s)
    }
}

/// The signed value of a numeral that meets `int_grammar`.
pub open spec fn int_value(s: Seq<char>) -> int {
    if s.len() > 0 && s[0] == '-' {
        -digits_int(s.subrange(1, s.len() as int))
    } else if s.len() > 0 && s[0] == '+' {
        digits_int(s.subrange(1, s.len() as int))
    } else {
        digits_int(s)
    }
}

proof fn lemma_digits_nonneg(s: Seq<char>)
    requires
        all_digits(s),
    ensures
        digits_int(s) >= 0,
    decreases s.len(),
{
    if s.len() > 0 {
        assert(all_digits(s.drop_last()));
        lemma_digits_nonneg(s.drop_last());
    }
}

/// A digit sequence is worth at least as much as any of its prefixes.
proof fn lemma_digits_prefix(s: Seq<char>, i: int)
    requires
        all_digits(s),
        0 <= i <= s.len(),
    ensures
        digits_int(s) >= digits_int(s.subrange(0, i)),
    decreases s.len() - i,
{
    if i == s.len() {
        assert(s.subrange(0, i) =~= s);
    } else {
        lemma_digits_prefix(s, i + 1);
        let p = s.subrange(0, i + 1);
        assert(p.drop_last() =~= s.subrange(0, i));
        assert(all_digits(s.subrange(0, i)));
        lemma_digits_nonneg(s.subrange(0, i));
        assert(digits_int(p) == digits_int(s.subrange(0, i)) * 10 + digit_val(s[i]));
        assert(digits_int(s.subrange(0, i)) * 10 >= digits_int(s.subrange(0, i))) by (nonlinear_arith)
            requires digits_int(s.subrange(0, i)) >= 0;
    }
}

/// Parses an optionally signed decimal numeral; `None` when the characters
/// do not form one or its value does not fit in `i64`.
pub fn parse_i64(v: &Vec<char>) -> (r: Option<i64>)
    ensures
        match r {
            Some(n) => int_grammar(v@) && n == int_value(v@) && i64::MIN <= int_value(v@) <= i64::MAX,
            None => !int_grammar(v@) || int_value(v@) < i64::MIN || int_value(v@) > i64::MAX,
        },
{
    let n: usize = v.len();
    if n == 0 {
        return None;
    }
    let negative: bool = v[0] == '-';
    let signed: bool = negative || v[0] == '+';
    let start: usize = if signed { 1 } else { 0 };
    if start >= n {
        return None;
    }
    let limit: u64 = if negative {
        9223372036854775808
    } else {
        9223372036854775807
    };
    let ghost digits = v@.subrange(start as int, n as int);
    let mut mag: u64 = 0;
    let mut i: usize = start;
    while i < n
        invariant
            start <= i <= n,
            n == v@.len(),
            start == (if signed { 1int } else { 0int }),
            limit == (if negative { 9223372036854775808u64 } else { 9223372036854775807u64 }),
            signed == (negative || v@[0] == '+'),
            negative == (v@[0] == '-'),
            digits == v@.subrange(start as int, n as int),
            all_digits(v@.subrange(start as int, i as int)),
            mag == digits_int(v@.subrange(start as int, i as int)),
            mag <= limit,
        decreases n - i,
    {
        let c = v[i];
        if !('0' <= c && c <= '9') {
            proof {
                assert(!is_digit(v@[i as int]));
                if signed {
                    assert(v@.subrange(1, n as int)[i - 1] == v@[i as int]);
                } else {
                    assert(v@.subrange(0, n as int) =~= v@);
                }
            }
            return None;
        }
        let d: u64 = (c as u32 - '0' as u32) as u64;
        proof {
            assert(d <= 9);
            assert(v@.subrange(start as int, (i + 1) as int).drop_last()
                =~= v@.subrange(start as int, i as int));
        }
        if mag > (limit - d) / 10 {
            proof {
                let p = v@.subrange(start as int, (i + 1) as int);
                assert(all_digits(p));
                assert(digits_int(p) == mag * 10 + d);
                assert(mag * 10 + d > limit) by (nonlinear_arith)
                    requires mag > (limit - d) / 10, 0 <= d <= 9, limit > 9, mag >= 0;
                assert(p =~= digits.subrange(0, (i + 1 - start) as int));
                if all_digits(digits) {
                    lemma_digits_prefix(digits, i + 1 - start);
                    assert(digits_int(digits) > limit);
                }
                if !signed {
                    assert(v@.subrange(0, n as int) =~= v@);
                }
            }
            return None;
        }
        proof {
            assert(mag * 10 + d <= limit) by (nonlinear_arith)
                requires mag <= (limit - d) / 10, 0 <= d <= 9, limit > 9, mag >= 0;
        }
        mag = mag * 10 + d;
        i = i + 1;
    }
    proof {
        assert(v@.subrange(start as int, i as int) =~= digits);
        if !signed {
            assert(v@.subrange(0, n as int) =~= v@);
        }
    }
    if negative {
        if mag == 9223372036854775808 {
            Some(i64::MIN)
        } else {
            Some(-(mag as i64))
        }
    } else {
        Some(mag as i64)
    }
}

} // verus!
