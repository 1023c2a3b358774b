//! Canonical plugin names. A plugin is named `<account>@<repository>`,
//! lower-cased, derived from the remote URL it was installed from; the same
//! name is the file stem of its source checkout and of its compiled artifact.

use vstd::prelude::*;
use crate::text::{chars_of, lower, lower_char, push_char, string_of};

verus! {

/// The largest index of `u` or `w` in `s`, or `-1` when neither occurs.
pub open spec fn last_sep(s: Seq<char>, u: char, w: char) -> int
    decreases s.len(),
{
    if s.len() == 0 {
        -1
    } else if s.last() == u || s.last() == w {
        s.len() - 1
    } else {
        last_sep(s.drop_last(), u, w)
    }
}

/// `last_sep` points at the last occurrence: a separator stands there and
/// none stands later.
pub proof fn lemma_last_sep(s: Seq<char>, u: char, w: char)
    ensures
        -1 <= last_sep(s, u, w) < s.len(),
        last_sep(s, u, w) >= 0 ==> (s[last_sep(s, u, w)] == u || s[last_sep(s, u, w)] == w),
        forall|i: int| #![trigger s[i]] last_sep(s, u, w) < i < s.len() ==> s[i] != u && s[i] != w,
    decreases s.len(),
{
    if s.len() > 0 && !(s.last() == u || s.last() == w) {
        lemma_last_sep(s.drop_last(), u, w);
        assert(forall|i: int| 0 <= i < s.len() - 1 ==> s[i] == s.drop_last()[i]);
    }
}

/// Whether `s` ends with the four characters `.git`.
pub open spec fn ends_with_git(s: Seq<char>) -> bool {
    s.len() >= 4 && s[s.len() - 4] == '.' && s[s.len() - 3] == 'g' && s[s.len() - 2] == 'i'
        && s[s.len() - 1] == 't'
}

/// The canonical name derived from a remote URL, when the URL fits one of
/// the two supported grammars (`https://host/Account/Repo.git` and
/// `user@host:Account/Repo.git`): the account and repository segments,
/// lower-cased, joined by `@`. `None` when the URL fits neither grammar or
/// either segment is empty.
pub open spec fn git_url_id(s: Seq<char>) -> Option<Seq<char>> {
    if !ends_with_git(s) {
        None
    } else {
        let m = last_sep(s, '/', '/');
        if m < 0 {
            None
        } else {
            let l = last_sep(s.subrange(0, m), ':', '/');
            if l < 0 {
                None
            } else if l + 1 == m || m + 1 == s.len() - 4 {
                None
            } else {
                Some(
                    lower(s.subrange(l + 1, m)) + seq!['@'] + lower(
                        s.subrange(m + 1, s.len() - 4),
                    ),
                )
            }
        }
    }
}

/// The canonical `account@repository` name of the remote URL `s`, or `None`
/// when `s` fits neither supported remote grammar or a segment is empty.
pub fn account_at_rep(s: &str) -> (r: Option<String>)
    ensures
        match r {
            Some(id) => git_url_id(s@) == Some(id@),
            None => git_url_id(s@) is None,
        },
{
    let v: Vec<char> = chars_of(s);
    let n: usize = v.len();
    if n < 4 || v[n - 4] != '.' || v[n - 3] != 'g' || v[n - 2] != 'i' || v[n - 1] != 't' {
        return None;
    }
    proof {
        lemma_last_sep(v@, '/', '/');
    }
    // the last '/' of the whole URL separates account from repository
    let mut m: usize = n;
    let mut found_m: bool = false;
    while m > 0 && !found_m
        invariant
            0 <= m <= n,
            n == v@.len(),
            found_m ==> m < n && v@[m as int] == '/',
            !found_m ==> forall|i: int| m <= i < n ==> v@[i] != '/',
            found_m ==> forall|i: int| m < i < n ==> v@[i] != '/',
        decreases m,
    {
        if v[m - 1] == '/' {
            m = m - 1;
            found_m = true;
        } else {
            m = m - 1;
        }
    }
    if !found_m {
        proof {
            lemma_last_sep(v@, '/', '/');
        }
        return None;
    }
    proof {
        lemma_last_sep(v@, '/', '/');
        let gl = last_sep(v@, '/', '/');
        if gl > m as int {
            assert(v@[gl] != '/');
            assert(false);
        }
        if gl < m as int {
            assert(v@[m as int] != '/');
            assert(false);
        }
        assert(last_sep(v@, '/', '/') == m as int);
    }
    // the last ':' or '/' before it closes the account segment
    let ghost prefix = v@.subrange(0, m as int);
    proof {
        lemma_last_sep(prefix, ':', '/');
        assert(forall|i: int| 0 <= i < m ==> prefix[i] == v@[i]);
    }
    let mut l: usize = m;
    let mut found_l: bool = false;
    while l > 0 && !found_l
        invariant
            0 <= l <= m <= n,
            n == v@.len(),
            prefix == v@.subrange(0, m as int),
            found_l ==> l < m && (v@[l as int] == ':' || v@[l as int] == '/'),
            !found_l ==> forall|i: int| l <= i < m ==> v@[i] != ':' && v@[i] != '/',
            found_l ==> forall|i: int| l < i < m ==> v@[i] != ':' && v@[i] != '/',
        decreases l,
    {
        if v[l - 1] == ':' || v[l - 1] == '/' {
            l = l - 1;
            found_l = true;
        } else {
            l = l - 1;
        }
    }
    if !found_l {
        proof {
            lemma_last_sep(prefix, ':', '/');
            assert(forall|i: int| 0 <= i < m ==> prefix[i] == v@[i]);
            assert(forall|i: int| 0 <= i < m ==> prefix[i] != ':' && prefix[i] != '/');
            assert(last_sep(prefix, ':', '/') == -1);
        }
        return None;
    }
    proof {
        lemma_last_sep(prefix, ':', '/');
        assert(forall|i: int| 0 <= i < m ==> prefix[i] == v@[i]);
        let gl = last_sep(prefix, ':', '/');
        if gl > l as int {
            assert(prefix[gl] != ':' && prefix[gl] != '/');
            assert(false);
        }
        if gl < l as int {
            assert(prefix[l as int] != ':' && prefix[l as int] != '/');
            assert(false);
        }
        assert(last_sep(prefix, ':', '/') == l as int);
    }
    if l + 1 == m || m + 1 == n - 4 {
        return None;
    }
    // account@repository, lower-cased
    let mut out: Vec<char> = Vec::new();
    let mut j: usize = l + 1;
    while j < m
        invariant
            l + 1 <= j <= m < n == v@.len(),
            out@ == lower(v@.subrange(l + 1, j as int)),
        decreases m - j,
    {
        out.push(crate::text::to_lower_char(v[j]));
        proof {
            assert(lower(v@.subrange(l + 1, j + 1)) =~= lower(v@.subrange(l + 1, j as int)).push(
                lower_char(v@[j as int]),
            ));
        }
        j = j + 1;
    }
    out.push('@');
    let ghost head = lower(v@.subrange(l + 1, m as int)) + seq!['@'];
    proof {
        assert(out@ =~= head);
    }
    let mut k: usize = m + 1;
    while k < n - 4
        invariant
            m + 1 <= k <= n - 4,
            n == v@.len(),
            4 <= n,
            head == lower(v@.subrange(l + 1, m as int)) + seq!['@'],
            out@ == head + lower(v@.subrange(m + 1, k as int)),
        decreases n - 4 - k,
    {
        out.push(crate::text::to_lower_char(v[k]));
        proof {
            assert(lower(v@.subrange(m + 1, k + 1)) =~= lower(v@.subrange(m + 1, k as int)).push(
                lower_char(v@[k as int]),
            ));
            assert(out@ =~= head + lower(v@.subrange(m + 1, k + 1)));
        }
        k = k + 1;
    }
    Some(string_of(&out))
}

/// The smallest index of `u` in `s`, or `-1` when it does not occur.
pub open spec fn first_sep(s: Seq<char>, u: char) -> int
    decreases s.len(),
{
    if s.len() == 0 {
        -1
    } else if s[0] == u {
        0
    } else if first_sep(s.subrange(1, s.len() as int), u) == -1 {
        -1
    } else {
        1 + first_sep(s.subrange(1, s.len() as int), u)
    }
}

/// `first_sep` points at the first occurrence: `u` stands there and nowhere
/// earlier.
pub proof fn lemma_first_sep(s: Seq<char>, u: char)
    ensures
        -1 <= first_sep(s, u) < s.len(),
        first_sep(s, u) >= 0 ==> s[first_sep(s, u)] == u,
        forall|i: int| #![trigger s[i]] 0 <= i < first_sep(s, u) ==> s[i] != u,
        first_sep(s, u) == -1 ==> forall|i: int| #![trigger s[i]] 0 <= i < s.len() ==> s[i] != u,
    decreases s.len(),
{
    if s.len() > 0 && s[0] != u {
        let t = s.subrange(1, s.len() as int);
        lemma_first_sep(t, u);
        assert(forall|i: int| 0 <= i < t.len() ==> t[i] == s[i + 1]);
        assert(forall|i: int| 1 <= i < s.len() ==> s[i] == t[i - 1]);
    }
}

/// The repository segment of a canonical name: what follows the first `@`,
/// or the whole name when there is none.
pub open spec fn repo_part_of(s: Seq<char>) -> Seq<char> {
    if first_sep(s, '@') == -1 {
        s
    } else {
        s.subrange(first_sep(s, '@') + 1, s.len() as int)
    }
}

/// The part of the name `sub` that names the repository alone: the compiled
/// artifact inside a checkout carries that bare name.
pub fn repo_part(sub: &str) -> (r: String)
    ensures
        r@ == repo_part_of(sub@),
{
    let v: Vec<char> = chars_of(sub);
    let n: usize = v.len();
    let mut i: usize = 0;
    while i < n && v[i] != '@'
        invariant
            0 <= i <= n,
            n == v@.len(),
            forall|j: int| #![trigger v@[j]] 0 <= j < i ==> v@[j] != '@',
        decreases n - i,
    {
        i = i + 1;
    }
    let found: bool = i < n;
    proof {
        lemma_first_sep(v@, '@');
        let g = first_sep(v@, '@');
        if found {
            if g == -1 || g > i as int {
                assert(v@[i as int] != '@');
                assert(false);
            }
            if g < i as int {
                assert(v@[g] != '@');
                assert(false);
            }
        } else {
            if g >= 0 {
                assert(v@[g] != '@');
                assert(false);
            }
        }
    }
    let start: usize = if found {
        i + 1
    } else {
        0
    };
    let mut out: Vec<char> = Vec::new();
    let mut j: usize = start;
    while j < n
        invariant
            start <= j <= n,
            n == v@.len(),
            out@ == v@.subrange(start as int, j as int),
        decreases n - j,
    {
        out.push(v[j]);
        proof {
            assert(v@.subrange(start as int, j + 1) =~= v@.subrange(start as int, j as int).push(
                v@[j as int],
            ));
        }
        j = j + 1;
    }
    proof {
        if !found {
            assert(v@.subrange(0, n as int) =~= v@);
        }
    }
    string_of(&out)
}

/// The file stem of a path: the file name (what follows the last `/`)
/// without its extension (what follows the last `.` of the file name,
/// unless that dot opens the name).
pub open spec fn stem_of(s: Seq<char>) -> Seq<char> {
    let name = s.subrange(last_sep(s, '/', '/') + 1, s.len() as int);
    let d = last_sep(name, '.', '.');
    if d <= 0 {
        name
    } else {
        name.subrange(0, d)
    }
}

/// The file stem of the path `s`, as `stem_of` defines it.
pub fn file_stem(s: &str) -> (r: String)
    ensures
        r@ == stem_of(s@),
{
    let v: Vec<char> = chars_of(s);
    let n: usize = v.len();
    // last '/': the file name starts after it
    let mut m: usize = n;
    let mut found_m: bool = false;
    while m > 0 && !found_m
        invariant
            0 <= m <= n,
            n == v@.len(),
            found_m ==> m < n && v@[m as int] == '/',
            !found_m ==> forall|i: int| #![trigger v@[i]] m <= i < n ==> v@[i] != '/',
            found_m ==> forall|i: int| #![trigger v@[i]] m < i < n ==> v@[i] != '/',
        decreases m,
    {
        if v[m - 1] == '/' {
            m = m - 1;
            found_m = true;
        } else {
            m = m - 1;
        }
    }
    proof {
        lemma_last_sep(v@, '/', '/');
        let g = last_sep(v@, '/', '/');
        if found_m {
            if g > m as int {
                assert(v@[g] != '/');
                assert(false);
            }
            if g < m as int {
                assert(v@[m as int] != '/');
                assert(false);
            }
        } else {
            if g >= 0 {
                assert(v@[g] != '/');
                assert(false);
            }
        }
    }
    let start: usize = if found_m {
        m + 1
    } else {
        0
    };
    let ghost name = v@.subrange(start as int, n as int);
    // last '.' of the file name closes the stem, unless it opens the name
    let mut d: usize = n;
    let mut found_d: bool = false;
    while d > start && !found_d
        invariant
            start <= d <= n,
            n == v@.len(),
            name == v@.subrange(start as int, n as int),
            found_d ==> d < n && v@[d as int] == '.',
            !found_d ==> forall|i: int| #![trigger v@[i]] d <= i < n ==> v@[i] != '.',
            found_d ==> forall|i: int| #![trigger v@[i]] d < i < n ==> v@[i] != '.',
        decreases d,
    {
        if v[d - 1] == '.' {
            d = d - 1;
            found_d = true;
        } else {
            d = d - 1;
        }
    }
    proof {
        lemma_last_sep(name, '.', '.');
        assert(forall|i: int| 0 <= i < name.len() ==> name[i] == v@[start + i]);
        let g = last_sep(name, '.', '.');
        if found_d {
            if g > d - start {
                assert(name[g] != '.');
                assert(false);
            }
            if g < d - start {
                assert(name[d - start] != '.');
                assert(false);
            }
        } else {
            if g >= 0 {
                assert(name[g] != '.');
                assert(false);
            }
        }
    }
    let stop: usize = if found_d && d > start {
        d
    } else {
        n
    };
    let mut out: Vec<char> = Vec::new();
    let mut j: usize = start;
    while j < stop
        invariant
            start <= j <= stop <= n,
            n == v@.len(),
            out@ == v@.subrange(start as int, j as int),
        decreases stop - j,
    {
        out.push(v[j]);
        proof {
            assert(v@.subrange(start as int, j + 1) =~= v@.subrange(start as int, j as int).push(
                v@[j as int],
            ));
        }
        j = j + 1;
    }
    proof {
        if found_d && d > start {
            assert(v@.subrange(start as int, d as int) =~= name.subrange(0, d - start));
        } else {
            assert(v@.subrange(start as int, n as int) =~= name);
        }
    }
    string_of(&out)
}

/// The path of a name inside a directory: `dir`, `/`, `name`.
pub fn join_path(dir: &str, name: &str) -> (r: String)
    ensures
        r@ == dir@ + seq!['/'] + name@,
{
    let mut out: String = dir.to_owned();
    out.append("/");
    out.append(name);
    proof {
        reveal_strlit("/");
        assert(out@ =~= dir@ + seq!['/'] + name@);
    }
    out
}

/// The file name of the compiled shared-object artifact of the plugin
/// `stem`: the stem with the platform's shared-object extension.
pub fn artifact_name(stem: &str) -> (r: String)
    ensures
        r@ == stem@ + seq!['.', 's', 'o'],
{
    let mut out: String = stem.to_owned();
    out.append(".so");
    proof {
        reveal_strlit(".so");
        assert(out@ =~= stem@ + seq!['.', 's', 'o']);
    }
    out
}

} // verus!
