//! The plugin manifest: a small line-based key-value table read from a
//! plugin's source checkout. It may carry an integer `priority` at top
//! level and a `dependencies` table whose named entries each carry a
//! `git` remote URL in a `[dependencies.<name>]` section.

use vstd::prelude::*;
use crate::compositer::CompositerError;
use crate::text::{
    chars_of, int_grammar, int_value, lines_of, parse_i64, spec_trim, split_lines, string_of, trim,
};
use crate::identifier::first_sep;

verus! {

/// The key that sets a plugin's default priority.
pub open spec fn priority_key() -> Seq<char> {
    seq!['p', 'r', 'i', 'o', 'r', 'i', 't', 'y']
}

/// The key that carries a dependency's remote URL.
pub open spec fn git_key() -> Seq<char> {
    seq!['g', 'i', 't']
}

/// What opens a dependency section name: `dependencies.`.
pub open spec fn dep_prefix() -> Seq<char> {
    seq!['d', 'e', 'p', 'e', 'n', 'd', 'e', 'n', 'c', 'i', 'e', 's', '.']
}

/// A manifest value: an integer, a quoted string, or neither.
pub enum ValKind {
    /// An optionally signed decimal integer that fits `i64`.
    Int(i64),
    /// A double-quoted string without inner quotes.
    Text(Seq<char>),
    /// Anything else.
    Bad,
}

/// One manifest line, classified.
pub enum LineKind {
    /// Empty, all blank, or a `#` comment.
    Blank,
    /// A `[section]` header outside the dependency table.
    OtherSection,
    /// A `[dependencies.<name>]` header, with its nonempty name.
    DepSection(Seq<char>),
    /// A `<key> = <value>` binding, with its nonempty key.
    KeyVal(Seq<char>, ValKind),
    /// Anything else.
    Bad,
}

/// The value a manifest line binds: a quoted string, an integer, or
/// neither.
pub open spec fn classify_val(v: Seq<char>) -> ValKind {
    if v.len() >= 2 && v[0] == '"' && v.last() == '"' && (forall|i: int|
        1 <= i < v.len() - 1 ==> v[i] != '"') {
        ValKind::Text(v.subrange(1, v.len() - 1))
    } else if int_grammar(v) && i64::MIN <= int_value(v) <= i64::MAX {
        ValKind::Int(int_value(v) as i64)
    } else {
        ValKind::Bad
    }
}

/// One manifest line, classified after trimming: blank or comment, a
/// section header, or a key-value binding.
pub open spec fn classify(line: Seq<char>) -> LineKind {
    let t = spec_trim(line);
    if t.len() == 0 {
        LineKind::Blank
    } else if t[0] == '#' {
        LineKind::Blank
    } else if t[0] == '[' {
        if t.len() >= 2 && t.last() == ']' {
            let inner = t.subrange(1, t.len() - 1);
            if inner.len() > dep_prefix().len() && inner.subrange(0, dep_prefix().len() as int)
                == dep_prefix() {
                LineKind::DepSection(inner.subrange(dep_prefix().len() as int, inner.len() as int))
            } else {
                LineKind::OtherSection
            }
        } else {
            LineKind::Bad
        }
    } else if 0 <= first_sep(t, '=') < t.len() {
        let e = first_sep(t, '=');
        let key = spec_trim(t.subrange(0, e));
        let val = spec_trim(t.subrange(e + 1, t.len() as int));
        if key.len() == 0 {
            LineKind::Bad
        } else {
            LineKind::KeyVal(key, classify_val(val))
        }
    } else {
        LineKind::Bad
    }
}

/// Which table the reader stands in.
pub enum Section {
    /// Before any section header.
    Top,
    /// Inside the last-opened `[dependencies.<name>]` section.
    Dep,
    /// Inside any other section.
    Other,
}

/// The reader's state: the section, the priority read so far, and the
/// dependencies read so far as `(name, git URL)` pairs.
pub struct ReadState {
    pub sect: Section,
    pub priority: Option<i64>,
    pub deps: Seq<(Seq<char>, Option<Seq<char>>)>,
}

/// The empty reader state.
pub open spec fn read_init() -> ReadState {
    ReadState { sect: Section::Top, priority: None, deps: Seq::empty() }
}

/// One line's effect on the reader. A malformed line is `ParseManifest`;
/// a second or non-integer top-level `priority` is `ParseManifest` or
/// `ParseInteger`; a non-string `git` is ignored, as are unknown keys.
pub open spec fn spec_step(st: ReadState, line: Seq<char>) -> Result<ReadState, CompositerError> {
    match classify(line) {
        LineKind::Blank => Ok(st),
        LineKind::OtherSection => Ok(ReadState { sect: Section::Other, ..st }),
        LineKind::DepSection(name) => Ok(
            ReadState { sect: Section::Dep, deps: st.deps.push((name, None)), ..st },
        ),
        LineKind::KeyVal(key, val) => {
            if val is Bad {
                Err(CompositerError::ParseManifest)
            } else if st.sect is Top && key == priority_key() {
                if st.priority is Some {
                    Err(CompositerError::ParseManifest)
                } else if val is Int {
                    Ok(ReadState { priority: Some(val->Int_0), ..st })
                } else {
                    Err(CompositerError::ParseInteger)
                }
            } else if st.sect is Dep && key == git_key() && st.deps.len() > 0 {
                if val is Text {
                    Ok(
                        ReadState {
                            deps: st.deps.update(
                                st.deps.len() - 1,
                                (st.deps.last().0, Some(val->Text_0)),
                            ),
                            ..st
                        },
                    )
                } else {
                    Ok(st)
                }
            } else {
                Ok(st)
            }
        },
        LineKind::Bad => Err(CompositerError::ParseManifest),
    }
}

/// The reader folded over the remaining lines.
pub open spec fn spec_fold(lines: Seq<Seq<char>>, st: ReadState) -> Result<
    ReadState,
    CompositerError,
>
    decreases lines.len(),
{
    if lines.len() == 0 {
        Ok(st)
    } else {
        match spec_step(st, lines[0]) {
            Ok(st2) => spec_fold(lines.drop_first(), st2),
            Err(e) => Err(e),
        }
    }
}

/// The manifest that `text` describes, or the first error its lines give.
pub open spec fn spec_manifest(text: Seq<char>) -> Result<ReadState, CompositerError> {
    spec_fold(lines_of(text), read_init())
}

/// One dependency entry: its name and, when given, its `git` remote URL.
#[derive(Clone, Debug)]
pub struct Dependency {
    /// The entry's name in the dependency table.
    pub name: String,
    /// The `git` remote URL of the entry, when one was given.
    pub git: Option<String>,
}

/// A parsed manifest: the optional priority and the dependency entries,
/// in order of appearance.
#[derive(Clone, Debug)]
pub struct Manifest {
    /// The top-level `priority`, when the manifest sets one.
    pub priority: Option<i64>,
    /// The entries of the `dependencies` table.
    pub dependencies: Vec<Dependency>,
}

impl Manifest {
    /// The dependency entries as `(name, git URL)` pairs.
    pub open spec fn deps_view(&self) -> Seq<(Seq<char>, Option<Seq<char>>)> {
        self.dependencies@.map_values(
            |d: Dependency|
                (
                    d.name@,
                    match d.git {
                        Some(g) => Some(g@),
                        None => None,
                    },
                ),
        )
    }

    /// The priority to mount with: the explicit one when given, else the
    /// manifest's, else zero.
    pub fn resolve_priority(&self, given: Option<i64>) -> (r: i64)
        ensures
            r == (match given {
                Some(p) => p,
                None => match self.priority {
                    Some(p) => p,
                    None => 0,
                },
            }),
    {
        match given {
            Some(p) => p,
            None => match self.priority {
                Some(p) => p,
                None => 0,
            },
        }
    }

    /// Reads a manifest. `ParseManifest` on the first malformed line or
    /// repeated priority; `ParseInteger` on a non-integer priority.
    pub fn parse(text: &str) -> (r: Result<Manifest, CompositerError>)
        ensures
            match r {
                Ok(m) => spec_manifest(text@) is Ok && m.priority == spec_manifest(
                    text@,
                )->Ok_0.priority && m.deps_view() == spec_manifest(text@)->Ok_0.deps,
                Err(e) => spec_manifest(text@) == Err::<ReadState, CompositerError>(e),
            },
    {
        let v: Vec<char> = chars_of(text);
        let lines: Vec<Vec<char>> = split_lines(&v);
        let ghost lv = lines@.map_values(|l: Vec<char>| l@);
        let n: usize = lines.len();
        let mut sect_top: bool = true;
        let mut sect_dep: bool = false;
        let mut priority: Option<i64> = None;
        let mut deps: Vec<Dependency> = Vec::new();
        let mut i: usize = 0;
        proof {
            assert(lv.subrange(0, n as int) =~= lv);
            assert(Manifest { priority: None, dependencies: deps }.deps_view() =~= Seq::<
                (Seq<char>, Option<Seq<char>>),
            >::empty());
        }
        while i < n
            invariant
                i <= n,
                n == lines@.len(),
                lv == lines@.map_values(|l: Vec<char>| l@),
                lv == lines_of(text@),
                spec_fold(lv, read_init()) == spec_fold(
                    lv.subrange(i as int, n as int),
                    ReadState {
                        sect: if sect_top {
                            Section::Top
                        } else if sect_dep {
                            Section::Dep
                        } else {
                            Section::Other
                        },
                        priority,
                        deps: Manifest { priority, dependencies: deps }.deps_view(),
                    },
                ),
                !(sect_top && sect_dep),
            decreases n - i,
        {
            let ghost pre = ReadState {
                sect: if sect_top {
                    Section::Top
                } else if sect_dep {
                    Section::Dep
                } else {
                    Section::Other
                },
                priority,
                deps: Manifest { priority, dependencies: deps }.deps_view(),
            };
            proof {
                assert(lv.subrange(i as int, n as int).len() > 0);
                assert(lv.subrange(i as int, n as int)[0] == lv[i as int]);
                assert(lv.subrange(i as int, n as int).drop_first() =~= lv.subrange(
                    i + 1,
                    n as int,
                ));
                assert(lv[i as int] == lines@[i as int]@);
            }
            let line: ParsedLine = classify_line(&lines[i]);
            match line {
                ParsedLine::Blank => {},
                ParsedLine::OtherSection => {
                    sect_top = false;
                    sect_dep = false;
                },
                ParsedLine::DepSection(name) => {
                    sect_top = false;
                    sect_dep = true;
                    deps.push(Dependency { name: string_of(&name), git: None });
                    proof {
                        assert(Manifest { priority, dependencies: deps }.deps_view()
                            =~= pre.deps.push((name@, None)));
                    }
                },
                ParsedLine::KeyVal(key, val) => {
                    match val {
                        ParsedVal::Bad => {
                            return Err(CompositerError::ParseManifest);
                        },
                        ParsedVal::Int(p) => {
                            if sect_top && is_priority_key(&key) {
                                if priority.is_some() {
                                    return Err(CompositerError::ParseManifest);
                                }
                                priority = Some(p);
                                proof {
                                    assert(Manifest {
                                        priority,
                                        dependencies: deps,
                                    }.deps_view() =~= pre.deps);
                                }
                            } else if sect_dep && is_git_key(&key) && deps.len() > 0 {
                                // a non-string `git` value is ignored
                            }
                        },
                        ParsedVal::Text(t) => {
                            if sect_top && is_priority_key(&key) {
                                if priority.is_some() {
                                    return Err(CompositerError::ParseManifest);
                                }
                                return Err(CompositerError::ParseInteger);
                            } else if sect_dep && is_git_key(&key) && deps.len() > 0 {
                                let last: usize = deps.len() - 1;
                                let depname: String = deps[last].name.clone();
                                deps[last] = Dependency {
                                    name: depname,
                                    git: Some(string_of(&t)),
                                };
                                proof {
                                    assert(Manifest {
                                        priority,
                                        dependencies: deps,
                                    }.deps_view() =~= pre.deps.update(
                                        pre.deps.len() - 1,
                                        (pre.deps.last().0, Some(t@)),
                                    ));
                                }
                            }
                        },
                    }
                },
                ParsedLine::Bad => {
                    return Err(CompositerError::ParseManifest);
                },
            }
            i = i + 1;
        }
        proof {
            assert(lv.subrange(n as int, n as int) =~= Seq::<Seq<char>>::empty());
        }
        Ok(Manifest { priority, dependencies: deps })
    }
}

/// One manifest line as the parser hands it on.
pub enum ParsedLine {
    Blank,
    OtherSection,
    DepSection(Vec<char>),
    KeyVal(Vec<char>, ParsedVal),
    Bad,
}

/// One manifest value as the parser hands it on.
pub enum ParsedVal {
    Int(i64),
    Text(Vec<char>),
    Bad,
}

/// The `LineKind` that a `ParsedLine` stands for.
pub open spec fn parsed_view(p: ParsedLine) -> LineKind {
    match p {
        ParsedLine::Blank => LineKind::Blank,
        ParsedLine::OtherSection => LineKind::OtherSection,
        ParsedLine::DepSection(name) => LineKind::DepSection(name@),
        ParsedLine::KeyVal(key, val) => LineKind::KeyVal(
            key@,
            match val {
                ParsedVal::Int(n) => ValKind::Int(n),
                ParsedVal::Text(t) => ValKind::Text(t@),
                ParsedVal::Bad => ValKind::Bad,
            },
        ),
        ParsedLine::Bad => LineKind::Bad,
    }
}

/// Whether `key` is the `priority` key.
fn is_priority_key(key: &Vec<char>) -> (r: bool)
    ensures
        r == (key@ == priority_key()),
{
    if key.len() != 8 {
        proof {
            assert(key@ != priority_key());
        }
        return false;
    }
    let r = key[0] == 'p' && key[1] == 'r' && key[2] == 'i' && key[3] == 'o' && key[4] == 'r'
        && key[5] == 'i' && key[6] == 't' && key[7] == 'y';
    proof {
        if r {
            assert(key@ =~= priority_key());
        } else {
            assert(key@ != priority_key());
        }
    }
    r
}

/// Whether `key` is the `git` key.
fn is_git_key(key: &Vec<char>) -> (r: bool)
    ensures
        r == (key@ == git_key()),
{
    if key.len() != 3 {
        proof {
            assert(key@ != git_key());
        }
        return false;
    }
    let r = key[0] == 'g' && key[1] == 'i' && key[2] == 't';
    proof {
        if r {
            assert(key@ =~= git_key());
        } else {
            assert(key@ != git_key());
        }
    }
    r
}

/// Classifies one line, as `classify` defines it.
pub fn classify_line(line: &Vec<char>) -> (r: ParsedLine)
    ensures
        parsed_view(r) == classify(line@),
{
    let t: Vec<char> = trim(line);
    let n: usize = t.len();
    if n == 0 {
        return ParsedLine::Blank;
    }
    if t[0] == '#' {
        return ParsedLine::Blank;
    }
    if t[0] == '[' {
        if n < 2 || t[n - 1] != ']' {
            return ParsedLine::Bad;
        }
        let mut inner: Vec<char> = Vec::new();
        let mut j: usize = 1;
        while j < n - 1
            invariant
                1 <= j <= n - 1,
                n == t@.len(),
                inner@ == t@.subrange(1, j as int),
            decreases n - 1 - j,
        {
            inner.push(t[j]);
            proof {
                assert(t@.subrange(1, j + 1) =~= t@.subrange(1, j as int).push(t@[j as int]));
            }
            j = j + 1;
        }
        let m: usize = inner.len();
        if m > 13 && inner[0] == 'd' && inner[1] == 'e' && inner[2] == 'p' && inner[3] == 'e'
            && inner[4] == 'n' && inner[5] == 'd' && inner[6] == 'e' && inner[7] == 'n'
            && inner[8] == 'c' && inner[9] == 'i' && inner[10] == 'e' && inner[11] == 's'
            && inner[12] == '.' {
            proof {
                assert(inner@.subrange(0, 13) =~= dep_prefix());
            }
            let mut name: Vec<char> = Vec::new();
            let mut k: usize = 13;
            while k < m
                invariant
                    13 <= k <= m,
                    m == inner@.len(),
                    name@ == inner@.subrange(13, k as int),
                decreases m - k,
            {
                name.push(inner[k]);
                proof {
                    assert(inner@.subrange(13, k + 1) =~= inner@.subrange(13, k as int).push(
                        inner@[k as int],
                    ));
                }
                k = k + 1;
            }
            return ParsedLine::DepSection(name);
        } else {
            proof {
                if inner@.len() > 13 && inner@.subrange(0, 13) == dep_prefix() {
                    assert(inner@[0] == 'd' && inner@[1] == 'e' && inner@[2] == 'p'
                        && inner@[3] == 'e' && inner@[4] == 'n' && inner@[5] == 'd'
                        && inner@[6] == 'e' && inner@[7] == 'n' && inner@[8] == 'c'
                        && inner@[9] == 'i' && inner@[10] == 'e' && inner@[11] == 's'
                        && inner@[12] == '.') by {
                        assert(forall|x: int| 0 <= x < 13 ==> inner@.subrange(0, 13)[x]
                            == inner@[x]);
                    }
                }
            }
            return ParsedLine::OtherSection;
        }
    }
    // a key-value binding needs an `=`
    proof {
        crate::identifier::lemma_first_sep(t@, '=');
    }
    let mut e: usize = 0;
    while e < n && t[e] != '='
        invariant
            e <= n,
            n == t@.len(),
            forall|j: int| #![trigger t@[j]] 0 <= j < e ==> t@[j] != '=',
        decreases n - e,
    {
        e = e + 1;
    }
    proof {
        crate::identifier::lemma_first_sep(t@, '=');
        let g = first_sep(t@, '=');
        if e < n {
            if g == -1 || g > e as int {
                assert(t@[e as int] != '=');
                assert(false);
            }
            if 0 <= g < e as int {
                assert(t@[g] != '=');
                assert(false);
            }
        } else {
            if g >= 0 {
                assert(t@[g] != '=');
                assert(false);
            }
        }
    }
    if e == n {
        return ParsedLine::Bad;
    }
    let mut rawkey: Vec<char> = Vec::new();
    let mut a: usize = 0;
    while a < e
        invariant
            a <= e <= n,
            n == t@.len(),
            rawkey@ == t@.subrange(0, a as int),
        decreases e - a,
    {
        rawkey.push(t[a]);
        proof {
            assert(t@.subrange(0, a + 1) =~= t@.subrange(0, a as int).push(t@[a as int]));
        }
        a = a + 1;
    }
    let mut rawval: Vec<char> = Vec::new();
    let mut b: usize = e + 1;
    while b < n
        invariant
            e + 1 <= b <= n,
            n == t@.len(),
            rawval@ == t@.subrange(e + 1, b as int),
        decreases n - b,
    {
        rawval.push(t[b]);
        proof {
            assert(t@.subrange(e + 1, b + 1) =~= t@.subrange(e + 1, b as int).push(t@[b as int]));
        }
        b = b + 1;
    }
    let key: Vec<char> = trim(&rawkey);
    let val: Vec<char> = trim(&rawval);
    if key.len() == 0 {
        return ParsedLine::Bad;
    }
    ParsedLine::KeyVal(key, classify_value(&val))
}

/// Classifies one value, as `classify_val` defines it.
fn classify_value(v: &Vec<char>) -> (r: ParsedVal)
    ensures
        (match r {
            ParsedVal::Int(p) => ValKind::Int(p),
            ParsedVal::Text(s) => ValKind::Text(s@),
            ParsedVal::Bad => ValKind::Bad,
        }) == classify_val(v@),
{
    let n: usize = v.len();
    if n >= 2 && v[0] == '"' && v[n - 1] == '"' {
        let mut inner: Vec<char> = Vec::new();
        let mut ok: bool = true;
        let mut j: usize = 1;
        while j < n - 1
            invariant
                1 <= j <= n - 1,
                n == v@.len(),
                inner@ == v@.subrange(1, j as int),
                ok == (forall|k: int| 1 <= k < j ==> v@[k] != '"'),
            decreases n - 1 - j,
        {
            if v[j] == '"' {
                ok = false;
            }
            inner.push(v[j]);
            proof {
                assert(v@.subrange(1, j + 1) =~= v@.subrange(1, j as int).push(v@[j as int]));
            }
            j = j + 1;
        }
        if ok {
            return ParsedVal::Text(inner);
        }
        proof {
            let w = choose|k: int| 1 <= k < n - 1 && v@[k] == '"';
            assert(!int_grammar(v@)) by {
                if int_grammar(v@) {
                    assert(v@[0] == '"');
                    assert(false);
                }
            }
        }
        return ParsedVal::Bad;
    }
    match parse_i64(v) {
        Some(p) => ParsedVal::Int(p),
        None => ParsedVal::Bad,
    }
}

} // verus!
