//! Name and path arithmetic on plain strings.
//!
//! Paths are UTF-8 strings whose components are separated by `/`. Every
//! function here states its result exactly over the `Seq<char>` views.

use vstd::prelude::*;

verus! {

/// Index right after the last `/` of `p`, or `0` when `p` holds none.
pub open spec fn name_start(p: Seq<char>) -> int
    decreases p.len(),
{
    if p.len() == 0 {
        0
    } else if p[p.len() - 1] == '/' {
        p.len() as int
    } else {
        name_start(p.drop_last())
    }
}

pub proof fn lemma_name_start_facts(p: Seq<char>)
    ensures
        0 <= name_start(p) <= p.len(),
        name_start(p) > 0 ==> p[name_start(p) - 1] == '/',
    decreases p.len(),
{
    if p.len() > 0 && p[p.len() - 1] != '/' {
        lemma_name_start_facts(p.drop_last());
    }
}

/// The part of `p` after its last `/`; all of `p` when it has none.
pub open spec fn file_name_of(p: Seq<char>) -> Seq<char> {
    p.subrange(name_start(p), p.len() as int)
}

/// The part of `p` before its last `/`, the `/` itself excluded;
/// empty when `p` holds no `/`.
pub open spec fn parent_of(p: Seq<char>) -> Seq<char> {
    if name_start(p) == 0 {
        Seq::empty()
    } else {
        p.subrange(0, name_start(p) - 1)
    }
}

/// Index right after the last `/` of `path`, or `0` when it holds none.
pub fn name_start_index(path: &str) -> (r: usize)
    ensures
        r == name_start(path@),
        r <= path@.len(),
{
    let n: usize = path.unicode_len();
    let mut start: usize = 0;
    let mut i: usize = 0;
    proof {
        assert(path@.take(0) =~= Seq::<char>::empty());
    }
    while i < n
        invariant
            i <= n,
            n == path@.len(),
            start <= i,
            start == name_start(path@.take(i as int)),
        decreases n - i,
    {
        let c = path.get_char(i);
        proof {
            assert(path@.take(i + 1).drop_last() =~= path@.take(i as int));
        }
        if c == '/' {
            start = i + 1;
        }
        i += 1;
    }
    proof {
        assert(path@.take(n as int) =~= path@);
    }
    start
}

/// The file name component of `path`: what follows its last `/`.
pub fn get_file_name(path: &str) -> (r: &str)
    ensures
        r@ == file_name_of(path@),
{
    let n: usize = path.unicode_len();
    let start = name_start_index(path);
    path.substring_char(start, n)
}

/// The parent of `path`: what precedes its last `/`; empty at the top.
pub fn get_parent(path: &str) -> (r: &str)
    ensures
        r@ == parent_of(path@),
{
    let start = name_start_index(path);
    if start == 0 {
        path.substring_char(0, 0)
    } else {
        path.substring_char(0, start - 1)
    }
}

/// Length of the stem of a file name `name`: everything before its last
/// `.`, except that a dot in the leading position starts no extension.
pub open spec fn stem_len(name: Seq<char>) -> int
    decreases name.len(),
{
    if name.len() <= 1 {
        name.len() as int
    } else if name[name.len() - 1] == '.' {
        name.len() - 1
    } else if stem_len(name.drop_last()) == name.len() - 1 {
        name.len() as int
    } else {
        stem_len(name.drop_last())
    }
}

/// The stem of the file name component of `p`.
pub open spec fn file_stem_of(p: Seq<char>) -> Seq<char> {
    let name = file_name_of(p);
    name.subrange(0, stem_len(name))
}

/// The stem of the file name `name`: `name` cut at `stem_len(name@)`.
pub fn stem_of_name(name: &str) -> (r: &str)
    ensures
        r@ == name@.subrange(0, stem_len(name@)),
{
    let n: usize = name.unicode_len();
    let mut s: usize = 0;
    let mut i: usize = 0;
    proof {
        assert(name@.take(0) =~= Seq::<char>::empty());
    }
    while i < n
        invariant
            i <= n,
            n == name@.len(),
            s <= i,
            s == stem_len(name@.take(i as int)),
        decreases n - i,
    {
        let c = name.get_char(i);
        proof {
            assert(name@.take(i + 1).drop_last() =~= name@.take(i as int));
        }
        if i == 0 {
            s = 1;
        } else if c == '.' {
            s = i;
        } else if s == i {
            s = i + 1;
        }
        i += 1;
    }
    proof {
        assert(name@.take(n as int) =~= name@);
    }
    name.substring_char(0, s)
}

/// The stem of the file name component of `path`.
pub fn get_file_stem(path: &str) -> (r: &str)
    ensures
        r@ == file_stem_of(path@),
{
    let name = get_file_name(path);
    stem_of_name(name)
}

/// Whether `suf` is a suffix of `s`.
pub open spec fn is_suffix_of(suf: Seq<char>, s: Seq<char>) -> bool {
    suf.len() <= s.len() && s.subrange(s.len() - suf.len(), s.len() as int) == suf
}

/// Whether `pre` is a prefix of `s`.
pub open spec fn is_prefix_of(pre: Seq<char>, s: Seq<char>) -> bool {
    pre.len() <= s.len() && s.subrange(0, pre.len() as int) == pre
}

pub fn str_ends_with(s: &str, suffix: &str) -> (r: bool)
    ensures
        r == is_suffix_of(suffix@, s@),
{
    let n: usize = s.unicode_len();
    let m: usize = suffix.unicode_len();
    if m > n {
        return false;
    }
    let tail = s.substring_char(n - m, n);
    str_eq(tail, suffix)
}

pub fn str_starts_with(s: &str, prefix: &str) -> (r: bool)
    ensures
        r == is_prefix_of(prefix@, s@),
{
    let n: usize = s.unicode_len();
    let m: usize = prefix.unicode_len();
    if m > n {
        return false;
    }
    let head = s.substring_char(0, m);
    str_eq(head, prefix)
}

/// `name` with the suffix `suf` cut off when it ends with it,
/// `name` itself otherwise.
pub open spec fn suffix_stripped(name: Seq<char>, suf: Seq<char>) -> Seq<char> {
    if is_suffix_of(suf, name) {
        name.subrange(0, name.len() - suf.len())
    } else {
        name
    }
}

pub fn strip_suffix_or_self<'a>(name: &'a str, suffix: &str) -> (r: &'a str)
    ensures
        r@ == suffix_stripped(name@, suffix@),
{
    let n: usize = name.unicode_len();
    let m: usize = suffix.unicode_len();
    if str_ends_with(name, suffix) {
        name.substring_char(0, n - m)
    } else {
        name
    }
}

/// `a` and `b` joined with a single `/` between them.
pub open spec fn joined(a: Seq<char>, b: Seq<char>) -> Seq<char> {
    a + seq!['/'] + b
}

pub fn path_join(a: &str, b: &str) -> (r: String)
    ensures
        r@ == joined(a@, b@),
{
    proof {
        reveal_strlit("/");
        assert(("/")@ =~= seq!['/']);
    }
    let s = a.to_owned().concat("/");
    s.concat(b)
}

/// `p` with its file name component replaced by `name`: everything up to
/// and including the last `/` of `p`, then `name`.
pub open spec fn with_name_of(p: Seq<char>, name: Seq<char>) -> Seq<char> {
    p.take(name_start(p)) + name
}

pub fn with_file_name(path: &str, name: &str) -> (r: String)
    ensures
        r@ == with_name_of(path@, name@),
{
    let start = name_start_index(path);
    let prefix = path.substring_char(0, start);
    proof {
        assert(prefix@ =~= path@.take(name_start(path@)));
    }
    prefix.to_owned().concat(name)
}

/// `p` with every `*` replaced by `r`.
pub open spec fn star_expanded(p: Seq<char>, r: Seq<char>) -> Seq<char>
    decreases p.len(),
{
    if p.len() == 0 {
        Seq::empty()
    } else if p[0] == '*' {
        r + star_expanded(p.skip(1), r)
    } else {
        seq![p[0]] + star_expanded(p.skip(1), r)
    }
}

pub fn expand_star(pattern: &str, name: &str) -> (r: String)
    ensures
        r@ == star_expanded(pattern@, name@),
{
    let n: usize = pattern.unicode_len();
    let mut acc = String::new();
    let mut i: usize = 0;
    proof {
        assert(pattern@.skip(0) =~= pattern@);
        assert(acc@ + star_expanded(pattern@, name@) =~= star_expanded(pattern@, name@));
    }
    while i < n
        invariant
            i <= n,
            n == pattern@.len(),
            acc@ + star_expanded(pattern@.skip(i as int), name@) == star_expanded(
                pattern@,
                name@,
            ),
        decreases n - i,
    {
        let c = pattern.get_char(i);
        proof {
            assert(pattern@.skip(i as int)[0] == pattern@[i as int]);
            assert(pattern@.skip(i as int).skip(1) =~= pattern@.skip(i + 1));
        }
        if c == '*' {
            acc.append(name);
        } else {
            let piece = pattern.substring_char(i, i + 1);
            proof {
                assert(piece@ =~= seq![pattern@[i as int]]);
            }
            acc.append(piece);
        }
        i += 1;
    }
    proof {
        assert(pattern@.skip(n as int) =~= Seq::<char>::empty());
        assert(acc@ + star_expanded(pattern@.skip(n as int), name@) =~= acc@);
    }
    acc
}

/// `s` with every occurrence of `pat` replaced by `rep`, scanning from
/// the left and never rescanning replaced text.
pub open spec fn replaced(s: Seq<char>, pat: Seq<char>, rep: Seq<char>) -> Seq<char>
    decreases s.len(),
{
    if pat.len() == 0 || s.len() < pat.len() {
        s
    } else if s.subrange(0, pat.len() as int) == pat {
        rep + replaced(s.skip(pat.len() as int), pat, rep)
    } else {
        seq![s[0]] + replaced(s.skip(1), pat, rep)
    }
}

pub fn replace_all(s: &str, pat: &str, rep: &str) -> (r: String)
    ensures
        r@ == replaced(s@, pat@, rep@),
{
    let n: usize = s.unicode_len();
    let m: usize = pat.unicode_len();
    if m == 0 {
        return s.to_owned();
    }
    let mut acc = String::new();
    let mut i: usize = 0;
    proof {
        assert(s@.skip(0) =~= s@);
        assert(acc@ + replaced(s@, pat@, rep@) =~= replaced(s@, pat@, rep@));
    }
    while i < n
        invariant
            i <= n,
            n == s@.len(),
            m == pat@.len(),
            m > 0,
            acc@ + replaced(s@.skip(i as int), pat@, rep@) == replaced(s@, pat@, rep@),
        decreases n - i,
    {
        let matches_here = if m <= n - i {
            let window = s.substring_char(i, i + m);
            proof {
                assert(window@ =~= s@.skip(i as int).subrange(0, m as int));
            }
            str_eq(window, pat)
        } else {
            proof {
                assert(s@.skip(i as int).len() < m);
            }
            false
        };
        if matches_here {
            proof {
                assert(s@.skip(i as int).skip(m as int) =~= s@.skip(i + m));
            }
            acc.append(rep);
            i += m;
        } else {
            proof {
                assert(s@.skip(i as int)[0] == s@[i as int]);
                assert(s@.skip(i as int).skip(1) =~= s@.skip(i + 1));
            }
            let piece = s.substring_char(i, i + 1);
            proof {
                assert(piece@ =~= seq![s@[i as int]]);
            }
            acc.append(piece);
            i += 1;
        }
    }
    proof {
        assert(s@.skip(n as int) =~= Seq::<char>::empty());
        assert(acc@ + replaced(s@.skip(n as int), pat@, rep@) =~= acc@);
    }
    acc
}

/// Whether `k` is `prefix` itself or lies below it, component-wise.
pub open spec fn under(prefix: Seq<char>, k: Seq<char>) -> bool {
    k == prefix || is_prefix_of(prefix + seq!['/'], k)
}

pub proof fn lemma_under_decomp(prefix: Seq<char>, k: Seq<char>)
    requires
        under(prefix, k),
    ensures
        k.len() >= prefix.len(),
        k == prefix + k.skip(prefix.len() as int),
{
    if k == prefix {
        assert(k =~= prefix + k.skip(prefix.len() as int));
    } else {
        assert(k.subrange(0, prefix.len() as int + 1) == prefix + seq!['/']);
        assert(forall|i: int|
            0 <= i < prefix.len() ==> k[i] == (prefix + seq!['/'])[i]);
        assert(k =~= prefix + k.skip(prefix.len() as int));
    }
}

/// Lying below a prefix carries over to anything below in turn.
pub proof fn lemma_under_trans(a: Seq<char>, b: Seq<char>, k: Seq<char>)
    requires
        under(a, b),
        under(b, k),
    ensures
        under(a, k),
{
    if b == a || k == b {
    } else {
        assert(b.subrange(0, a.len() as int + 1) == a + seq!['/']);
        assert(k.subrange(0, b.len() as int + 1) == b + seq!['/']);
        assert((a + seq!['/']).len() == a.len() + 1);
        assert((b + seq!['/']).len() == b.len() + 1);
        assert(k.subrange(0, a.len() as int + 1) =~= a + seq!['/']) by {
            assert(forall|i: int|
                0 <= i < b.len() + 1 ==> k[i] == (b + seq!['/'])[i]) by {
                assert(forall|i: int|
                    0 <= i < b.len() + 1 ==> k[i] == k.subrange(
                        0,
                        b.len() as int + 1,
                    )[i]);
            }
            assert(forall|i: int|
                0 <= i < a.len() + 1 ==> b[i] == (a + seq!['/'])[i]) by {
                assert(forall|i: int|
                    0 <= i < a.len() + 1 ==> b[i] == b.subrange(
                        0,
                        a.len() as int + 1,
                    )[i]);
            }
        }
    }
}

/// A direct child path lies below its parent and differs from it.
pub proof fn lemma_child_under(parent: Seq<char>, k: Seq<char>)
    requires
        parent.len() > 0,
        parent_of(k) == parent,
        k.len() > parent.len(),
    ensures
        under(parent, k),
        k != parent,
{
    lemma_name_start_facts(k);
    if name_start(k) == 0 {
        assert(parent_of(k).len() == 0);
    }
    assert(k.subrange(0, name_start(k) - 1) == parent);
    assert(name_start(k) - 1 == parent.len());
    assert(k[parent.len() as int] == '/');
    assert(k.subrange(0, parent.len() as int + 1) =~= parent + seq!['/']);
    assert(is_prefix_of(parent + seq!['/'], k));
}

pub fn is_under(k: &str, prefix: &str) -> (r: bool)
    ensures
        r == under(prefix@, k@),
{
    if str_eq(k, prefix) {
        return true;
    }
    proof {
        reveal_strlit("/");
        assert(("/")@ =~= seq!['/']);
    }
    let p = prefix.to_owned().concat("/");
    str_starts_with(k, p.as_str())
}

/// Whether two string slices hold the same characters.
pub fn str_eq(a: &str, b: &str) -> (r: bool)
    ensures
        r == (a@ == b@),
{
    let an: usize = a.unicode_len();
    let bn: usize = b.unicode_len();
    if an != bn {
        return false;
    }
    let mut i: usize = 0;
    while i < an
        invariant
            i <= an,
            an == a@.len(),
            an == b@.len(),
            forall|j: int| 0 <= j < i ==> a@[j] == b@[j],
        decreases an - i,
    {
        if a.get_char(i) != b.get_char(i) {
            return false;
        }
        i += 1;
    }
    proof {
        assert(a@ =~= b@);
    }
    true
}

/// What `path_clean` makes of a path: its purely lexical normal form.
pub uninterp spec fn cleaned(p: Seq<char>) -> Seq<char>;

/// Relies on path_clean::clean: a purely lexical path cleanup
/// (collapsing repeated separators and resolving `.` and `..`)
/// whose result depends on the path alone; an empty result is
/// rendered as the current directory, so the result is never empty.
#[verifier::external_body]
pub(crate) fn clean_path(p: &str) -> (r: String)
    ensures
        r@ == cleaned(p@),
        r@.len() > 0,
{
    path_clean::clean(p).to_string_lossy().into_owned()
}

} // verus!
