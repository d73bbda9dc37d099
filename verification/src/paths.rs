//! Unix path text: joining, the file name, its stem and its extension.
//!
//! Paths are held as text. The rules are those of `std::path::Path` on Unix: `/`
//! separates components, empty and `.` components are skipped, and a path that
//! starts with `/` is absolute.
use vstd::prelude::*;

verus! {

/// The index of the last occurrence of `c` in `s`, or -1.
pub open spec fn last_index_of(s: Seq<char>, c: char) -> int
    decreases s.len(),
{
    if s.len() == 0 {
        -1
    } else if s.last() == c {
        s.len() - 1
    } else {
        last_index_of(s.drop_last(), c)
    }
}

/// What `last_index_of` finds: an occurrence with none after it.
pub proof fn lemma_last_index_of(s: Seq<char>, c: char)
    ensures
        -1 <= last_index_of(s, c) < s.len(),
        last_index_of(s, c) >= 0 ==> s[last_index_of(s, c)] == c,
        forall|i: int| last_index_of(s, c) < i < s.len() ==> s[i] != c,
    decreases s.len(),
{
    if s.len() > 0 && s.last() != c {
        lemma_last_index_of(s.drop_last(), c);
        assert forall|i: int| last_index_of(s, c) < i < s.len() implies s[i] != c by {
            if i < s.len() - 1 {
                assert(s.drop_last()[i] == s[i]);
            }
        }
    }
}

/// An occurrence of `c` (or -1) with none after it is the last one.
pub proof fn lemma_last_index_of_is(s: Seq<char>, c: char, k: int)
    requires
        -1 <= k < s.len(),
        k >= 0 ==> s[k] == c,
        forall|i: int| k < i < s.len() ==> s[i] != c,
    ensures
        last_index_of(s, c) == k,
    decreases s.len(),
{
    if s.len() > 0 && s.last() != c {
        lemma_last_index_of_is(s.drop_last(), c, k);
    }
}

/// Whether the path is absolute: it starts with `/`.
pub open spec fn spec_is_absolute(p: Seq<char>) -> bool {
    p.len() > 0 && p[0] == '/'
}

/// `base` joined with `p`, as `Path::join` does on Unix: an absolute `p` replaces
/// `base`; otherwise a `/` is put between them unless `base` is empty or already
/// ends with one.
pub open spec fn spec_join(base: Seq<char>, p: Seq<char>) -> Seq<char> {
    if spec_is_absolute(p) {
        p
    } else if base.len() > 0 && base.last() != '/' {
        base + seq!['/'] + p
    } else {
        base + p
    }
}

/// Where the last component of `p` lies: from just after the last `/` to the end.
pub open spec fn last_component_start(p: Seq<char>) -> int {
    last_index_of(p, '/') + 1
}

/// Start and end of the file name of `p` inside `p`, as `Path::file_name` finds
/// it: trailing `/` and `.` components are skipped; `..`, the root and the empty
/// path have no file name.
pub open spec fn spec_file_name_range(p: Seq<char>) -> Option<(int, int)>
    decreases p.len(),
{
    if p.len() == 0 {
        None
    } else if p.last() == '/' {
        spec_file_name_range(p.drop_last())
    } else {
        let k = last_component_start(p);
        if k == p.len() - 1 && p[k] == '.' {
            spec_file_name_range(p.subrange(0, k))
        } else if k == p.len() - 2 && p[k] == '.' && p[k + 1] == '.' {
            None
        } else {
            Some((k, p.len() as int))
        }
    }
}

/// The file name of `p`, if it has one.
pub open spec fn spec_file_name(p: Seq<char>) -> Option<Seq<char>> {
    match spec_file_name_range(p) {
        Some((s, e)) => Some(p.subrange(s, e)),
        None => None,
    }
}

/// The stem of a file name: the part before its last `.`, or the whole name where
/// it holds no `.` or only a leading one.
pub open spec fn spec_stem_of(name: Seq<char>) -> Seq<char> {
    let d = last_index_of(name, '.');
    if d <= 0 {
        name
    } else {
        name.subrange(0, d)
    }
}

/// The extension of a file name: the part after its last `.`, where that `.` is
/// not the first character.
pub open spec fn spec_extension_of(name: Seq<char>) -> Option<Seq<char>> {
    let d = last_index_of(name, '.');
    if d <= 0 {
        None
    } else {
        Some(name.subrange(d + 1, name.len() as int))
    }
}

/// `Path::file_stem`.
pub open spec fn spec_file_stem(p: Seq<char>) -> Option<Seq<char>> {
    match spec_file_name(p) {
        Some(n) => Some(spec_stem_of(n)),
        None => None,
    }
}

/// `Path::extension`.
pub open spec fn spec_extension(p: Seq<char>) -> Option<Seq<char>> {
    match spec_file_name(p) {
        Some(n) => spec_extension_of(n),
        None => None,
    }
}

/// `Path::with_extension`: the path cut just after the stem of its file name,
/// then `.` and `ext` where `ext` is not empty. A path without a file name is
/// left as it is.
pub open spec fn spec_with_extension(p: Seq<char>, ext: Seq<char>) -> Seq<char> {
    match spec_file_name_range(p) {
        None => p,
        Some((s, e)) => {
            let stem_end = s + spec_stem_of(p.subrange(s, e)).len();
            if ext.len() == 0 {
                p.subrange(0, stem_end)
            } else {
                p.subrange(0, stem_end) + seq!['.'] + ext
            }
        },
    }
}

/// A plain file name: not empty, without `/`, and neither `.` nor `..`.
pub open spec fn is_plain_name(n: Seq<char>) -> bool {
    &&& n.len() > 0
    &&& forall|i: int| 0 <= i < n.len() ==> n[i] != '/'
    &&& n != seq!['.']
    &&& n != seq!['.', '.']
}

/// Joining a plain file name to any folder gives a path whose file name is that
/// name.
pub proof fn lemma_join_keeps_file_name(base: Seq<char>, n: Seq<char>)
    requires
        is_plain_name(n),
    ensures
        spec_file_name(spec_join(base, n)) == Some(n),
{
    let q = spec_join(base, n);
    let k = q.len() - n.len();
    assert(n[0] != '/');
    assert(q.subrange(k, q.len() as int) =~= n);
    assert forall|i: int| k <= i < q.len() implies q[i] != '/' by {
        assert(q[i] == n[i - k]);
    }
    if k > 0 {
        assert(q[k - 1] == '/');
    }
    lemma_last_index_of_is(q, '/', k - 1);
    assert(q.last() == n[n.len() - 1]);
    if n.len() == 1 {
        assert(n =~= seq![n[0]]);
    }
    if n.len() == 2 {
        assert(n =~= seq![n[0], n[1]]);
    }
}

/// The named components of `p`, in order: the pieces between `/` separators,
/// leaving out empty pieces and `.` pieces (`..` stays).
pub open spec fn spec_pieces(p: Seq<char>) -> Seq<Seq<char>>
    decreases p.len(),
{
    if p.len() == 0 {
        Seq::empty()
    } else {
        let k = last_component_start(p);
        proof {
            lemma_last_index_of(p, '/');
        }
        let comp = p.subrange(k, p.len() as int);
        let rest = if k <= 0 {
            Seq::<Seq<char>>::empty()
        } else {
            spec_pieces(p.subrange(0, k - 1))
        };
        if comp.len() == 0 || comp == seq!['.'] {
            rest
        } else {
            rest.push(comp)
        }
    }
}

/// Whether `p` starts with a `.` component: `.` alone or `./`.
pub open spec fn spec_starts_with_cur_dir(p: Seq<char>) -> bool {
    p.len() > 0 && p[0] == '.' && (p.len() == 1 || p[1] == '/')
}

/// The components of `p`, as `Path::components` gives them on Unix: the root
/// (written `/`) if `p` is absolute, or else a leading current folder (written
/// `.`), then the named components.
pub open spec fn spec_components(p: Seq<char>) -> Seq<Seq<char>> {
    if spec_is_absolute(p) {
        seq![seq!['/']] + spec_pieces(p)
    } else if spec_starts_with_cur_dir(p) {
        seq![seq!['.']] + spec_pieces(p)
    } else {
        spec_pieces(p)
    }
}

/// Whether two paths are equal as paths (`PathBuf == PathBuf`): they have the
/// same components, so that `/a//b/` and `/a/b` are the same path.
pub open spec fn spec_same_path(a: Seq<char>, b: Seq<char>) -> bool {
    spec_components(a) == spec_components(b)
}

/// The file-name range lies inside the path.
proof fn lemma_range_bounds(p: Seq<char>)
    ensures
        spec_file_name_range(p) matches Some((s, e)) ==> 0 <= s < e <= p.len(),
    decreases p.len(),
{
    if p.len() > 0 {
        lemma_last_index_of(p, '/');
        if p.last() == '/' {
            lemma_range_bounds(p.drop_last());
        } else {
            let k = last_component_start(p);
            if k == p.len() - 1 && p[k] == '.' {
                lemma_range_bounds(p.subrange(0, k));
            }
        }
    }
}

/// Whether the path is absolute.
pub fn is_absolute(p: &str) -> (r: bool)
    ensures
        r == spec_is_absolute(p@),
{
    let n = p.unicode_len();
    n > 0 && p.get_char(0) == '/'
}

/// `base` joined with `p` (see `spec_join`).
pub fn path_join(base: &str, p: &str) -> (r: String)
    ensures
        r@ == spec_join(base@, p@),
{
    if is_absolute(p) {
        return String::from_str(p);
    }
    let n = base.unicode_len();
    let mut out = String::from_str(base);
    if n > 0 && base.get_char(n - 1) != '/' {
        let sep = "/";
        proof {
            reveal_strlit("/");
        }
        out.append(sep);
    }
    out.append(p);
    proof {
        assert(out@ =~= spec_join(base@, p@));
    }
    out
}

/// One past the index of the last `c` in `s[0..end]` (0 where there is none),
/// scanning backwards.
fn last_index_in(s: &str, c: char, end: usize) -> (r: usize)
    requires
        end <= s@.len(),
    ensures
        r == last_index_of(s@.subrange(0, end as int), c) + 1,
{
    let mut k: usize = end;
    while k > 0 && s.get_char(k - 1) != c
        invariant
            k <= end <= s@.len(),
            forall|i: int| k <= i < end ==> s@[i] != c,
        decreases k,
    {
        k = k - 1;
    }
    proof {
        let q = s@.subrange(0, end as int);
        lemma_last_index_of_is(q, c, k - 1);
    }
    k
}

/// Start and end of the file name of `p` (see `spec_file_name_range`).
pub fn file_name_range(p: &str) -> (r: Option<(usize, usize)>)
    ensures
        match r {
            Some((s, e)) => spec_file_name_range(p@) == Some((s as int, e as int)),
            None => spec_file_name_range(p@) is None,
        },
{
    let n = p.unicode_len();
    let mut end: usize = n;
    proof {
        assert(p@.subrange(0, n as int) =~= p@);
    }
    loop
        invariant
            end <= p@.len(),
            spec_file_name_range(p@) == spec_file_name_range(p@.subrange(0, end as int)),
        decreases end,
    {
        let ghost q = p@.subrange(0, end as int);
        if end == 0 {
            return None;
        }
        if p.get_char(end - 1) == '/' {
            proof {
                assert(q.drop_last() =~= p@.subrange(0, end - 1));
            }
            end = end - 1;
        } else {
            let r = last_index_in(p, '/', end);
            proof {
                lemma_last_index_of(q, '/');
            }
            let k: usize = r;
            if end - k == 1 && p.get_char(k) == '.' {
                proof {
                    assert(q.subrange(0, k as int) =~= p@.subrange(0, k as int));
                }
                end = k;
            } else if end - k == 2 && p.get_char(k) == '.' && p.get_char(k + 1) == '.' {
                return None;
            } else {
                return Some((k, end));
            }
        }
    }
}

/// One past the index of the last `.` in `name` (0 where there is none).
fn last_dot(name: &str) -> (r: usize)
    ensures
        r == last_index_of(name@, '.') + 1,
{
    let n = name.unicode_len();
    let r = last_index_in(name, '.', n);
    proof {
        assert(name@.subrange(0, n as int) =~= name@);
    }
    r
}

/// The file name of `p`, if it has one.
pub fn file_name(p: &str) -> (r: Option<String>)
    ensures
        match r {
            Some(n) => spec_file_name(p@) == Some(n@) && n@.len() <= p@.len(),
            None => spec_file_name(p@) is None,
        },
{
    proof {
        lemma_range_bounds(p@);
    }
    match file_name_range(p) {
        Some((s, e)) => Some(String::from_str(p.substring_char(s, e))),
        None => None,
    }
}

/// The stem of the file name of `p` (`Path::file_stem`).
pub fn file_stem(p: &str) -> (r: Option<String>)
    ensures
        match r {
            Some(n) => spec_file_stem(p@) == Some(n@),
            None => spec_file_stem(p@) is None,
        },
{
    match file_name(p) {
        Some(name) => {
            let d = last_dot(name.as_str());
            if d <= 1 {
                Some(name)
            } else {
                proof {
                    lemma_last_index_of(name@, '.');
                }
                Some(String::from_str(name.as_str().substring_char(0, d - 1)))
            }
        },
        None => None,
    }
}

/// The extension of the file name of `p` (`Path::extension`).
pub fn extension(p: &str) -> (r: Option<String>)
    ensures
        match r {
            Some(n) => spec_extension(p@) == Some(n@),
            None => spec_extension(p@) is None,
        },
{
    match file_name(p) {
        Some(name) => {
            let d = last_dot(name.as_str());
            if d <= 1 {
                None
            } else {
                proof {
                    lemma_last_index_of(name@, '.');
                }
                let len = name.as_str().unicode_len();
                Some(String::from_str(name.as_str().substring_char(d, len)))
            }
        },
        None => None,
    }
}

/// `p` with the extension of its file name replaced by `ext` (`Path::with_extension`).
pub fn with_extension(p: &str, ext: &str) -> (r: String)
    ensures
        r@ == spec_with_extension(p@, ext@),
{
    proof {
        lemma_range_bounds(p@);
    }
    match file_name_range(p) {
        None => String::from_str(p),
        Some((s, e)) => {
            let name = p.substring_char(s, e);
            let d = last_dot(name);
            proof {
                lemma_last_index_of(name@, '.');
            }
            let stem_len: usize = if d <= 1 {
                e - s
            } else {
                d - 1
            };
            let mut out = String::from_str(p.substring_char(0, s + stem_len));
            if ext.unicode_len() > 0 {
                let dot = ".";
                proof {
                    reveal_strlit(".");
                }
                out.append(dot);
                out.append(ext);
            }
            proof {
                assert(out@ =~= spec_with_extension(p@, ext@));
            }
            out
        },
    }
}


/// The named components of `p` (see `spec_pieces`).
pub fn pieces(p: &str) -> (r: Vec<String>)
    ensures
        r.deep_view() == spec_pieces(p@),
{
    let n = p.unicode_len();
    let mut end: usize = n;
    let mut acc: Vec<String> = Vec::new();
    proof {
        assert(p@.subrange(0, n as int) =~= p@);
        assert(spec_pieces(p@) =~= spec_pieces(p@.subrange(0, end as int)) + acc.deep_view());
    }
    loop
        invariant
            end <= p@.len(),
            spec_pieces(p@) == spec_pieces(p@.subrange(0, end as int)) + acc.deep_view(),
        decreases end,
    {
        let ghost q = p@.subrange(0, end as int);
        let ghost before = acc.deep_view();
        if end == 0 {
            proof {
                assert(spec_pieces(q) =~= Seq::<Seq<char>>::empty());
                assert(spec_pieces(p@) =~= acc.deep_view());
            }
            return acc;
        }
        let k = last_index_in(p, '/', end);
        proof {
            lemma_last_index_of(q, '/');
            assert(q.subrange(k as int, end as int) =~= p@.subrange(k as int, end as int));
        }
        let comp = p.substring_char(k, end);
        let dot = ".";
        proof {
            reveal_strlit(".");
        }
        let keep = !(end - k == 0 || (end - k == 1 && p.get_char(k) == '.'));
        proof {
            if end - k == 1 {
                assert(comp@ =~= seq![p@[k as int]]);
            }
            if comp@ == seq!['.'] {
                assert(comp@[0] == p@[k as int]);
            }
        }
        if keep {
            acc.insert(0, String::from_str(comp));
            proof {
                assert(acc.deep_view() =~= seq![comp@] + before);
            }
        }
        if k == 0 {
            proof {
                assert(spec_pieces(p@) =~= acc.deep_view());
            }
            return acc;
        }
        proof {
            assert(q.subrange(0, k - 1) =~= p@.subrange(0, k - 1));
            if keep {
                assert(spec_pieces(q) == spec_pieces(p@.subrange(0, k - 1)).push(comp@));
                assert(spec_pieces(q) + before =~= spec_pieces(p@.subrange(0, k - 1)) + (seq![comp@] + before));
            } else {
                assert(spec_pieces(q) == spec_pieces(p@.subrange(0, k - 1)));
            }
        }
        end = k - 1;
    }
}

/// The components of `p` (see `spec_components`).
pub fn components(p: &str) -> (r: Vec<String>)
    ensures
        r.deep_view() == spec_components(p@),
{
    let mut r = pieces(p);
    let ghost rest = r.deep_view();
    let ghost old_r = r@;
    let n = p.unicode_len();
    if n > 0 && p.get_char(0) == '/' {
        let root = "/";
        proof {
            reveal_strlit("/");
        }
        r.insert(0, String::from_str(root));
        proof {
            assert(r@ == old_r.insert(0, r@[0]));
            assert(r@[0]@ =~= seq!['/']);
            assert forall|i: int| 0 <= i < r.deep_view().len() implies #[trigger] r.deep_view()[i]
                == (seq![seq!['/']] + rest)[i] by {
                if i > 0 {
                    assert(r@[i] == old_r[i - 1]);
                }
            }
            assert(r.deep_view() =~= seq![seq!['/']] + rest);
        }
    } else if n > 0 && p.get_char(0) == '.' && (n == 1 || p.get_char(1) == '/') {
        let cur = ".";
        proof {
            reveal_strlit(".");
        }
        r.insert(0, String::from_str(cur));
        proof {
            assert(r@ == old_r.insert(0, r@[0]));
            assert(r@[0]@ =~= seq!['.']);
            assert forall|i: int| 0 <= i < r.deep_view().len() implies #[trigger] r.deep_view()[i]
                == (seq![seq!['.']] + rest)[i] by {
                if i > 0 {
                    assert(r@[i] == old_r[i - 1]);
                }
            }
            assert(r.deep_view() =~= seq![seq!['.']] + rest);
        }
    }
    r
}

/// Whether two paths are equal as paths (see `spec_same_path`).
pub fn same_path(a: &str, b: &str) -> (r: bool)
    ensures
        r == spec_same_path(a@, b@),
{
    let ca = components(a);
    let cb = components(b);
    if ca.len() != cb.len() {
        proof {
            assert(ca.deep_view().len() != cb.deep_view().len());
        }
        return false;
    }
    let n = ca.len();
    for i in 0..n
        invariant
            n == ca.len() == cb.len(),
            ca.deep_view() == spec_components(a@),
            cb.deep_view() == spec_components(b@),
            forall|k: int| 0 <= k < i ==> ca.deep_view()[k] == cb.deep_view()[k],
    {
        if ca[i] != cb[i] {
            proof {
                assert(ca.deep_view()[i as int] != cb.deep_view()[i as int]);
            }
            return false;
        }
    }
    proof {
        assert(ca.deep_view() =~= cb.deep_view());
    }
    true
}

} // verus!
