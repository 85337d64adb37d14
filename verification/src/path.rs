//! File paths as text, read the way Unix paths are read: components are
//! separated by `/`, empty and `.` components after the first are not
//! components, and a final `..` has no file name.
use vstd::prelude::*;
use vstd::string::*;

verus! {

broadcast use vstd::string::group_string_axioms;

/// `p` without its trailing separators and trailing `.` components.
pub open spec fn strip_trailing(p: Seq<char>) -> Seq<char>
    decreases p.len(),
{
    if p.len() == 0 {
        p
    } else if p.last() == '/' {
        strip_trailing(p.drop_last())
    } else if p.last() == '.' && (p.len() == 1 || p[p.len() - 2] == '/') {
        strip_trailing(p.drop_last())
    } else {
        p
    }
}

/// The text of `p` after its last separator (all of `p` when it has none).
pub open spec fn last_segment(p: Seq<char>) -> Seq<char>
    decreases p.len(),
{
    if p.len() == 0 || p.last() == '/' {
        Seq::empty()
    } else {
        last_segment(p.drop_last()).push(p.last())
    }
}

/// The two dots of a parent-directory component.
pub open spec fn parent_dir() -> Seq<char> {
    seq!['.', '.']
}

/// The file name of a path: its final component, when that is a name
/// (not the root, not `.`, not `..`).
pub open spec fn file_name_of(p: Seq<char>) -> Option<Seq<char>> {
    let s = last_segment(strip_trailing(p));
    if s.len() == 0 || s == parent_dir() {
        None
    } else {
        Some(s)
    }
}

/// The position of the last `.` of `s`, if any.
pub open spec fn last_dot(s: Seq<char>) -> Option<int>
    decreases s.len(),
{
    if s.len() == 0 {
        None
    } else if s.last() == '.' {
        Some(s.len() - 1)
    } else {
        last_dot(s.drop_last())
    }
}

/// The stem of a file name: the text before its last `.`, or the whole
/// name when it has no `.` other than a leading one.
pub open spec fn name_stem(name: Seq<char>) -> Seq<char> {
    match last_dot(name) {
        Some(k) => if k > 0 {
            name.take(k)
        } else {
            name
        },
        None => name,
    }
}

/// The extension of a file name: the text after its last `.`, when that
/// `.` is not the first character.
pub open spec fn name_extension(name: Seq<char>) -> Option<Seq<char>> {
    match last_dot(name) {
        Some(k) => if k > 0 {
            Some(name.skip(k + 1))
        } else {
            None
        },
        None => None,
    }
}

/// The stem of the file name of `p`.
pub open spec fn file_stem_of(p: Seq<char>) -> Option<Seq<char>> {
    match file_name_of(p) {
        Some(name) => Some(name_stem(name)),
        None => None,
    }
}

/// The extension of the file name of `p`.
pub open spec fn extension_of(p: Seq<char>) -> Option<Seq<char>> {
    match file_name_of(p) {
        Some(name) => name_extension(name),
        None => None,
    }
}

/// `dir` followed by the relative `name`, with one separator between them
/// unless `dir` is empty or already ends with one.
pub open spec fn join_of(dir: Seq<char>, name: Seq<char>) -> Seq<char> {
    if dir.len() == 0 {
        name
    } else if dir.last() == '/' {
        dir + name
    } else {
        dir + seq!['/'] + name
    }
}

/// The characters of `s`, in order.
pub fn chars_of(s: &str) -> (v: Vec<char>)
    ensures
        v@ == s@,
{
    let mut v: Vec<char> = Vec::new();
    for c in it: s.chars()
        invariant
            it.seq() == s@,
            v@ == it.seq().take(it.index() as int),
    {
        v.push(c);
    }
    v
}

proof fn lemma_strip_step(p: Seq<char>, e: int)
    requires
        0 < e <= p.len(),
        p[e - 1] == '/' || (p[e - 1] == '.' && (e == 1 || p[e - 2] == '/')),
    ensures
        strip_trailing(p.take(e)) == strip_trailing(p.take(e - 1)),
{
    assert(p.take(e).drop_last() =~= p.take(e - 1));
    if e > 1 {
        assert(p.take(e)[e - 2] == p[e - 2]);
    }
}

proof fn lemma_segment_step(p: Seq<char>, b: int, e: int)
    requires
        0 < b <= e <= p.len(),
        p[b - 1] != '/',
        last_segment(p.take(e)) == last_segment(p.take(b)) + p.subrange(b, e),
    ensures
        last_segment(p.take(e)) == last_segment(p.take(b - 1)) + p.subrange(b - 1, e),
{
    assert(p.take(b).drop_last() =~= p.take(b - 1));
    assert(last_segment(p.take(b)) == last_segment(p.take(b - 1)).push(p[b - 1]));
    assert(last_segment(p.take(b - 1)).push(p[b - 1]) + p.subrange(b, e) =~= last_segment(
        p.take(b - 1),
    ) + p.subrange(b - 1, e));
}

/// The bounds `(b, e)` of the file name of the path whose characters are
/// `p`, if it has one.
fn file_name_bounds(p: &Vec<char>) -> (r: Option<(usize, usize)>)
    ensures
        match r {
            Some((b, e)) => b < e <= p@.len() && file_name_of(p@) == Some(
                p@.subrange(b as int, e as int),
            ),
            None => file_name_of(p@) is None,
        },
{
    let mut e: usize = p.len();
    assert(p@.take(e as int) =~= p@);
    while e > 0 && (p[e - 1] == '/' || (p[e - 1] == '.' && (e == 1 || p[e - 2] == '/')))
        invariant
            e <= p@.len(),
            strip_trailing(p@) == strip_trailing(p@.take(e as int)),
        decreases e,
    {
        proof {
            lemma_strip_step(p@, e as int);
        }
        e = e - 1;
    }
    assert(strip_trailing(p@.take(e as int)) == p@.take(e as int));
    let mut b: usize = e;
    assert(p@.subrange(e as int, e as int) =~= Seq::<char>::empty());
    assert(last_segment(p@.take(e as int)) =~= last_segment(p@.take(e as int)) + p@.subrange(
        e as int,
        e as int,
    ));
    while b > 0 && p[b - 1] != '/'
        invariant
            b <= e <= p@.len(),
            last_segment(p@.take(e as int)) == last_segment(p@.take(b as int)) + p@.subrange(
                b as int,
                e as int,
            ),
        decreases b,
    {
        proof {
            lemma_segment_step(p@, b as int, e as int);
        }
        b = b - 1;
    }
    assert(last_segment(p@.take(b as int)) =~= Seq::<char>::empty());
    let ghost name = p@.subrange(b as int, e as int);
    assert(last_segment(strip_trailing(p@)) =~= name);
    if b == e {
        None
    } else if e - b == 2 && p[b] == '.' && p[b + 1] == '.' {
        assert(name =~= parent_dir());
        None
    } else {
        assert(name.len() != 2 || name[0] != '.' || name[1] != '.');
        assert(name != parent_dir()) by {
            if name == parent_dir() {
                assert(name[0] == '.' && name[1] == '.');
            }
        }
        Some((b, e))
    }
}

proof fn lemma_last_dot_bounds(s: Seq<char>)
    ensures
        last_dot(s) matches Some(k) ==> 0 <= k < s.len() && s[k] == '.',
    decreases s.len(),
{
    if s.len() > 0 && s.last() != '.' {
        lemma_last_dot_bounds(s.drop_last());
    }
}

/// The position of the last `.` among `p[b..e]`, if any.
fn last_dot_in(p: &Vec<char>, b: usize, e: usize) -> (r: Option<usize>)
    requires
        b <= e <= p@.len(),
    ensures
        match last_dot(p@.subrange(b as int, e as int)) {
            Some(k) => r == Some((b + k) as usize) && 0 <= k < e - b,
            None => r is None,
        },
{
    proof {
        lemma_last_dot_bounds(p@.subrange(b as int, e as int));
    }
    let mut i: usize = e;
    assert(p@.subrange(b as int, e as int) =~= p@.subrange(b as int, i as int));
    while i > b
        invariant
            b <= i <= e <= p@.len(),
            last_dot(p@.subrange(b as int, e as int)) == last_dot(p@.subrange(b as int, i as int)),
        decreases i,
    {
        let ghost s = p@.subrange(b as int, i as int);
        if p[i - 1] == '.' {
            assert(s.last() == '.');
            return Some(i - 1);
        }
        assert(s.drop_last() =~= p@.subrange(b as int, i - 1));
        i = i - 1;
    }
    None
}

/// The file name of `path`: its final component, when that is a name.
pub fn file_name(path: &str) -> (r: Option<&str>)
    ensures
        match r {
            Some(name) => file_name_of(path@) == Some(name@),
            None => file_name_of(path@) is None,
        },
{
    let p = chars_of(path);
    match file_name_bounds(&p) {
        Some((b, e)) => Some(path.substring_char(b, e)),
        None => None,
    }
}

/// The stem of the file name of `path`.
pub fn file_stem(path: &str) -> (r: Option<&str>)
    ensures
        match r {
            Some(stem) => file_stem_of(path@) == Some(stem@),
            None => file_stem_of(path@) is None,
        },
{
    let p = chars_of(path);
    match file_name_bounds(&p) {
        Some((b, e)) => {
            let ghost name = p@.subrange(b as int, e as int);
            match last_dot_in(&p, b, e) {
                Some(k) => {
                    if k > b {
                        assert(p@.subrange(b as int, k as int) =~= name.take(k - b));
                        Some(path.substring_char(b, k))
                    } else {
                        Some(path.substring_char(b, e))
                    }
                },
                None => Some(path.substring_char(b, e)),
            }
        },
        None => None,
    }
}

/// The extension of the file name of `path`.
pub fn extension(path: &str) -> (r: Option<&str>)
    ensures
        match r {
            Some(ext) => extension_of(path@) == Some(ext@),
            None => extension_of(path@) is None,
        },
{
    let p = chars_of(path);
    match file_name_bounds(&p) {
        Some((b, e)) => {
            let ghost name = p@.subrange(b as int, e as int);
            match last_dot_in(&p, b, e) {
                Some(k) => {
                    if k > b {
                        assert(p@.subrange(k + 1, e as int) =~= name.skip(k - b + 1));
                        Some(path.substring_char(k + 1, e))
                    } else {
                        None
                    }
                },
                None => None,
            }
        },
        None => None,
    }
}

/// `dir` joined with the relative `name`.
pub fn join(dir: &str, name: &str) -> (r: String)
    ensures
        r@ == join_of(dir@, name@),
{
    let mut r = String::from_str(dir);
    if dir.unicode_len() > 0 {
        let n = dir.unicode_len();
        if dir.get_char(n - 1) != '/' {
            r.append("/");
            proof {
                reveal_strlit("/");
            }
        }
    }
    r.append(name);
    proof {
        assert(dir@.len() > 0 ==> dir@.last() == dir@[dir@.len() - 1]);
    }
    r
}

/// No separator occurs in the last segment of a path.
pub proof fn lemma_last_segment_has_no_separator(p: Seq<char>)
    ensures
        forall|i: int| 0 <= i < last_segment(p).len() ==> last_segment(p)[i] != '/',
    decreases p.len(),
{
    if p.len() > 0 && p.last() != '/' {
        lemma_last_segment_has_no_separator(p.drop_last());
        let prev = last_segment(p.drop_last());
        assert forall|i: int| 0 <= i < last_segment(p).len() implies last_segment(p)[i] != '/' by {
            if i < prev.len() {
                assert(last_segment(p)[i] == prev[i]);
            }
        }
    }
}

/// The last segment of `a + b` is `b`, when `b` holds no separator and `a`
/// is empty or ends with one.
pub proof fn lemma_last_segment_after_separator(a: Seq<char>, b: Seq<char>)
    requires
        forall|i: int| 0 <= i < b.len() ==> b[i] != '/',
        a.len() == 0 || a.last() == '/',
    ensures
        last_segment(a + b) == b,
    decreases b.len(),
{
    if b.len() == 0 {
        assert(a + b =~= a);
    } else {
        assert((a + b).drop_last() =~= a + b.drop_last());
        lemma_last_segment_after_separator(a, b.drop_last());
        assert(b.drop_last().push(b.last()) =~= b);
    }
}

/// A file stem is not empty and holds no separator.
pub proof fn lemma_file_stem_shape(p: Seq<char>)
    requires
        file_stem_of(p) is Some,
    ensures
        file_stem_of(p)->0.len() > 0,
        forall|i: int|
            0 <= i < file_stem_of(p)->0.len() ==> file_stem_of(p)->0[i] != '/',
{
    let name = last_segment(strip_trailing(p));
    lemma_last_segment_has_no_separator(strip_trailing(p));
    lemma_last_dot_bounds(name);
}

/// Text that may follow the final name of a path and is no component:
/// separators, and `.` components between them.
pub open spec fn is_trailer(t: Seq<char>) -> bool {
    &&& t.len() > 0 ==> t[0] == '/'
    &&& forall|i: int|
        0 <= i < t.len() ==> #[trigger] t[i] == '/' || (t[i] == '.' && 0 < i && t[i - 1] == '/'
            && (i + 1 == t.len() || t[i + 1] == '/'))
}

proof fn lemma_trailer_push(t: Seq<char>, c: char)
    requires
        is_trailer(t),
        c == '/' || (c == '.' && t.len() > 0 && t.last() == '/'),
    ensures
        is_trailer(t.push(c)),
{
    let u = t.push(c);
    assert forall|i: int| 0 <= i < u.len() implies #[trigger] u[i] == '/' || (u[i] == '.' && 0 < i
        && u[i - 1] == '/' && (i + 1 == u.len() || u[i + 1] == '/')) by {
        if i < t.len() {
            assert(u[i] == t[i]);
            if i > 0 {
                assert(u[i - 1] == t[i - 1]);
            }
            if i + 1 < t.len() {
                assert(u[i + 1] == t[i + 1]);
            }
        }
    }
}

/// Stripping leaves a prefix of the path, and what it removes (when
/// anything is left) is a trailer; what is left does not end in a
/// separator or a `.` component.
proof fn lemma_strip_trailing_shape(p: Seq<char>)
    ensures
        strip_trailing(p).len() <= p.len(),
        strip_trailing(p) == p.take(strip_trailing(p).len() as int),
        strip_trailing(p).len() > 0 ==> is_trailer(p.skip(strip_trailing(p).len() as int)),
        strip_trailing(p).len() > 0 ==> strip_trailing(p).last() != '/',
        strip_trailing(p).len() > 0 ==> !(strip_trailing(p).last() == '.' && (strip_trailing(
            p,
        ).len() == 1 || strip_trailing(p)[strip_trailing(p).len() - 2] == '/')),
    decreases p.len(),
{
    if p.len() == 0 {
        assert(p.take(0) =~= p);
    } else if p.last() == '/' || (p.last() == '.' && (p.len() == 1 || p[p.len() - 2] == '/')) {
        let q = p.drop_last();
        lemma_strip_trailing_shape(q);
        let k = strip_trailing(q).len() as int;
        assert(p.take(k) =~= q.take(k));
        if k > 0 {
            assert(p.skip(k) =~= q.skip(k).push(p.last()));
            if p.last() == '.' {
                // the separator before the dot lies in the removed part
                assert(p.len() > 1);
                assert(q.last() == '/');
                if k == q.len() {
                    assert(strip_trailing(q) == q);
                    assert(false);
                }
                assert(q.skip(k).last() == q.last());
            }
            lemma_trailer_push(q.skip(k), p.last());
        }
    } else {
        assert(p.take(p.len() as int) =~= p);
    }
}

/// The last segment of a path is what follows its last separator.
proof fn lemma_last_segment_split(q: Seq<char>)
    ensures
        last_segment(q).len() <= q.len(),
        q == q.take(q.len() - last_segment(q).len()) + last_segment(q),
        q.len() - last_segment(q).len() == 0 || q[q.len() - last_segment(q).len() - 1] == '/',
    decreases q.len(),
{
    if q.len() == 0 || q.last() == '/' {
        assert(q.take(q.len() as int) =~= q);
    } else {
        lemma_last_segment_split(q.drop_last());
        let r = q.drop_last();
        let k = r.len() - last_segment(r).len();
        assert(q.take(k) =~= r.take(k));
        assert(q =~= r.push(q.last()));
        assert((r.take(k) + last_segment(r)).push(q.last()) =~= r.take(k) + last_segment(r).push(
            q.last(),
        ));
        assert(q =~= r.take(k) + last_segment(r).push(q.last()));
        if k > 0 {
            assert(q[k - 1] == r[k - 1]);
        }
    }
}

/// What a file name is: a non-empty text without separators that is
/// neither `.` nor `..`, which the path ends with, after a separator (or
/// at its start) and before nothing but separators and `.` components.
pub proof fn file_name_is_final_component(p: Seq<char>)
    requires
        file_name_of(p) is Some,
    ensures
        ({
            let name = file_name_of(p)->0;
            &&& name.len() > 0
            &&& forall|i: int| 0 <= i < name.len() ==> name[i] != '/'
            &&& name != seq!['.']
            &&& name != seq!['.', '.']
            &&& exists|a: Seq<char>, t: Seq<char>|
                p == a + name + t && (a.len() == 0 || a.last() == '/') && is_trailer(t)
        }),
{
    let q = strip_trailing(p);
    let name = last_segment(q);
    lemma_strip_trailing_shape(p);
    lemma_last_segment_split(q);
    lemma_last_segment_has_no_separator(q);
    let k = q.len() - name.len();
    let a = q.take(k);
    let t = p.skip(q.len() as int);
    assert(p =~= q + t);
    assert(p =~= a + name + t);
    if k > 0 {
        assert(a.last() == q[k - 1]);
    }
    if name =~= seq!['.'] {
        assert(q.last() == '.');
        if q.len() > 1 {
            assert(q[q.len() - 2] == '/');
        }
    }
    assert(name != seq!['.']);
    assert(p == a + name + t && (a.len() == 0 || a.last() == '/') && is_trailer(t));
}

proof fn lemma_last_dot_after(s: Seq<char>)
    ensures
        last_dot(s) matches Some(k) ==> forall|j: int| k < j < s.len() ==> s[j] != '.',
        last_dot(s) is None ==> forall|j: int| 0 <= j < s.len() ==> s[j] != '.',
    decreases s.len(),
{
    if s.len() > 0 && s.last() != '.' {
        lemma_last_dot_after(s.drop_last());
        assert forall|j: int| 0 <= j < s.len() - 1 implies s[j] == s.drop_last()[j] by {}
    }
    lemma_last_dot_bounds(s);
}

/// Stem and extension split the file name at its last `.`: with an
/// extension, the name is the stem, a `.`, and the extension, the stem is
/// not empty and the extension holds no `.`; without one, the stem is the
/// whole name and no `.` follows its first character.
pub proof fn stem_and_extension_rebuild_name(p: Seq<char>)
    requires
        file_name_of(p) is Some,
    ensures
        file_stem_of(p) is Some,
        extension_of(p) matches Some(ext) ==> {
            &&& file_name_of(p)->0 == file_stem_of(p)->0 + seq!['.'] + ext
            &&& file_stem_of(p)->0.len() > 0
            &&& forall|j: int| 0 <= j < ext.len() ==> ext[j] != '.'
        },
        extension_of(p) is None ==> {
            &&& file_stem_of(p)->0 == file_name_of(p)->0
            &&& forall|j: int| 0 < j < file_name_of(p)->0.len() ==> file_name_of(p)->0[j] != '.'
        },
{
    let name = file_name_of(p)->0;
    lemma_last_dot_bounds(name);
    lemma_last_dot_after(name);
    if let Some(k) = last_dot(name) {
        if k > 0 {
            assert(name =~= name.take(k) + seq!['.'] + name.skip(k + 1));
            let ext = name.skip(k + 1);
            assert forall|j: int| 0 <= j < ext.len() implies ext[j] != '.' by {
                assert(ext[j] == name[k + 1 + j]);
            }
        }
    }
}

} // verus!
