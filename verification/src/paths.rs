//! Paths as text: components are separated by `/`, and the extension of a
//! file name is what follows its last `.`.
//!
//! The functions here only cut and glue text; whether a path exists is for
//! the caller to find out.

use vstd::prelude::*;
use crate::text::{push_chars, to_chars};

verus! {

/// The position of the last `c` in `s`, or -1 where `s` holds none.
pub open spec fn last_index_of(s: Seq<char>, c: char) -> int
    decreases s.len(),
{
    if s.len() == 0 {
        -1
    } else if s.last() == c {
        s.len() - 1
    } else {
        last_index_of(s.drop_last(), c)
    }
}

/// `name` placed under `base`: one `/` goes between them unless `base` is
/// empty or already ends in one.
pub open spec fn joined(base: Seq<char>, name: Seq<char>) -> Seq<char> {
    if base.len() == 0 || base.last() == '/' {
        base + name
    } else {
        base + seq!['/'] + name
    }
}

/// Where the last component of `path` begins.
pub open spec fn file_name_start(path: Seq<char>) -> int {
    last_index_of(path, '/') + 1
}

/// The last component of `path`: what follows its last `/`.
pub open spec fn file_name_of(path: Seq<char>) -> Seq<char> {
    path.subrange(file_name_start(path), path.len() as int)
}

/// `path` without its last component. A path without `/` has the empty
/// parent; the parent of a name directly under the root is `/`.
pub open spec fn parent_of(path: Seq<char>) -> Seq<char> {
    let cut = last_index_of(path, '/');
    if cut < 0 {
        Seq::empty()
    } else if cut == 0 {
        seq!['/']
    } else {
        path.subrange(0, cut)
    }
}

/// Whether the file name `name` ends in an extension: it holds a `.` that is
/// not its first character, and it is not the name `..`.
pub open spec fn has_extension(name: Seq<char>) -> bool {
    last_index_of(name, '.') > 0 && name != seq!['.', '.']
}

/// The length of `name` without its extension and the `.` before it.
pub open spec fn stem_len(name: Seq<char>) -> int {
    if has_extension(name) {
        last_index_of(name, '.')
    } else {
        name.len() as int
    }
}

/// The extension of the last component of `path`, if it has one.
pub open spec fn extension_of(path: Seq<char>) -> Option<Seq<char>> {
    let name = file_name_of(path);
    if has_extension(name) {
        Some(name.subrange(last_index_of(name, '.') + 1, name.len() as int))
    } else {
        None
    }
}

/// `path` with the extension of its last component replaced by `ext`. An
/// empty `ext` leaves the bare stem; a path without a last component is left
/// as it is.
pub open spec fn with_extension_of(path: Seq<char>, ext: Seq<char>) -> Seq<char> {
    let name = file_name_of(path);
    if name.len() == 0 {
        path
    } else {
        let kept = path.subrange(0, file_name_start(path) + stem_len(name));
        if ext.len() == 0 {
            kept
        } else {
            kept + seq!['.'] + ext
        }
    }
}

/// What `last_index_of` returns is either -1, with no `c` anywhere in `s`, or
/// the position of a `c` with none behind it.
pub proof fn lemma_last_index_of(s: Seq<char>, c: char)
    ensures
        -1 <= last_index_of(s, c) < s.len(),
        last_index_of(s, c) >= 0 ==> s[last_index_of(s, c)] == c,
        forall|i: int| last_index_of(s, c) < i < s.len() ==> s[i] != c,
    decreases s.len(),
{
    if s.len() > 0 && s.last() != c {
        let front = s.drop_last();
        lemma_last_index_of(front, c);
        assert forall|i: int| last_index_of(s, c) < i < s.len() implies s[i] != c by {
            if i < front.len() {
                assert(front[i] == s[i]);
            }
        }
    }
}

/// A position `at` that holds `c` with no `c` behind it is the last index of
/// `c`; and -1 is, where `s` holds no `c`.
pub proof fn lemma_last_index_is(s: Seq<char>, c: char, at: int)
    requires
        -1 <= at < s.len(),
        at >= 0 ==> s[at] == c,
        forall|i: int| at < i < s.len() ==> s[i] != c,
    ensures
        last_index_of(s, c) == at,
    decreases s.len(),
{
    if s.len() > 0 && s.last() != c {
        let front = s.drop_last();
        assert forall|i: int| at < i < front.len() implies front[i] != c by {
            assert(front[i] == s[i]);
        }
        lemma_last_index_is(front, c, at);
    }
}

/// Whether `s` holds no `/`.
pub open spec fn is_single_name(s: Seq<char>) -> bool {
    forall|i: int| 0 <= i < s.len() ==> s[i] != '/'
}

/// A name placed under a directory is found there again: the parent of the
/// joined path is the directory and its last component is the name.
pub proof fn lemma_joined_splits(base: Seq<char>, name: Seq<char>)
    requires
        base.len() > 0,
        base.last() != '/',
        is_single_name(name),
    ensures
        parent_of(joined(base, name)) == base,
        file_name_of(joined(base, name)) == name,
        file_name_start(joined(base, name)) == base.len() + 1,
{
    let path = joined(base, name);
    assert(path =~= base + seq!['/'] + name);
    let cut = base.len() as int;
    assert(path[cut] == '/');
    assert forall|i: int| cut < i < path.len() implies path[i] != '/' by {
        assert(path[i] == name[i - cut - 1]);
    }
    lemma_last_index_is(path, '/', cut);
    assert(path.subrange(0, cut) =~= base);
    assert(path.subrange(cut + 1, path.len() as int) =~= name);
}

/// Replacing the extension of a path changes its last component only.
pub proof fn lemma_extension_under_join(base: Seq<char>, name: Seq<char>, ext: Seq<char>)
    requires
        base.len() > 0,
        base.last() != '/',
        is_single_name(name),
        name.len() > 0,
    ensures
        with_extension_of(joined(base, name), ext) == joined(base, with_extension_of(name, ext)),
{
    let path = joined(base, name);
    lemma_joined_splits(base, name);
    lemma_last_index_is(name, '/', -1);
    lemma_last_index_of(name, '.');
    assert(file_name_of(name) =~= name);
    let stem = stem_len(name);
    assert(path.subrange(0, base.len() + 1 + stem) =~= base + seq!['/'] + name.subrange(0, stem));
    if ext.len() == 0 {
        assert(with_extension_of(path, ext) =~= joined(base, with_extension_of(name, ext)));
    } else {
        assert(with_extension_of(path, ext) =~= joined(base, with_extension_of(name, ext)));
    }
}

/// A name without `/` and `.` gets its extension appended behind a `.`, and
/// stays as it is where the extension is empty.
pub proof fn lemma_extension_of_bare_name(name: Seq<char>, ext: Seq<char>)
    requires
        name.len() > 0,
        is_single_name(name),
        forall|i: int| 0 <= i < name.len() ==> name[i] != '.',
    ensures
        with_extension_of(name, ext) == if ext.len() == 0 {
            name
        } else {
            name + seq!['.'] + ext
        },
{
    lemma_last_index_is(name, '/', -1);
    lemma_last_index_is(name, '.', -1);
    assert(file_name_of(name) =~= name);
    assert(name.subrange(0, name.len() as int) =~= name);
}

/// Whether `a` comes before `b`, or is `b`, in the order of a dictionary
/// whose alphabet is the characters by their code: the first character in
/// which the two differ decides, and a text comes before its extensions.
pub open spec fn text_le(a: Seq<char>, b: Seq<char>) -> bool
    decreases a.len(),
{
    if a.len() == 0 {
        true
    } else if b.len() == 0 {
        false
    } else if a[0] == b[0] {
        text_le(a.skip(1), b.skip(1))
    } else {
        a[0] < b[0]
    }
}

/// Whether the texts of `s` stand in ascending order.
pub open spec fn ascending(s: Seq<Seq<char>>) -> bool {
    forall|i: int, j: int| 0 <= i < j < s.len() ==> text_le(s[i], s[j])
}

/// Of two texts one comes before the other, or they are the same.
pub proof fn lemma_text_le_total(a: Seq<char>, b: Seq<char>)
    ensures
        text_le(a, b) || text_le(b, a),
    decreases a.len(),
{
    if a.len() > 0 && b.len() > 0 && a[0] == b[0] {
        lemma_text_le_total(a.skip(1), b.skip(1));
    }
}

/// What comes before a text comes before everything behind that text.
pub proof fn lemma_text_le_transitive(a: Seq<char>, b: Seq<char>, c: Seq<char>)
    requires
        text_le(a, b),
        text_le(b, c),
    ensures
        text_le(a, c),
    decreases a.len(),
{
    if a.len() > 0 && b.len() > 0 && c.len() > 0 && a[0] == b[0] && b[0] == c[0] {
        lemma_text_le_transitive(a.skip(1), b.skip(1), c.skip(1));
    }
}

/// Whether `a` comes before `b` or is `b`.
pub fn precedes(a: &Vec<char>, b: &Vec<char>) -> (before: bool)
    ensures
        before == text_le(a@, b@),
{
    let mut i: usize = 0;
    assert(a@.skip(0) =~= a@ && b@.skip(0) =~= b@);
    while i < a.len() && i < b.len()
        invariant
            i <= a.len(),
            i <= b.len(),
            text_le(a@, b@) == text_le(a@.skip(i as int), b@.skip(i as int)),
        decreases a.len() - i,
    {
        assert(a@.skip(i as int).skip(1) =~= a@.skip(i + 1));
        assert(b@.skip(i as int).skip(1) =~= b@.skip(i + 1));
        if a[i] != b[i] {
            return a[i] < b[i];
        }
        i += 1;
    }
    i == a.len()
}

/// The position of the last `c` in `v`, if there is one.
pub fn rfind(v: &Vec<char>, c: char) -> (found: Option<usize>)
    ensures
        found is None <==> last_index_of(v@, c) == -1,
        found is Some ==> found->0 as int == last_index_of(v@, c) && found->0 < v.len(),
{
    let mut i: usize = v.len();
    while i > 0
        invariant
            i <= v.len(),
            forall|k: int| i <= k < v.len() ==> v@[k] != c,
        decreases i,
    {
        i -= 1;
        if v[i] == c {
            proof {
                lemma_last_index_is(v@, c, i as int);
            }
            return Some(i);
        }
    }
    proof {
        lemma_last_index_is(v@, c, -1);
    }
    None
}

/// Appends `v[from..to]` to `out`.
fn push_range(out: &mut String, v: &Vec<char>, from: usize, to: usize)
    requires
        from <= to <= v.len(),
    ensures
        final(out)@ == old(out)@ + v@.subrange(from as int, to as int),
{
    let mut i: usize = from;
    assert(out@ =~= old(out)@ + v@.subrange(from as int, from as int));
    while i < to
        invariant
            from <= i <= to <= v.len(),
            out@ == old(out)@ + v@.subrange(from as int, i as int),
        decreases to - i,
    {
        out.push(v[i]);
        assert(v@.subrange(from as int, i + 1) =~= v@.subrange(from as int, i as int).push(
            v@[i as int],
        ));
        i += 1;
    }
}

/// `name` placed under the directory `base`.
pub fn join(base: &str, name: &str) -> (path: String)
    ensures
        path@ == joined(base@, name@),
{
    let b = to_chars(base);
    let mut path = String::new();
    push_chars(&mut path, &b);
    if b.len() > 0 && b[b.len() - 1] != '/' {
        path.push('/');
    }
    path.append(name);
    assert(path@ =~= joined(base@, name@));
    path
}

/// The last component of `path`.
pub fn file_name(path: &str) -> (name: String)
    ensures
        name@ == file_name_of(path@),
{
    let p = to_chars(path);
    let start: usize = match rfind(&p, '/') {
        Some(i) => i + 1,
        None => 0,
    };
    let mut name = String::new();
    push_range(&mut name, &p, start, p.len());
    assert(name@ =~= file_name_of(path@));
    name
}

/// `path` without its last component.
pub fn parent(path: &str) -> (dir: String)
    ensures
        dir@ == parent_of(path@),
{
    let p = to_chars(path);
    let mut dir = String::new();
    match rfind(&p, '/') {
        Some(i) => {
            if i == 0 {
                dir.push('/');
                assert(dir@ =~= seq!['/']);
            } else {
                push_range(&mut dir, &p, 0, i);
                assert(dir@ =~= path@.subrange(0, i as int));
            }
        },
        None => {},
    }
    dir
}

/// A copy of `v[from..to]`.
fn slice_chars(v: &Vec<char>, from: usize, to: usize) -> (part: Vec<char>)
    requires
        from <= to <= v.len(),
    ensures
        part@ == v@.subrange(from as int, to as int),
{
    let mut part: Vec<char> = Vec::new();
    let mut i: usize = from;
    assert(part@ =~= v@.subrange(from as int, from as int));
    while i < to
        invariant
            from <= i <= to <= v.len(),
            part@ == v@.subrange(from as int, i as int),
        decreases to - i,
    {
        part.push(v[i]);
        assert(v@.subrange(from as int, i + 1) =~= v@.subrange(from as int, i as int).push(
            v@[i as int],
        ));
        i += 1;
    }
    part
}

/// The length of the file name `name` without its extension.
fn stem_length(name: &Vec<char>) -> (len: usize)
    ensures
        len as int == stem_len(name@),
        len <= name.len(),
        has_extension(name@) <==> len < name.len(),
{
    let dotdot = name.len() == 2 && name[0] == '.' && name[1] == '.';
    proof {
        lemma_last_index_of(name@, '.');
        if dotdot {
            assert(name@ =~= seq!['.', '.']);
        }
    }
    match rfind(name, '.') {
        Some(d) => {
            if d > 0 && !dotdot {
                d
            } else {
                name.len()
            }
        },
        None => name.len(),
    }
}

/// The extension of the last component of `path`, if it has one.
pub fn extension(path: &str) -> (ext: Option<String>)
    ensures
        ext is Some <==> extension_of(path@) is Some,
        ext is Some ==> ext->0@ == extension_of(path@)->0,
{
    let p = to_chars(path);
    let start: usize = match rfind(&p, '/') {
        Some(i) => i + 1,
        None => 0,
    };
    let name = slice_chars(&p, start, p.len());
    let stem = stem_length(&name);
    if stem < name.len() {
        let mut ext = String::new();
        push_range(&mut ext, &name, stem + 1, name.len());
        assert(ext@ =~= extension_of(path@)->0);
        Some(ext)
    } else {
        None
    }
}

/// `path` with the extension of its last component replaced by `ext`.
pub fn with_extension(path: &str, ext: &str) -> (renamed: String)
    ensures
        renamed@ == with_extension_of(path@, ext@),
{
    let p = to_chars(path);
    let start: usize = match rfind(&p, '/') {
        Some(i) => i + 1,
        None => 0,
    };
    let name = slice_chars(&p, start, p.len());
    let mut renamed = String::new();
    if name.len() == 0 {
        push_chars(&mut renamed, &p);
        assert(renamed@ =~= path@);
    } else {
        let stem = stem_length(&name);
        push_range(&mut renamed, &p, 0, start + stem);
        if !ext.is_empty() {
            renamed.push('.');
            renamed.append(ext);
        }
        assert(renamed@ =~= with_extension_of(path@, ext@));
    }
    renamed
}

} // verus!
