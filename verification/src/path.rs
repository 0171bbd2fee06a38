//! File paths as text: components are separated by `/`.
//!
//! A path is read as the standard library reads one on Unix. Separators at the end of a path and
//! `.` components after a separator carry no meaning, and the name of a file splits at its last dot
//! into a stem and an extension, unless that dot is its first character.

use vstd::prelude::*;
use crate::text::{chars_of, same_text};

verus! {

/// A path followed by a relative component.
pub open spec fn joined(base: Seq<char>, part: Seq<char>) -> Seq<char> {
    if base.len() == 0 || base.last() == '/' {
        base + part
    } else {
        base + seq!['/'] + part
    }
}

/// What is left of a path without the separators and `.` components at its end.
pub open spec fn trimmed(path: Seq<char>) -> Seq<char>
    decreases path.len(),
{
    if path.len() >= 1 && path.last() == '/' {
        trimmed(path.drop_last())
    } else if path.len() >= 2 && path.last() == '.' && path[path.len() - 2] == '/' {
        trimmed(path.drop_last())
    } else {
        path
    }
}

/// Where the characters after the last `mark` begin. Zero without a `mark`.
pub open spec fn after_last(s: Seq<char>, mark: char) -> int
    decreases s.len(),
{
    if s.len() == 0 {
        0
    } else if s.last() == mark {
        s.len() as int
    } else {
        after_last(s.drop_last(), mark)
    }
}

/// The last component of a path, where it names a file or a directory.
pub open spec fn file_name(path: Seq<char>) -> Option<Seq<char>> {
    let name = trimmed(path).skip(after_last(trimmed(path), '/'));
    if name.len() == 0 || name == seq!['.'] || name == seq!['.', '.'] {
        None
    } else {
        Some(name)
    }
}

/// The length of the stem of a file name.
pub open spec fn stem_len(name: Seq<char>) -> int {
    if after_last(name, '.') >= 2 {
        after_last(name, '.') - 1
    } else {
        name.len() as int
    }
}

/// The name of a file without its extension.
pub open spec fn file_stem(path: Seq<char>) -> Option<Seq<char>> {
    match file_name(path) {
        Some(name) => Some(name.take(stem_len(name))),
        None => None,
    }
}

/// The characters after the last dot of a file's name.
pub open spec fn extension(path: Seq<char>) -> Option<Seq<char>> {
    match file_name(path) {
        Some(name) => if after_last(name, '.') >= 2 {
            Some(name.skip(after_last(name, '.')))
        } else {
            None
        },
        None => None,
    }
}

/// A path up to the end of its stem.
pub open spec fn without_extension(path: Seq<char>) -> Seq<char> {
    match file_name(path) {
        Some(name) => path.take(after_last(trimmed(path), '/') + stem_len(name)),
        None => path,
    }
}

proof fn lemma_after_last(s: Seq<char>, mark: char)
    ensures
        0 <= after_last(s, mark) <= s.len(),
        after_last(s, mark) > 0 ==> s[after_last(s, mark) - 1] == mark,
        forall|i: int| after_last(s, mark) <= i < s.len() ==> s[i] != mark,
    decreases s.len(),
{
    if s.len() != 0 && s.last() != mark {
        lemma_after_last(s.drop_last(), mark);
        assert forall|i: int| after_last(s, mark) <= i < s.len() implies s[i] != mark by {
            if i < s.len() - 1 {
                assert(s.drop_last()[i] == s[i]);
            }
        }
    }
}

proof fn lemma_after_last_is(s: Seq<char>, mark: char, k: int)
    requires
        0 <= k <= s.len(),
        k > 0 ==> s[k - 1] == mark,
        forall|i: int| k <= i < s.len() ==> s[i] != mark,
    ensures
        after_last(s, mark) == k,
{
    lemma_after_last(s, mark);
}

fn trimmed_len(chars: &Vec<char>) -> (n: usize)
    ensures
        n == trimmed(chars@).len(),
        n <= chars@.len(),
        trimmed(chars@) == chars@.take(n as int),
{
    let mut n: usize = chars.len();
    assert(chars@.take(n as int) == chars@);
    while (n >= 1 && chars[n - 1] == '/') || (n >= 2 && chars[n - 1] == '.' && chars[n - 2] == '/')
        invariant
            n <= chars@.len(),
            trimmed(chars@.take(n as int)) == trimmed(chars@),
        decreases n,
    {
        assert(chars@.take(n as int).drop_last() == chars@.take(n - 1));
        n = n - 1;
    }
    n
}

fn after_last_in(chars: &Vec<char>, from: usize, to: usize, mark: char) -> (k: usize)
    requires
        from <= to <= chars@.len(),
    ensures
        k == from + after_last(chars@.subrange(from as int, to as int), mark),
        from <= k <= to,
{
    let ghost s = chars@.subrange(from as int, to as int);
    let mut k: usize = to;
    while k > from && chars[k - 1] != mark
        invariant
            from <= k <= to <= chars@.len(),
            s == chars@.subrange(from as int, to as int),
            forall|i: int| k - from <= i < s.len() ==> s[i] != mark,
        decreases k,
    {
        assert(s[k - from - 1] == chars@[k - 1]);
        k = k - 1;
    }
    proof {
        if k > from {
            assert(s[k - from - 1] == chars@[k - 1]);
        }
        lemma_after_last_is(s, mark, k - from);
    }
    k
}

/// Where the name of a file stands in a path, and where its stem ends.
struct NameSpan {
    start: usize,
    end: usize,
    stem_end: usize,
}

fn name_span(chars: &Vec<char>) -> (span: Option<NameSpan>)
    ensures
        span is Some <==> file_name(chars@) is Some,
        span matches Some(s) ==> {
            &&& s.start <= s.stem_end <= s.end <= chars@.len()
            &&& s.start == after_last(trimmed(chars@), '/')
            &&& file_name(chars@) == Some(chars@.subrange(s.start as int, s.end as int))
            &&& s.stem_end == s.start + stem_len(chars@.subrange(s.start as int, s.end as int))
            &&& s.stem_end < s.end <==> after_last(
                chars@.subrange(s.start as int, s.end as int),
                '.',
            ) >= 2
        },
{
    let end: usize = trimmed_len(chars);
    let start: usize = after_last_in(chars, 0, end, '/');
    let ghost t = trimmed(chars@);
    let ghost name = chars@.subrange(start as int, end as int);
    assert(t == chars@.subrange(0, end as int));
    assert(t.skip(after_last(t, '/')) == name);
    if start == end {
        return None;
    }
    if end - start == 1 && chars[start] == '.' {
        assert(name == seq!['.']);
        return None;
    }
    if end - start == 2 && chars[start] == '.' && chars[start + 1] == '.' {
        assert(name == seq!['.', '.']);
        return None;
    }
    assert(name.len() == end - start);
    assert(name != seq!['.']) by {
        if name == seq!['.'] {
            assert(name[0] == '.');
        }
    }
    assert(name != seq!['.', '.']) by {
        if name == seq!['.', '.'] {
            assert(name[0] == '.' && name[1] == '.');
        }
    }
    let dot: usize = after_last_in(chars, start, end, '.');
    proof {
        lemma_after_last(name, '.');
    }
    let stem_end: usize = if dot - start >= 2 {
        dot - 1
    } else {
        end
    };
    Some(NameSpan { start, end, stem_end })
}

/// Adds a relative component to a path.
pub fn join(base: &str, part: &str) -> (path: String)
    ensures
        path@ == joined(base@, part@),
{
    let mut path = base.to_owned();
    let n: usize = base.unicode_len();
    if n > 0 && base.get_char(n - 1) != '/' {
        proof {
            reveal_strlit("/");
            assert("/"@ == seq!['/']);
        }
        path.append("/");
    }
    path.append(part);
    path
}

/// The name of a file without its extension, or the empty text where a path names none.
pub fn stem_of(path: &str) -> (stem: String)
    ensures
        stem@ == (match file_stem(path@) {
            Some(s) => s,
            None => Seq::<char>::empty(),
        }),
{
    let chars = chars_of(path);
    match name_span(&chars) {
        Some(span) => {
            assert(chars@.subrange(span.start as int, span.end as int).take(
                span.stem_end - span.start,
            ) == chars@.subrange(span.start as int, span.stem_end as int));
            path.substring_char(span.start, span.stem_end).to_owned()
        },
        None => String::new(),
    }
}

/// Whether a path has the extension `wanted`.
pub fn has_extension(path: &str, wanted: &str) -> (yes: bool)
    ensures
        yes == (extension(path@) == Some(wanted@)),
{
    let chars = chars_of(path);
    match name_span(&chars) {
        Some(span) => {
            if span.stem_end == span.end {
                return false;
            }
            let ghost name = chars@.subrange(span.start as int, span.end as int);
            assert(name.skip(after_last(name, '.')) == path@.subrange(
                span.stem_end + 1,
                span.end as int,
            ));
            same_text(path.substring_char(span.stem_end + 1, span.end), wanted)
        },
        None => false,
    }
}

/// A path up to the end of its stem.
pub fn strip_extension(path: &str) -> (stripped: String)
    ensures
        stripped@ == without_extension(path@),
{
    let chars = chars_of(path);
    match name_span(&chars) {
        Some(span) => {
            assert(path@.take(span.stem_end as int) == path@.subrange(0, span.stem_end as int));
            path.substring_char(0, span.stem_end).to_owned()
        },
        None => path.to_owned(),
    }
}

/// A path that ends in a plain file name has that file name.
pub proof fn lemma_joined_file_name(base: Seq<char>, name: Seq<char>)
    requires
        name.len() > 0,
        forall|i: int| 0 <= i < name.len() ==> name[i] != '/',
        name != seq!['.'],
        name != seq!['.', '.'],
    ensures
        file_name(joined(base, name)) == Some(name),
{
    let path = joined(base, name);
    let k = path.len() - name.len();
    assert(forall|i: int| 0 <= i < name.len() ==> path[k + i] == #[trigger] name[i]);
    assert(path.last() == name.last());
    if path.last() == '.' && path.len() >= 2 && path[path.len() - 2] == '/' {
        if name.len() >= 2 {
            assert(name[name.len() - 2] == path[path.len() - 2]);
        }
        assert(name == seq!['.']);
    }
    assert(trimmed(path) == path);
    assert forall|i: int| k <= i < path.len() implies path[i] != '/' by {
        assert(path[i] == name[i - k]);
    }
    lemma_after_last_is(path, '/', k);
    assert(path.skip(k) == name);
}

/// The stem and the extension of a plain file name that is put together from the two.
pub proof fn lemma_name_parts(path: Seq<char>, stem: Seq<char>, ext: Seq<char>)
    requires
        file_name(path) == Some(stem + seq!['.'] + ext),
        stem.len() > 0,
        forall|i: int| 0 <= i < ext.len() ==> ext[i] != '.',
    ensures
        file_stem(path) == Some(stem),
        extension(path) == Some(ext),
{
    let name = stem + seq!['.'] + ext;
    let k = stem.len() as int + 1;
    assert(name[k - 1] == '.');
    assert forall|i: int| k <= i < name.len() implies name[i] != '.' by {
        assert(name[i] == ext[i - k]);
    }
    lemma_after_last_is(name, '.', k);
    assert(name.take(k - 1) == stem);
    assert(name.skip(k) == ext);
}

/// A joined path is the base, one separator unless the base is empty or ends with one, and the part.
pub proof fn law_one_separator_joins(base: Seq<char>, part: Seq<char>)
    ensures
        base.len() == 0 ==> joined(base, part) == part,
        joined(base.push('/'), part) == base.push('/') + part,
        base.len() > 0 && base.last() != '/' ==> joined(base, part) == base.push('/') + part,
{
    assert(base.len() == 0 ==> joined(base, part) =~= part);
    assert(base.push('/') + part =~= base + seq!['/'] + part);
}

/// Separators and `.` components at the end of a path carry no meaning, and nothing else is taken off.
pub proof fn law_end_of_a_path_carries_no_meaning(path: Seq<char>)
    ensures
        trimmed(path.push('/')) == trimmed(path),
        trimmed(path.push('/').push('.')) == trimmed(path),
        file_name(path.push('/')) == file_name(path),
        file_name(path.push('/').push('.')) == file_name(path),
        path.len() > 0 && path.last() != '/' && path.last() != '.' ==> trimmed(path) == path,
        trimmed(path).is_prefix_of(path),
{
    assert(path.push('/').drop_last() =~= path);
    assert(path.push('/').push('.').drop_last() =~= path.push('/'));
    assert(path.push('/').push('.')[path.len() as int] == '/');
    lemma_trimmed_is_prefix(path);
}

proof fn lemma_trimmed_is_prefix(path: Seq<char>)
    ensures
        trimmed(path).is_prefix_of(path),
    decreases path.len(),
{
    if trimmed(path) != path {
        lemma_trimmed_is_prefix(path.drop_last());
        assert(trimmed(path) == trimmed(path.drop_last()));
        assert(trimmed(path).is_prefix_of(path.drop_last()));
        assert(path.subrange(0, trimmed(path).len() as int) =~= path.drop_last().subrange(
            0,
            trimmed(path).len() as int,
        ));
    } else {
        assert(path.subrange(0, path.len() as int) =~= path);
    }
}

/// A file name holds no separator, and is neither empty nor `.` nor `..`. What ends a path without
/// such marks at its end, after its last separator, is its file name.
pub proof fn law_what_a_file_name_is(dir: Seq<char>, name: Seq<char>, path: Seq<char>)
    requires
        forall|i: int| 0 <= i < name.len() ==> name[i] != '/',
    ensures
        file_name(path) matches Some(found) ==> found.len() > 0 && found != seq!['.'] && found
            != seq!['.', '.'] && forall|i: int| 0 <= i < found.len() ==> found[i] != '/',
        name.len() > 0 && name != seq!['.'] && name != seq!['.', '.'] ==> file_name(
            joined(dir, name),
        ) == Some(name),
        file_name(dir.push('/') + seq!['.', '.']) is None,
        file_name(Seq::<char>::empty()) is None,
{
    let t = trimmed(path);
    lemma_after_last(t, '/');
    let end = t.skip(after_last(t, '/'));
    assert forall|i: int| 0 <= i < end.len() implies end[i] != '/' by {
        assert(end[i] == t[after_last(t, '/') + i]);
    }
    if name.len() > 0 && name != seq!['.'] && name != seq!['.', '.'] {
        lemma_joined_file_name(dir, name);
    }
    let up = dir.push('/') + seq!['.', '.'];
    assert(up.last() == '.' && up[up.len() - 2] == '.');
    assert(trimmed(up) == up);
    lemma_after_last_is(up, '/', dir.len() as int + 1);
    assert(up.skip(dir.len() as int + 1) =~= seq!['.', '.']);
}

/// A file name splits at its last dot, unless that is its first character: the stem and the extension
/// with the dot between them are the name.
pub proof fn law_names_split_at_their_last_dot(path: Seq<char>)
    ensures
        file_name(path) is None ==> file_stem(path) is None && extension(path) is None,
        file_name(path) matches Some(name) ==> {
            &&& file_stem(path) is Some
            &&& match extension(path) {
                Some(ext) => {
                    &&& file_stem(path)->0.len() > 0
                    &&& name == file_stem(path)->0 + seq!['.'] + ext
                    &&& forall|i: int| 0 <= i < ext.len() ==> ext[i] != '.'
                },
                None => {
                    &&& file_stem(path)->0 == name
                    &&& forall|i: int| 1 <= i < name.len() ==> name[i] != '.'
                },
            }
        },
{
    if let Some(name) = file_name(path) {
        let k = after_last(name, '.');
        lemma_after_last(name, '.');
        if k >= 2 {
            assert(name =~= name.take(k - 1) + seq!['.'] + name.skip(k));
            let ext = name.skip(k);
            assert forall|i: int| 0 <= i < ext.len() implies ext[i] != '.' by {
                assert(ext[i] == name[k + i]);
            }
        } else {
            assert(name.take(name.len() as int) =~= name);
        }
    }
}

/// Taking the extension off a path takes off the dot and what follows it.
pub proof fn law_extension_is_taken_off(dir: Seq<char>, stem: Seq<char>, ext: Seq<char>)
    requires
        stem.len() > 0,
        forall|i: int| 0 <= i < stem.len() ==> stem[i] != '/',
        forall|i: int| 0 <= i < ext.len() ==> ext[i] != '/' && ext[i] != '.',
        ext.len() > 0 || stem != seq!['.'],
    ensures
        without_extension(joined(dir, stem + seq!['.'] + ext)) == joined(dir, stem),
{
    let name = stem + seq!['.'] + ext;
    let path = joined(dir, name);
    assert forall|i: int| 0 <= i < name.len() implies name[i] != '/' by {
        if i < stem.len() {
            assert(name[i] == stem[i]);
        } else if i > stem.len() {
            assert(name[i] == ext[i - stem.len() - 1]);
        }
    }
    assert(name.len() >= 2);
    assert(name != seq!['.']);
    if name == seq!['.', '.'] {
        assert(name[0] == '.' && stem[0] == name[0]);
        assert(stem.len() + 1 + ext.len() == 2);
        if ext.len() == 0 {
            assert(stem =~= seq!['.']);
        }
    }
    lemma_joined_file_name(dir, name);
    let k = path.len() - name.len();
    assert forall|i: int| k <= i < path.len() implies path[i] != '/' by {
        assert(path[i] == name[i - k]);
    }
    let t = trimmed(path);
    lemma_plain_end_is_kept(dir, name);
    lemma_after_last_is(path, '/', k);
    assert(name[stem.len() as int] == '.');
    assert forall|i: int| stem.len() + 1 <= i < name.len() implies name[i] != '.' by {
        assert(name[i] == ext[i - stem.len() - 1]);
    }
    lemma_after_last_is(name, '.', stem.len() as int + 1);
    assert(path.take(k + stem.len()) =~= joined(dir, stem));
}

proof fn lemma_plain_end_is_kept(base: Seq<char>, name: Seq<char>)
    requires
        name.len() > 0,
        forall|i: int| 0 <= i < name.len() ==> name[i] != '/',
        name != seq!['.'],
    ensures
        trimmed(joined(base, name)) == joined(base, name),
{
    let path = joined(base, name);
    let k = path.len() - name.len();
    assert(forall|i: int| 0 <= i < name.len() ==> path[k + i] == #[trigger] name[i]);
    assert(path.last() == name.last());
    if path.last() == '.' && path.len() >= 2 && path[path.len() - 2] == '/' {
        if name.len() >= 2 {
            assert(name[name.len() - 2] == path[path.len() - 2]);
        }
        assert(name =~= seq!['.']);
    }
}

} // verus!
