//! Path handling on plain strings. A path is a sequence of components
//! separated by `/`; the file name is everything after the last `/`, its
//! extension everything after the last `.` of the file name, provided that
//! dot is not its first character.

use vstd::prelude::*;
use crate::text::view_opt;

verus! {

/// The position of the last occurrence of `c` in `s`, if any.
pub open spec fn rfind_char(s: Seq<char>, c: char) -> Option<int>
    decreases s.len(),
{
    if s.len() == 0 {
        Option::None
    } else if s[s.len() - 1] == c {
        Option::Some(s.len() - 1)
    } else {
        rfind_char(s.drop_last(), c)
    }
}

/// The file name of a path: everything after the last `/`, or the whole
/// path if it has no `/`.
pub open spec fn file_name_spec(p: Seq<char>) -> Seq<char> {
    match rfind_char(p, '/') {
        Option::Some(i) => p.subrange(i + 1, p.len() as int),
        Option::None => p,
    }
}

/// The extension of a path: the part of the file name after its last `.`,
/// unless that dot is the file name's first character or absent.
pub open spec fn extension_spec(p: Seq<char>) -> Option<Seq<char>> {
    let name = file_name_spec(p);
    match rfind_char(name, '.') {
        Option::Some(i) => if i == 0 {
            Option::None
        } else {
            Option::Some(name.subrange(i + 1, name.len() as int))
        },
        Option::None => Option::None,
    }
}

/// The stem of a path: the file name up to its last `.`, the whole file
/// name if there is no extension, and nothing for an empty file name.
pub open spec fn file_stem_spec(p: Seq<char>) -> Option<Seq<char>> {
    let name = file_name_spec(p);
    if name.len() == 0 {
        Option::None
    } else {
        match rfind_char(name, '.') {
            Option::Some(i) => if i == 0 {
                Option::Some(name)
            } else {
                Option::Some(name.subrange(0, i))
            },
            Option::None => Option::Some(name),
        }
    }
}

/// A path with its extension replaced by `e` (or `.e` appended when it has
/// none); a path with an empty file name is unchanged.
pub open spec fn with_extension_spec(p: Seq<char>, e: Seq<char>) -> Seq<char> {
    let name = file_name_spec(p);
    let dir = p.subrange(0, p.len() - name.len());
    if name.len() == 0 {
        p
    } else {
        match rfind_char(name, '.') {
            Option::Some(i) => if i == 0 {
                dir + name + seq!['.'] + e
            } else {
                dir + name.subrange(0, i) + seq!['.'] + e
            },
            Option::None => dir + name + seq!['.'] + e,
        }
    }
}

proof fn lemma_rfind_char_bounds(s: Seq<char>, c: char)
    ensures
        match rfind_char(s, c) {
            Option::Some(i) => 0 <= i < s.len() && s[i] == c,
            Option::None => true,
        },
    decreases s.len(),
{
    if s.len() > 0 && s[s.len() - 1] != c {
        lemma_rfind_char_bounds(s.drop_last(), c);
    }
}

/// Finds the position of the last occurrence of `c` in `s`.
fn rfind_char_exec(s: &str, c: char) -> (r: Option<usize>)
    ensures
        match r {
            Option::Some(i) => Option::Some(i as int) == rfind_char(s@, c),
            Option::None => rfind_char(s@, c) is None,
        },
{
    let len = s.unicode_len();
    let mut i: usize = len;
    proof {
        assert(s@.subrange(0, len as int) =~= s@);
    }
    while i > 0
        invariant
            len == s@.len(),
            0 <= i <= len,
            rfind_char(s@, c) == rfind_char(s@.subrange(0, i as int), c),
        decreases i,
    {
        proof {
            assert(s@.subrange(0, i as int).drop_last() =~= s@.subrange(0, i - 1));
        }
        if s.get_char(i - 1) == c {
            assert(s@.subrange(0, i as int)[i - 1] == s@[i - 1]);
            return Some(i - 1);
        }
        assert(s@.subrange(0, i as int)[i - 1] == s@[i - 1]);
        i -= 1;
    }
    proof {
        assert(s@.subrange(0, 0) =~= Seq::<char>::empty());
    }
    None
}

/// The file name of `p` as an owned string.
pub fn file_name(p: &str) -> (r: String)
    ensures
        r@ == file_name_spec(p@),
{
    let len = p.unicode_len();
    match rfind_char_exec(p, '/') {
        Some(i) => {
            proof {
                lemma_rfind_char_bounds(p@, '/');
            }
            crate::text::substring(p, i + 1, len)
        },
        None => p.to_owned(),
    }
}

/// Whether `path` has exactly the extension `format`.
pub fn has_extension(path: &str, format: &str) -> (r: bool)
    ensures
        r == (extension_spec(path@) == Option::Some(format@)),
{
    match get_extension(path) {
        Some(e) => crate::text::str_eq(e.as_str(), format),
        None => false,
    }
}

/// The extension of `path` as an owned string, if it has one.
pub fn get_extension(path: &str) -> (r: Option<String>)
    ensures
        view_opt(r) == extension_spec(path@),
{
    let name = file_name(path);
    let nlen = name.as_str().unicode_len();
    match rfind_char_exec(name.as_str(), '.') {
        Some(i) => {
            proof {
                lemma_rfind_char_bounds(name@, '.');
            }
            if i == 0 {
                None
            } else {
                Some(crate::text::substring(name.as_str(), i + 1, nlen))
            }
        },
        None => None,
    }
}

/// The stem of `path` (its file name without the extension), if the file
/// name is not empty.
pub fn file_stem(path: &str) -> (r: Option<String>)
    ensures
        view_opt(r) == file_stem_spec(path@),
{
    let name = file_name(path);
    let nlen = name.as_str().unicode_len();
    if nlen == 0 {
        return None;
    }
    match rfind_char_exec(name.as_str(), '.') {
        Some(i) => {
            proof {
                lemma_rfind_char_bounds(name@, '.');
            }
            if i == 0 {
                Some(name)
            } else {
                Some(crate::text::substring(name.as_str(), 0, i))
            }
        },
        None => Some(name),
    }
}

/// Replaces the extension of `path` with `e`, appending one if absent.
pub fn with_extension(path: &str, e: &str) -> (r: String)
    ensures
        r@ == with_extension_spec(path@, e@),
{
    let len = p_len(path);
    let name = file_name(path);
    let nlen = name.as_str().unicode_len();
    if nlen == 0 {
        return path.to_owned();
    }
    assert(nlen <= len) by {
        lemma_rfind_char_bounds(path@, '/');
    }
    let dir = crate::text::substring(path, 0, len - nlen);
    proof {
        lemma_rfind_char_bounds(name@, '.');
    }
    let stem_end: usize = match rfind_char_exec(name.as_str(), '.') {
        Some(i) => if i == 0 {
            nlen
        } else {
            i
        },
        None => nlen,
    };
    let stem = crate::text::substring(name.as_str(), 0, stem_end);
    let mut out = dir;
    out.append(stem.as_str());
    out.append(".");
    out.append(e);
    proof {
        if stem_end == nlen {
            assert(name@.subrange(0, nlen as int) =~= name@);
        }
        reveal_strlit(".");
        assert(out@ =~= with_extension_spec(path@, e@));
    }
    out
}

/// The character length of `path`.
fn p_len(path: &str) -> (r: usize)
    ensures
        r == path@.len(),
{
    path.unicode_len()
}

/// `name` placed under the directory path `prefix`; an empty prefix stands
/// for the root itself.
pub open spec fn join_under(prefix: Seq<char>, name: Seq<char>) -> Seq<char> {
    if prefix.len() == 0 {
        name
    } else {
        prefix + seq!['/'] + name
    }
}

/// Appends `name` to the directory path `prefix`.
pub fn join_path(prefix: &str, name: &str) -> (r: String)
    ensures
        r@ == join_under(prefix@, name@),
{
    if prefix.unicode_len() == 0 {
        name.to_owned()
    } else {
        let mut out = prefix.to_owned();
        out.append("/");
        out.append(name);
        proof {
            reveal_strlit("/");
            assert(out@ =~= prefix@ + seq!['/'] + name@);
        }
        out
    }
}

proof fn lemma_rfind_char_absent(s: Seq<char>, c: char)
    requires
        forall|i: int| 0 <= i < s.len() ==> s[i] != c,
    ensures
        rfind_char(s, c) is None,
    decreases s.len(),
{
    if s.len() > 0 {
        lemma_rfind_char_absent(s.drop_last(), c);
    }
}

proof fn lemma_rfind_char_concat_absent(a: Seq<char>, b: Seq<char>, c: char)
    requires
        forall|i: int| 0 <= i < b.len() ==> b[i] != c,
    ensures
        rfind_char(a + b, c) == rfind_char(a, c),
    decreases b.len(),
{
    if b.len() == 0 {
        assert(a + b =~= a);
    } else {
        assert((a + b).drop_last() =~= a + b.drop_last());
        assert((a + b).last() == b.last());
        lemma_rfind_char_concat_absent(a, b.drop_last(), c);
    }
}

/// A file name without `/` placed under any prefix is the file name of the
/// joined path, so the joined path has a stem.
pub proof fn lemma_join_under_file_name(prefix: Seq<char>, name: Seq<char>)
    requires
        name.len() > 0,
        forall|i: int| 0 <= i < name.len() ==> name[i] != '/',
    ensures
        file_name_spec(join_under(prefix, name)) == name,
        file_stem_spec(join_under(prefix, name)) is Some,
{
    let p = join_under(prefix, name);
    if prefix.len() == 0 {
        lemma_rfind_char_absent(name, '/');
    } else {
        let base = prefix + seq!['/'];
        lemma_rfind_char_concat_absent(base, name, '/');
        assert(base + name =~= p);
        assert(rfind_char(base, '/') == Option::Some(base.len() - 1)) by {
            assert(base[base.len() - 1] == '/');
        }
        assert(file_name_spec(p) =~= name);
    }
}

} // verus!
