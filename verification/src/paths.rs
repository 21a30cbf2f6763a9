//! Paths as plain text: the base name, the extension, and joining.
//!
//! A path is a string whose parts are separated by `/`. Parts that are empty
//! or `.` name nothing and are looked past.

use vstd::prelude::*;

verus! {

/// The index of the last `c` in `s`, or -1 where `s` holds none.
pub open spec fn last_index_of(s: Seq<char>, c: char) -> int
    decreases s.len(),
{
    if s.len() == 0 {
        -1
    } else if s.last() == c {
        s.len() - 1
    } else {
        last_index_of(s.drop_last(), c)
    }
}

/// Whether a part of a path names nothing: the empty part, which a doubled
/// or trailing separator leaves, and the part `.`, which stands for the
/// directory it is in.
pub open spec fn is_passed_over(part: Seq<char>) -> bool {
    part.len() == 0 || part =~= seq!['.']
}

/// The name of the file that `path` leads to: its last part, looking past
/// the parts that name nothing. The parent marker `..` names no file, so a
/// path that ends in it has the empty name, as has a path without any part
/// that names something.
pub open spec fn base_name(path: Seq<char>) -> Seq<char>
    decreases path.len(),
{
    let cut = last_index_of(path, '/');
    let tail = path.subrange(cut + 1, path.len() as int);
    if is_passed_over(tail) {
        if 0 <= cut < path.len() {
            base_name(path.subrange(0, cut))
        } else {
            Seq::empty()
        }
    } else if tail =~= seq!['.', '.'] {
        Seq::empty()
    } else {
        tail
    }
}

/// What follows the last dot of the base name. A name without a dot, or whose
/// only dot is its first character, has no extension.
pub open spec fn extension(path: Seq<char>) -> Option<Seq<char>> {
    let name = base_name(path);
    let dot = last_index_of(name, '.');
    if dot <= 0 {
        None
    } else {
        Some(name.subrange(dot + 1, name.len() as int))
    }
}

/// `name` placed under `dir`: an absolute `name` stands alone, otherwise one
/// separator comes between the two unless `dir` is empty or ends in one.
pub open spec fn joined(dir: Seq<char>, name: Seq<char>) -> Seq<char> {
    if name.len() > 0 && name[0] == '/' {
        name
    } else if dir.len() == 0 || dir.last() == '/' {
        dir + name
    } else {
        dir + seq!['/'] + name
    }
}

/// `last_index_of` points at an occurrence of `c` after which none follows,
/// and is -1 exactly where `c` does not occur.
pub proof fn lemma_last_index_of(s: Seq<char>, c: char)
    ensures
        -1 <= last_index_of(s, c) < s.len(),
        last_index_of(s, c) >= 0 ==> s[last_index_of(s, c)] == c,
        forall|i: int| last_index_of(s, c) < i < s.len() ==> s[i] != c,
    decreases s.len(),
{
    if s.len() > 0 && s.last() != c {
        let t = s.drop_last();
        lemma_last_index_of(t, c);
        assert forall|i: int| last_index_of(s, c) < i < s.len() implies s[i] != c by {
            if i < t.len() {
                assert(s[i] == t[i]);
            }
        }
    }
}

/// Finds the last `c` in `s`.
pub fn find_last(s: &str, c: char) -> (r: Option<usize>)
    ensures
        match r {
            Some(i) => i as int == last_index_of(s@, c),
            None => last_index_of(s@, c) == -1,
        },
{
    let n = s.unicode_len();
    let mut i: usize = n;
    assert(s@.subrange(0, n as int) =~= s@);
    while i > 0
        invariant
            i <= n,
            n == s@.len(),
            last_index_of(s@, c) == last_index_of(s@.subrange(0, i as int), c),
        decreases i,
    {
        if s.get_char(i - 1) == c {
            return Some(i - 1);
        }
        assert(s@.subrange(0, i as int).drop_last() =~= s@.subrange(0, i - 1));
        i -= 1;
    }
    None
}

/// The base name of `path`.
pub fn file_name(path: &str) -> (r: String)
    ensures
        r@ == base_name(path@),
{
    let mut end: usize = path.unicode_len();
    assert(path@.subrange(0, end as int) =~= path@);
    loop
        invariant
            end <= path@.len(),
            base_name(path@) == base_name(path@.subrange(0, end as int)),
        decreases end,
    {
        let head = path.substring_char(0, end);
        proof {
            lemma_last_index_of(head@, '/');
        }
        let start: usize = match find_last(head, '/') {
            Some(i) => i + 1,
            None => 0,
        };
        let tail = head.substring_char(start, end);
        let n: usize = end - start;
        if n == 0 || (n == 1 && tail.get_char(0) == '.') {
            assert(is_passed_over(tail@)) by {
                if n == 1 {
                    assert(tail@ =~= seq!['.']);
                }
            }
            if start == 0 {
                return String::new();
            }
            assert(head@.subrange(0, start - 1) =~= path@.subrange(0, start - 1));
            end = start - 1;
        } else {
            assert(!is_passed_over(tail@)) by {
                if n == 1 {
                    assert(tail@[0] != '.');
                }
            }
            if n == 2 && tail.get_char(0) == '.' && tail.get_char(1) == '.' {
                assert(tail@ =~= seq!['.', '.']);
                return String::new();
            }
            return String::from_str(tail);
        }
    }
}

/// The extension of `path`, without its dot.
pub fn file_extension(path: &str) -> (r: Option<String>)
    ensures
        match r {
            Some(e) => extension(path@) == Some(e@),
            None => extension(path@) is None,
        },
{
    let name = file_name(path);
    let n = name.as_str().unicode_len();
    proof {
        lemma_last_index_of(name@, '.');
    }
    match find_last(name.as_str(), '.') {
        Some(dot) => {
            if dot == 0 {
                None
            } else {
                Some(String::from_str(name.as_str().substring_char(dot + 1, n)))
            }
        },
        None => None,
    }
}

/// Places `name` under `dir`.
pub fn join_path(dir: &str, name: &str) -> (r: String)
    ensures
        r@ == joined(dir@, name@),
{
    proof {
        reveal_strlit("/");
    }
    let dir_len = dir.unicode_len();
    if name.unicode_len() > 0 && name.get_char(0) == '/' {
        String::from_str(name)
    } else if dir_len == 0 || dir.get_char(dir_len - 1) == '/' {
        let mut out = String::from_str(dir);
        out.append(name);
        out
    } else {
        let mut out = String::from_str(dir);
        out.append("/");
        out.append(name);
        assert(out@ =~= dir@ + seq!['/'] + name@);
        out
    }
}

} // verus!
