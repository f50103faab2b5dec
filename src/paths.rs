//! `/`-separated paths: joining, parent directory, file name and stem.
use vstd::prelude::*;
use crate::text::push_char;

verus! {

/// The position of the last `c` in `s`, or -1.
pub open spec fn last_index(s: Seq<char>, c: char) -> int
    decreases s.len(),
{
    if s.len() == 0 {
        -1
    } else if s.last() == c {
        s.len() - 1
    } else {
        last_index(s.drop_last(), c)
    }
}

proof fn lemma_last_index(s: Seq<char>, c: char)
    ensures
        -1 <= last_index(s, c) < s.len(),
        last_index(s, c) >= 0 ==> s[last_index(s, c)] == c,
        forall|j: int| last_index(s, c) < j < s.len() ==> s[j] != c,
    decreases s.len(),
{
    if s.len() > 0 && s.last() != c {
        lemma_last_index(s.drop_last(), c);
        assert forall|j: int| last_index(s, c) < j < s.len() implies s[j] != c by {
            if j < s.len() - 1 {
                assert(s[j] == s.drop_last()[j]);
            }
        }
    }
}

/// Finds the position of the last `c` in `s`.
pub fn find_last(s: &str, c: char) -> (r: Option<usize>)
    ensures
        match r {
            Some(i) => i as int == last_index(s@, c),
            None => last_index(s@, c) == -1,
        },
{
    let n = s.unicode_len();
    let mut i: usize = n;
    proof {
        assert(s@.take(n as int) == s@);
    }
    while i > 0
        invariant
            n == s@.len(),
            i <= n,
            last_index(s@, c) == last_index(s@.take(i as int), c),
        decreases i,
    {
        proof {
            assert(s@.take(i as int).drop_last() == s@.take(i - 1));
        }
        if s.get_char(i - 1) == c {
            return Some(i - 1);
        }
        i = i - 1;
    }
    None
}

/// The text of `p` before its last `/`: `/` itself for a path directly under the root,
/// empty for a path without `/`.
pub open spec fn parent(p: Seq<char>) -> Seq<char> {
    let k = last_index(p, '/');
    if k > 0 {
        p.take(k)
    } else if k == 0 {
        seq!['/']
    } else {
        Seq::empty()
    }
}

/// The text of `p` after its last `/`.
pub open spec fn file_name(p: Seq<char>) -> Seq<char> {
    p.skip(last_index(p, '/') + 1)
}

/// A file name without its extension: the text before the last `.`, unless that `.`
/// starts the name.
pub open spec fn stem(name: Seq<char>) -> Seq<char> {
    let k = last_index(name, '.');
    if k > 0 {
        name.take(k)
    } else {
        name
    }
}

/// `b` appended to the directory `a`: `b` itself when it is absolute or `a` is empty.
pub open spec fn join(a: Seq<char>, b: Seq<char>) -> Seq<char> {
    if b.len() > 0 && b[0] == '/' {
        b
    } else if a.len() == 0 {
        b
    } else if a.last() == '/' {
        a + b
    } else {
        a.push('/') + b
    }
}

/// The parent directory of `p`.
pub fn parent_of(p: &str) -> (r: String)
    ensures
        r@ == parent(p@),
{
    proof {
        lemma_last_index(p@, '/');
    }
    match find_last(p, '/') {
        Some(k) => {
            if k > 0 {
                String::from_str(p.substring_char(0, k))
            } else {
                let mut s = String::new();
                push_char(&mut s, '/');
                s
            }
        },
        None => String::new(),
    }
}

/// The file name of `p`.
pub fn file_name_of(p: &str) -> (r: String)
    ensures
        r@ == file_name(p@),
{
    proof {
        lemma_last_index(p@, '/');
    }
    let n = p.unicode_len();
    match find_last(p, '/') {
        Some(k) => String::from_str(p.substring_char(k + 1, n)),
        None => {
            proof {
                assert(p@.skip(0) == p@);
            }
            String::from_str(p)
        },
    }
}

/// The stem of the file name `name`.
pub fn stem_of(name: &str) -> (r: String)
    ensures
        r@ == stem(name@),
{
    proof {
        lemma_last_index(name@, '.');
    }
    match find_last(name, '.') {
        Some(k) => {
            if k > 0 {
                String::from_str(name.substring_char(0, k))
            } else {
                String::from_str(name)
            }
        },
        None => String::from_str(name),
    }
}

/// Joins the directory `a` and the path `b`.
pub fn join_path(a: &str, b: &str) -> (r: String)
    ensures
        r@ == join(a@, b@),
{
    let nb = b.unicode_len();
    let na = a.unicode_len();
    if nb > 0 && b.get_char(0) == '/' {
        String::from_str(b)
    } else if na == 0 {
        String::from_str(b)
    } else if a.get_char(na - 1) == '/' {
        let mut s = String::from_str(a);
        s.append(b);
        s
    } else {
        let mut s = String::from_str(a);
        push_char(&mut s, '/');
        s.append(b);
        s
    }
}

/// Concatenates two texts.
pub fn concat(a: &str, b: &str) -> (r: String)
    ensures
        r@ == a@ + b@,
{
    let mut s = String::from_str(a);
    s.append(b);
    s
}

} // verus!
