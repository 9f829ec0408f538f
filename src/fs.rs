//! Paths as text: the last component of a path and joining a name onto a
//! directory, with the Unix separator `/`.

use vstd::prelude::*;
use crate::text::{lines_of, text_lines};

verus! {

/// What follows the last `/` of a path (the whole path if it has none).
pub open spec fn last_segment(p: Seq<char>) -> Seq<char>
    decreases p.len(),
{
    if p.len() == 0 {
        p
    } else if p.last() == '/' {
        Seq::empty()
    } else {
        last_segment(p.drop_last()).push(p.last())
    }
}

/// The file name of a path: its last segment, unless that is empty, `.` or
/// `..`.
pub open spec fn file_name_of(p: Seq<char>) -> Option<Seq<char>> {
    let n = last_segment(p);
    if n.len() == 0 || n == seq!['.'] || n == seq!['.', '.'] {
        None
    } else {
        Some(n)
    }
}

/// `name` placed inside `dir`: an absolute name stands alone, and a
/// separator is added only where `dir` does not already end with one.
pub open spec fn joined_path(dir: Seq<char>, name: Seq<char>) -> Seq<char> {
    if name.len() > 0 && name[0] == '/' {
        name
    } else if dir.len() == 0 {
        name
    } else if dir.last() == '/' {
        dir + name
    } else {
        dir + seq!['/'] + name
    }
}

/// The file name of `path`, if it has one.
pub fn file_name(path: &str) -> (r: Option<String>)
    ensures
        match r {
            Some(n) => file_name_of(path@) == Some(n@),
            None => file_name_of(path@) is None,
        },
{
    let n = path.unicode_len();
    let mut i: usize = n;
    assert(path@.subrange(0, n as int) =~= path@);
    assert(last_segment(path@) =~= last_segment(path@) + path@.subrange(n as int, n as int));
    while i > 0 && path.get_char(i - 1) != '/'
        invariant
            n == path@.len(),
            i <= n,
            last_segment(path@) == last_segment(path@.subrange(0, i as int)) + path@.subrange(
                i as int,
                n as int,
            ),
        decreases i,
    {
        let ghost before = path@.subrange(0, i as int);
        assert(before.drop_last() =~= path@.subrange(0, i - 1));
        assert(path@.subrange(i - 1, n as int) =~= seq![before.last()] + path@.subrange(
            i as int,
            n as int,
        ));
        assert(last_segment(before) =~= last_segment(path@.subrange(0, i - 1)).push(
            before.last(),
        ));
        i = i - 1;
        assert(last_segment(path@) =~= last_segment(path@.subrange(0, i as int))
            + path@.subrange(i as int, n as int));
    }
    assert(last_segment(path@.subrange(0, i as int)) =~= Seq::<char>::empty());
    let name = path.substring_char(i, n);
    assert(name@ =~= last_segment(path@));
    let len = name.unicode_len();
    if len == 0 {
        None
    } else if len == 1 && name.get_char(0) == '.' {
        assert(name@ =~= seq!['.']);
        None
    } else if len == 2 && name.get_char(0) == '.' && name.get_char(1) == '.' {
        assert(name@ =~= seq!['.', '.']);
        None
    } else {
        assert(name@ != seq!['.']) by {
            if len == 1 {
                assert(seq!['.'][0] == '.');
            }
        }
        assert(name@ != seq!['.', '.']) by {
            if len == 2 {
                assert(seq!['.', '.'][0] == '.');
                assert(seq!['.', '.'][1] == '.');
            }
        }
        Some(String::from_str(name))
    }
}

/// `name` placed inside `dir`.
pub fn join_path(dir: &str, name: &str) -> (r: String)
    ensures
        r@ == joined_path(dir@, name@),
{
    let dir_len = dir.unicode_len();
    if name.unicode_len() > 0 && name.get_char(0) == '/' {
        String::from_str(name)
    } else if dir_len == 0 {
        String::from_str(name)
    } else if dir.get_char(dir_len - 1) == '/' {
        let mut r = String::from_str(dir);
        r.append(name);
        r
    } else {
        let mut r = String::from_str(dir);
        r.append("/");
        r.append(name);
        proof {
            reveal_strlit("/");
        }
        assert(r@ =~= dir@ + seq!['/'] + name@);
        r
    }
}

/// The last line of a text, or the empty string where it has no line.
pub fn last_line(text: &str) -> (r: String)
    ensures
        lines_of(text@).len() == 0 ==> r@ == Seq::<char>::empty(),
        lines_of(text@).len() > 0 ==> r@ == lines_of(text@).last(),
{
    let mut lines = text_lines(text);
    let k = lines.len();
    if k == 0 {
        String::new()
    } else {
        assert(lines@[k - 1]@ == lines_of(text@)[k - 1]);
        lines.swap_remove(k - 1)
    }
}

} // verus!
