//! Slash-separated relative paths as `std::path::Path` reads them on Unix:
//! splitting on `/`, the first and the last component, and joining.

use vstd::prelude::*;
use vstd::string::*;
use crate::text::{chars_of, push_char, string_from_chars};

verus! {

/// `str::split('/')`: the pieces between slashes, empty pieces included.
pub open spec fn split_slash(s: Seq<char>) -> Seq<Seq<char>>
    decreases s.len(),
{
    if s.len() == 0 {
        seq![Seq::<char>::empty()]
    } else {
        let init = split_slash(s.drop_last());
        if s.last() == '/' {
            init.push(Seq::<char>::empty())
        } else {
            init.update(init.len() - 1, init.last().push(s.last()))
        }
    }
}

/// Splitting always yields at least one piece.
pub proof fn lemma_split_slash_nonempty(s: Seq<char>)
    ensures
        split_slash(s).len() >= 1,
    decreases s.len(),
{
    if s.len() > 0 {
        lemma_split_slash_nonempty(s.drop_last());
    }
}

/// Without a slash the whole text is the one piece.
pub proof fn lemma_split_slash_none(s: Seq<char>)
    requires
        !s.contains('/'),
    ensures
        split_slash(s) == seq![s],
    decreases s.len(),
{
    if s.len() > 0 {
        assert(!s.drop_last().contains('/')) by {
            if s.drop_last().contains('/') {
                let j = choose|j: int| 0 <= j < s.drop_last().len() && s.drop_last()[j] == '/';
                assert(s[j] == '/');
            }
        }
        lemma_split_slash_none(s.drop_last());
        assert(s.last() != '/') by {
            assert(s[s.len() - 1] == s.last());
        }
        assert(s.drop_last().push(s.last()) =~= s);
        assert(seq![s.drop_last()].update(0, s.drop_last().push(s.last())) =~= seq![s]);
    } else {
        assert(s =~= Seq::<char>::empty());
    }
}

/// Appending text without a slash extends the last piece.
pub proof fn lemma_split_slash_append_plain(x: Seq<char>, b: Seq<char>)
    requires
        !b.contains('/'),
    ensures
        split_slash(x).len() >= 1,
        split_slash(x + b) == split_slash(x).update(split_slash(x).len() - 1, split_slash(x).last() + b),
    decreases b.len(),
{
    lemma_split_slash_nonempty(x);
    let sx = split_slash(x);
    if b.len() == 0 {
        assert(x + b =~= x);
        assert(sx.last() + b =~= sx.last());
        assert(sx.update(sx.len() - 1, sx.last()) =~= sx);
    } else {
        let b2 = b.drop_last();
        assert(!b2.contains('/')) by {
            if b2.contains('/') {
                let j = choose|j: int| 0 <= j < b2.len() && b2[j] == '/';
                assert(b[j] == '/');
            }
        }
        lemma_split_slash_append_plain(x, b2);
        assert((x + b).drop_last() =~= x + b2);
        assert((x + b).last() == b.last());
        assert(b.last() != '/') by {
            assert(b[b.len() - 1] == b.last());
        }
        assert(sx.last() + b2.push(b.last()) =~= sx.last() + b);
        assert(b2.push(b.last()) =~= b);
        let s2 = sx.update(sx.len() - 1, sx.last() + b2);
        assert(s2.update(s2.len() - 1, s2.last().push(b.last())) =~= sx.update(sx.len() - 1, sx.last() + b));
    }
}

/// The pieces of `s` between slashes.
pub fn split_on_slash(s: &str) -> (pieces: Vec<String>)
    ensures
        pieces@.len() == split_slash(s@).len(),
        forall|i: int| 0 <= i < pieces@.len() ==> #[trigger] pieces@[i]@ == split_slash(s@)[i],
{
    let chars = chars_of(s);
    let mut pieces: Vec<String> = Vec::new();
    let mut start: usize = 0;
    let mut i: usize = 0;
    let ghost mut done: Seq<Seq<char>> = Seq::empty();
    proof {
        assert(s@.take(0) =~= Seq::<char>::empty());
        assert(chars@.subrange(0, 0) =~= Seq::<char>::empty());
    }
    while i < chars.len()
        invariant
            chars@ == s@,
            start <= i <= chars@.len(),
            done.push(chars@.subrange(start as int, i as int)) == split_slash(s@.take(i as int)),
            pieces@.len() == done.len(),
            forall|j: int| 0 <= j < pieces@.len() ==> #[trigger] pieces@[j]@ == done[j],
        decreases chars@.len() - i,
    {
        let c = chars[i];
        proof {
            assert(s@.take(i + 1).drop_last() =~= s@.take(i as int));
            assert(s@.take(i + 1).last() == c);
        }
        if c == '/' {
            let piece = string_from_chars(chars.as_slice(), start, i);
            proof {
                assert(chars@.subrange((i + 1) as int, (i + 1) as int) =~= Seq::<char>::empty());
                done = done.push(chars@.subrange(start as int, i as int));
            }
            pieces.push(piece);
            start = i + 1;
        } else {
            proof {
                assert(chars@.subrange(start as int, i + 1) =~= chars@.subrange(start as int, i as int).push(c));
                assert(done.push(chars@.subrange(start as int, i as int)).update(done.len() as int, chars@.subrange(start as int, i + 1))
                    =~= done.push(chars@.subrange(start as int, i + 1)));
            }
        }
        i = i + 1;
    }
    let last = string_from_chars(chars.as_slice(), start, chars.len());
    proof {
        assert(s@.take(chars@.len() as int) =~= s@);
        done = done.push(chars@.subrange(start as int, chars@.len() as int));
    }
    pieces.push(last);
    pieces
}

/// The name that `Path::components().next()` yields for a relative path when
/// that first component is a normal name: `None` for an empty path, a path
/// that starts at the root, and paths that begin with `.` or `..`.
pub open spec fn first_normal_component(p: Seq<char>) -> Option<Seq<char>> {
    if p.len() == 0 || p[0] == '/' {
        None
    } else {
        let first = split_slash(p)[0];
        if first == "."@ || first == ".."@ {
            None
        } else {
            Some(first)
        }
    }
}

/// The components of a path other than empty pieces and `.`.
pub open spec fn named_pieces(p: Seq<char>) -> Seq<Seq<char>> {
    split_slash(p).filter(|piece: Seq<char>| piece.len() > 0 && piece != "."@)
}

/// `Path::file_name`: the last component when it is a normal name.
pub open spec fn file_name_of(p: Seq<char>) -> Option<Seq<char>> {
    let named = named_pieces(p);
    if named.len() == 0 || named.last() == ".."@ {
        None
    } else {
        Some(named.last())
    }
}

/// `PathBuf::join` of a relative name: a `/` between the two unless the base is
/// empty or already ends with one.
pub open spec fn join_path(root: Seq<char>, name: Seq<char>) -> Seq<char> {
    if root.len() == 0 || root.last() == '/' {
        root + name
    } else {
        root.push('/') + name
    }
}

/// The first component of a relative path, where it is a normal name.
pub fn first_component(p: &str) -> (name: Option<String>)
    ensures
        match name {
            Some(n) => first_normal_component(p@) == Some(n@),
            None => first_normal_component(p@) is None,
        },
{
    let chars = chars_of(p);
    if chars.len() == 0 || chars[0] == '/' {
        return None;
    }
    let pieces = split_on_slash(p);
    proof {
        reveal_strlit(".");
        reveal_strlit("..");
        lemma_split_slash_nonempty(p@);
    }
    let first = pieces[0].clone();
    if crate::text::str_equal(first.as_str(), ".") || crate::text::str_equal(first.as_str(), "..") {
        None
    } else {
        Some(first)
    }
}

/// `PathBuf::join` of a relative name.
pub fn join(root: &str, name: &str) -> (path: String)
    ensures
        path@ == join_path(root@, name@),
{
    let chars = chars_of(root);
    let mut path = String::from_str(root);
    if chars.len() > 0 && chars[chars.len() - 1] != '/' {
        push_char(&mut path, '/');
    }
    path.append(name);
    path
}

/// `Path::file_name`.
pub fn file_name(p: &str) -> (name: Option<String>)
    ensures
        match name {
            Some(n) => file_name_of(p@) == Some(n@),
            None => file_name_of(p@) is None,
        },
{
    let pieces = split_on_slash(p);
    let ghost all = split_slash(p@);
    let ghost pred = |piece: Seq<char>| piece.len() > 0 && piece != "."@;
    proof {
        reveal_strlit(".");
        reveal_strlit("..");
    }
    let mut last: Option<String> = None;
    let mut i: usize = 0;
    while i < pieces.len()
        invariant
            pieces@.len() == all.len(),
            all == split_slash(p@),
            forall|j: int| 0 <= j < pieces@.len() ==> #[trigger] pieces@[j]@ == all[j],
            i <= pieces@.len(),
            pred == (|piece: Seq<char>| piece.len() > 0 && piece != "."@),
            match last {
                Some(l) => all.take(i as int).filter(pred).len() > 0 && all.take(i as int).filter(pred).last() == l@,
                None => all.take(i as int).filter(pred).len() == 0,
            },
        decreases pieces@.len() - i,
    {
        let piece = &pieces[i];
        let keep = !piece.as_str().is_empty() && !crate::text::str_equal(piece.as_str(), ".");
        proof {
            reveal_with_fuel(Seq::filter, 1);
            assert(all.take(i + 1).drop_last() =~= all.take(i as int));
            assert(all.take(i + 1).last() == all[i as int]);
        }
        if keep {
            last = Some(piece.clone());
        }
        i = i + 1;
    }
    proof {
        assert(all.take(pieces@.len() as int) =~= all);
    }
    match last {
        Some(l) => {
            if crate::text::str_equal(l.as_str(), "..") {
                None
            } else {
                Some(l)
            }
        },
        None => None,
    }
}

} // verus!
