//! The global request-path rewrite.
//!
//! Before hostname dispatch, every request path that does not end in `/`
//! and whose final component has no filename extension gets `.html`
//! appended; any query string is preserved unchanged. This lets flat
//! `.html` files be served under clean extensionless URLs.

use vstd::prelude::*;

verus! {

/// Index at which the final path component (the file name) begins: the
/// position just after the last `/`, or `0` when the path holds none.
pub open spec fn file_start(p: Seq<char>) -> int
    decreases p.len(),
{
    if p.len() == 0 {
        0
    } else if p.last() == '/' {
        p.len() as int
    } else {
        file_start(p.drop_last())
    }
}

/// The final component of the path: everything after the last `/`.
pub open spec fn file_name(p: Seq<char>) -> Seq<char> {
    p.subrange(file_start(p), p.len() as int)
}

/// Whether the path's final component carries a filename extension: a `.`
/// that is not its first character. The component `..` is a parent-directory
/// reference, not a file name, and never counts as having an extension.
pub open spec fn has_extension(p: Seq<char>) -> bool {
    &&& file_name(p) != seq!['.', '.']
    &&& exists|i: int| 1 <= i < file_name(p).len() && file_name(p)[i] == '.'
}

pub open spec fn ends_with_slash(p: Seq<char>) -> bool {
    p.len() > 0 && p.last() == '/'
}

/// The rewritten path: `.html` is appended exactly when the path neither
/// ends in `/` nor already has a filename extension.
pub open spec fn rewritten_path(p: Seq<char>) -> Seq<char> {
    if !ends_with_slash(p) && !has_extension(p) {
        p + seq!['.', 'h', 't', 'm', 'l']
    } else {
        p
    }
}

pub open spec fn opt_view(q: Option<&str>) -> Option<Seq<char>> {
    match q {
        Some(s) => Some(s@),
        None => None,
    }
}

/// The rewritten path with the query string (if any) reattached unchanged.
pub open spec fn rewritten_path_and_query(p: Seq<char>, q: Option<Seq<char>>) -> Seq<char> {
    match q {
        Some(qs) => rewritten_path(p) + seq!['?'] + qs,
        None => rewritten_path(p),
    }
}

/// If no character of `p` at or past position `i` is a `/`, the file name
/// of `p` starts where the file name of `p` truncated at `i` starts.
proof fn lemma_file_start_extend(p: Seq<char>, i: int)
    requires
        0 <= i <= p.len(),
        forall|j: int| i <= j < p.len() ==> p[j] != '/',
    ensures
        file_start(p) == file_start(p.take(i)),
    decreases p.len() - i,
{
    if i < p.len() {
        assert(p.take(p.len() as int) =~= p);
        assert(p.take(i + 1).drop_last() =~= p.take(i));
        lemma_file_start_extend(p, i + 1);
        assert(file_start(p.take(i + 1)) == file_start(p.take(i)));
    } else {
        assert(p.take(i) =~= p);
    }
}

/// Position just after the last `/` of `path`, or `0` when it has none.
fn find_file_start(path: &str) -> (r: usize)
    ensures
        r as int == file_start(path@),
        0 <= r <= path@.len(),
{
    let n: usize = path.unicode_len();
    let mut i: usize = n;
    while i > 0
        invariant
            0 <= i <= n,
            n == path@.len(),
            forall|j: int| i <= j < path@.len() ==> path@[j] != '/',
        decreases i,
    {
        if path.get_char(i - 1) == '/' {
            proof {
                lemma_file_start_extend(path@, i as int);
                assert(path@.take(i as int).last() == '/');
                assert(file_start(path@.take(i as int)) == i as int);
            }
            return i;
        }
        i = i - 1;
    }
    proof {
        lemma_file_start_extend(path@, 0);
        assert(path@.take(0) =~= Seq::<char>::empty());
    }
    0
}

/// Whether the final component of `path` has a filename extension.
pub fn path_has_extension(path: &str) -> (r: bool)
    ensures
        r == has_extension(path@),
{
    let fs: usize = find_file_start(path);
    let n: usize = path.unicode_len();
    if n - fs == 2 && path.get_char(fs) == '.' && path.get_char(fs + 1) == '.' {
        proof {
            assert(file_name(path@) =~= seq!['.', '.']);
        }
        return false;
    }
    proof {
        assert(file_name(path@) != seq!['.', '.']) by {
            if file_name(path@) == seq!['.', '.'] {
                assert(file_name(path@).len() == 2);
                assert(path@[fs as int] == file_name(path@)[0]);
                assert(path@[fs + 1] == file_name(path@)[1]);
            }
        }
    }
    let mut i: usize = fs;
    while i < n
        invariant
            fs <= i <= n,
            n == path@.len(),
            fs as int == file_start(path@),
            file_name(path@) != seq!['.', '.'],
            forall|j: int| fs < j < i ==> path@[j] != '.',
        decreases n - i,
    {
        if i > fs && path.get_char(i) == '.' {
            proof {
                let k: int = i - fs;
                assert(file_name(path@)[k] == path@[fs + k]);
                assert(file_name(path@)[k] == '.');
            }
            return true;
        }
        i = i + 1;
    }
    proof {
        assert(!has_extension(path@)) by {
            if exists|k: int| 1 <= k < file_name(path@).len() && file_name(path@)[k] == '.' {
                let k = choose|k: int| 1 <= k < file_name(path@).len() && file_name(path@)[k]
                    == '.';
                assert(file_name(path@)[k] == path@[fs + k]);
            }
        }
    }
    false
}

/// The path rewrite alone: append `.html` when the path does not end in `/`
/// and its final component has no filename extension; otherwise unchanged.
pub fn rewrite_path(path: &str) -> (r: String)
    ensures
        r@ == rewritten_path(path@),
{
    let n: usize = path.unicode_len();
    let slash: bool = n > 0 && path.get_char(n - 1) == '/';
    if !slash && !path_has_extension(path) {
        let r = path.to_owned().concat(".html");
        proof {
            reveal_strlit(".html");
            assert(".html"@ =~= seq!['.', 'h', 't', 'm', 'l']);
        }
        r
    } else {
        path.to_owned()
    }
}

/// The full rewrite applied to every request before hostname dispatch:
/// rewrite the path, then reattach the query string exactly as received.
pub fn rewrite_path_and_query(path: &str, query: Option<&str>) -> (r: String)
    ensures
        r@ == rewritten_path_and_query(path@, opt_view(query)),
{
    let base = rewrite_path(path);
    match query {
        Some(q) => {
            let r = base.concat("?").concat(q);
            proof {
                reveal_strlit("?");
                assert("?"@ =~= seq!['?']);
            }
            r
        },
        None => base,
    }
}

} // verus!
