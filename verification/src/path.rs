//! File-system paths, written as text with `/` separators.
use vstd::prelude::*;

verus! {

/// Whether `path` starts at the root.
pub open spec fn is_absolute(path: Seq<char>) -> bool {
    path.len() > 0 && path[0] == '/'
}

/// `base` joined with `path` (`Path::join`): an absolute `path` replaces
/// `base`; otherwise `path` is appended, after a `/` when `base` is not empty
/// and does not already end with one.
pub open spec fn join_path(base: Seq<char>, path: Seq<char>) -> Seq<char> {
    if is_absolute(path) || base.len() == 0 {
        path
    } else if base.last() == '/' {
        base + path
    } else {
        base + seq!['/'] + path
    }
}

/// `base` joined with `path`.
pub fn join(base: &str, path: &str) -> (r: String)
    ensures
        r@ == join_path(base@, path@),
{
    let absolute = path.unicode_len() > 0 && path.get_char(0) == '/';
    let n = base.unicode_len();
    if absolute || n == 0 {
        path.to_owned()
    } else if base.get_char(n - 1) == '/' {
        base.to_owned().concat(path)
    } else {
        proof {
            reveal_strlit("/");
        }
        base.to_owned().concat("/").concat(path)
    }
}


/// Index of the first `/` in `s`, or its length when there is none.
pub open spec fn slash_index(s: Seq<char>) -> nat
    decreases s.len(),
{
    if s.len() == 0 {
        0
    } else if s[0] == '/' {
        0
    } else {
        1 + slash_index(s.drop_first())
    }
}

/// The named parts of a path, in order: the pieces between `/` separators,
/// without the empty ones and without `.`.
pub open spec fn path_parts(s: Seq<char>) -> Seq<Seq<char>>
    decreases s.len(),
{
    if s.len() == 0 {
        Seq::empty()
    } else {
        let k = slash_index(s);
        let part = s.take(k as int);
        let rest = if k < s.len() {
            path_parts(s.skip(k + 1 as int))
        } else {
            Seq::empty()
        };
        if part.len() == 0 || part == seq!['.'] {
            rest
        } else {
            seq![part] + rest
        }
    }
}

/// Whether a relative path begins with the current directory `.`.
pub open spec fn starts_at_current(s: Seq<char>) -> bool {
    !is_absolute(s) && s.len() > 0 && s[0] == '.' && (s.len() == 1 || s[1] == '/')
}

/// Whether two paths have the same components (`Path::eq`): both or neither
/// absolute, both or neither starting at `.`, and the same named parts.
pub open spec fn same_path(a: Seq<char>, b: Seq<char>) -> bool {
    &&& is_absolute(a) == is_absolute(b)
    &&& starts_at_current(a) == starts_at_current(b)
    &&& path_parts(a) == path_parts(b)
}

proof fn lemma_slash_index_unique(s: Seq<char>, k: int)
    requires
        0 <= k <= s.len(),
        k < s.len() ==> s[k] == '/',
        forall|j: int| 0 <= j < k ==> s[j] != '/',
    ensures
        slash_index(s) == k,
    decreases s.len(),
{
    if s.len() > 0 && s[0] != '/' {
        lemma_slash_index_unique(s.drop_first(), k - 1);
    }
}

/// The views of a list of character lists.
pub open spec fn char_lists(s: Seq<Vec<char>>) -> Seq<Seq<char>> {
    s.map_values(|x: Vec<char>| x@)
}

fn copy_chars(v: &Vec<char>, from: usize, to: usize) -> (r: Vec<char>)
    requires
        from <= to <= v@.len(),
    ensures
        r@ == v@.subrange(from as int, to as int),
{
    let mut r: Vec<char> = Vec::new();
    let mut i = from;
    while i < to
        invariant
            from <= i <= to <= v@.len(),
            r@ == v@.subrange(from as int, i as int),
        decreases to - i,
    {
        r.push(v[i]);
        i = i + 1;
        assert(r@ =~= v@.subrange(from as int, i as int));
    }
    r
}

/// The named parts of the path held in `v`.
fn parts_of(v: &Vec<char>) -> (r: Vec<Vec<char>>)
    ensures
        char_lists(r@) == path_parts(v@),
{
    let n = v.len();
    let mut r: Vec<Vec<char>> = Vec::new();
    let mut pos: usize = 0;
    assert(v@.skip(0) =~= v@);
    while pos < n
        invariant
            pos <= n == v@.len(),
            path_parts(v@) == char_lists(r@) + path_parts(v@.skip(pos as int)),
        decreases n - pos,
    {
        let ghost rest = v@.skip(pos as int);
        let mut k = pos;
        while k < n && v[k] != '/'
            invariant
                pos <= k <= n == v@.len(),
                forall|j: int| pos <= j < k ==> v@[j] != '/',
            decreases n - k,
        {
            k = k + 1;
        }
        proof {
            lemma_slash_index_unique(rest, k - pos);
            assert(rest.take(k - pos) =~= v@.subrange(pos as int, k as int));
        }
        let part = copy_chars(v, pos, k);
        let keep = !(k == pos || (k == pos + 1 && v[pos] == '.'));
        proof {
            if k == pos + 1 && v@[pos as int] == '.' {
                assert(part@ =~= seq!['.']);
            }
            if part@ == seq!['.'] {
                assert(part@[0] == v@[pos as int]);
            }
        }
        let ghost prior = r@;
        if keep {
            r.push(part);
            proof {
                assert(char_lists(r@) =~= char_lists(prior) + seq![v@.subrange(pos as int, k as int)]);
            }
        }
        if k < n {
            proof {
                assert(rest.skip(k - pos + 1) =~= v@.skip(k + 1));
            }
            pos = k + 1;
        } else {
            proof {
                assert(v@.skip(n as int) =~= Seq::<char>::empty());
            }
            pos = n;
        }
        proof {
            assert(path_parts(v@) =~= char_lists(r@) + path_parts(v@.skip(pos as int)));
        }
    }
    proof {
        assert(v@.skip(n as int) =~= Seq::<char>::empty());
        assert(char_lists(r@) + Seq::<Seq<char>>::empty() =~= char_lists(r@));
    }
    r
}

fn same_chars(a: &Vec<char>, b: &Vec<char>) -> (r: bool)
    ensures
        r == (a@ == b@),
{
    if a.len() != b.len() {
        return false;
    }
    let mut i: usize = 0;
    while i < a.len()
        invariant
            i <= a@.len() == b@.len(),
            forall|j: int| 0 <= j < i ==> a@[j] == b@[j],
        decreases a@.len() - i,
    {
        if a[i] != b[i] {
            return false;
        }
        i = i + 1;
    }
    assert(a@ =~= b@);
    true
}

fn same_char_lists(a: &Vec<Vec<char>>, b: &Vec<Vec<char>>) -> (r: bool)
    ensures
        r == (char_lists(a@) == char_lists(b@)),
{
    if a.len() != b.len() {
        assert(char_lists(a@).len() != char_lists(b@).len());
        return false;
    }
    let mut i: usize = 0;
    while i < a.len()
        invariant
            i <= a@.len() == b@.len(),
            forall|j: int| 0 <= j < i ==> a@[j]@ == b@[j]@,
        decreases a@.len() - i,
    {
        if !same_chars(&a[i], &b[i]) {
            assert(char_lists(a@)[i as int] != char_lists(b@)[i as int]);
            return false;
        }
        i = i + 1;
    }
    assert(char_lists(a@) =~= char_lists(b@));
    true
}

fn starts_at_current_exec(v: &Vec<char>) -> (r: bool)
    ensures
        r == starts_at_current(v@),
{
    v.len() > 0 && v[0] == '.' && (v.len() == 1 || v[1] == '/')
}

/// Whether two paths have the same components.
pub fn paths_equal(a: &str, b: &str) -> (r: bool)
    ensures
        r == same_path(a@, b@),
{
    let va = crate::text::chars_of(a);
    let vb = crate::text::chars_of(b);
    let abs_a = va.len() > 0 && va[0] == '/';
    let abs_b = vb.len() > 0 && vb[0] == '/';
    if abs_a != abs_b {
        return false;
    }
    if starts_at_current_exec(&va) != starts_at_current_exec(&vb) {
        return false;
    }
    let pa = parts_of(&va);
    let pb = parts_of(&vb);
    same_char_lists(&pa, &pb)
}

} // verus!
