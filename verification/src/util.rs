use vstd::prelude::*;
use vstd::slice::slice_subrange;
use vstd::string::*;
use crate::text::chars_of;
use crate::text::find;
use crate::text::find_char;
use crate::text::lemma_find_bounds;
use crate::text::str_eq;

verus! {

/// `x` with its two bytes exchanged.
pub open spec fn swapped(x: u16) -> u16 {
    ((x % 256) * 256 + x / 256) as u16
}

/// Calls `u16::to_be`, which gives the number whose bytes in this machine's memory are
/// those of `x` in big-endian order. On a big-endian machine that is `x` itself, on a
/// little-endian one `x` with its bytes exchanged; the contract says no more than that
/// it is one of the two.
#[verifier::external_body]
fn to_big_endian(x: u16) -> (r: u16)
    ensures
        r == x || r == swapped(x),
{
    x.to_be()
}

/// Converts a port number from host to network byte order.
pub fn htons(port: u16) -> (r: u16)
    ensures
        r == port || r == swapped(port),
{
    to_big_endian(port)
}

/// Whether two dots stand side by side somewhere in `path`.
pub open spec fn has_parent_reference(path: Seq<char>) -> bool {
    exists|i: int| 0 <= i && i + 1 < path.len() && #[trigger] path[i] == '.' && path[i + 1] == '.'
}

/// Whether `path` holds something that no request path may hold: a parent-directory
/// reference, a backslash or a null character.
pub open spec fn is_forbidden(path: Seq<char>) -> bool {
    has_parent_reference(path) || path.contains('\\') || path.contains('\0')
}

/// `path` without its leading separator, if it has one. Only one is taken off.
pub open spec fn relative_part(path: Seq<char>) -> Seq<char> {
    if path.len() > 0 && path[0] == '/' {
        path.skip(1)
    } else {
        path
    }
}

/// The components `so_far`, moved on by one segment: an empty segment and `.` change
/// nothing, `..` drops the last component, any other segment is added.
pub open spec fn descend(so_far: Seq<Seq<char>>, segment: Seq<char>) -> Seq<Seq<char>> {
    if segment.len() == 0 || segment == seq!['.'] {
        so_far
    } else if segment == seq!['.', '.'] {
        if so_far.len() > 0 {
            so_far.drop_last()
        } else {
            so_far
        }
    } else {
        so_far.push(segment)
    }
}

/// The components reached from `so_far` by the segments of `relative` that start at
/// offset `from`. Segments are separated by `/`.
pub open spec fn walk(so_far: Seq<Seq<char>>, relative: Seq<char>, from: int) -> Seq<Seq<char>>
    decreases relative.len() - from,
{
    if from < 0 || from > relative.len() {
        so_far
    } else {
        let end = find(relative, from, '/');
        let next = descend(so_far, relative.subrange(from, end));
        if from <= end < relative.len() {
            walk(next, relative, end + 1)
        } else {
            next
        }
    }
}

/// The components of `relative` joined onto `root` and normalized. A `relative` that
/// still starts with a separator is an absolute path: it does not continue `root` but
/// starts anew from the root directory `/`.
pub open spec fn joined(root: Seq<Seq<char>>, relative: Seq<char>) -> Seq<Seq<char>> {
    if relative.len() > 0 && relative[0] == '/' {
        walk(seq!["/"@], relative, 0)
    } else {
        walk(root, relative, 0)
    }
}

/// The components of the file that a request path names below `root`, or `None` where
/// the path is rejected. `root` holds the components of the canonical root directory,
/// or is `None` where that directory could not be resolved.
pub open spec fn confined(path: Seq<char>, root: Option<Seq<Seq<char>>>) -> Option<
    Seq<Seq<char>>,
> {
    match root {
        None => None,
        Some(root) => {
            if is_forbidden(path) || root.len() == 0 {
                None
            } else {
                let target = joined(root, relative_part(path));
                if root.is_prefix_of(target) {
                    Some(target)
                } else {
                    None
                }
            }
        },
    }
}

/// Whether a component is an ordinary name: not empty, not `.`, and free of separators,
/// parent-directory references, backslashes and null characters.
pub open spec fn is_plain(component: Seq<char>) -> bool {
    &&& component.len() > 0
    &&& component != seq!['.']
    &&& !component.contains('/')
    &&& !is_forbidden(component)
}

/// The texts of a list of components.
pub open spec fn names(components: Seq<String>) -> Seq<Seq<char>> {
    Seq::new(components.len(), |i: int| components[i]@)
}

/// The texts of an optional list of components.
pub open spec fn root_names(root: Option<&Vec<String>>) -> Option<Seq<Seq<char>>> {
    match root {
        Some(components) => Some(names(components@)),
        None => None,
    }
}

/// The fast check that needs no file system: tells whether the path holds a
/// parent-directory reference, a backslash or a null character.
pub fn forbidden(path: &[char]) -> (bad: bool)
    ensures
        bad == is_forbidden(path@),
{
    let n: usize = path.len();
    let mut i: usize = 0;
    while i < n
        invariant
            n == path@.len(),
            i <= n,
            forall|j: int| 0 <= j < i ==> path@[j] != '\\' && path@[j] != '\0',
            forall|j: int|
                0 <= j < i && j + 1 < n ==> !(#[trigger] path@[j] == '.' && path@[j + 1] == '.'),
        decreases n - i,
    {
        let c: char = path[i];
        if c == '\\' || c == '\0' {
            return true;
        }
        if c == '.' && i + 1 < n && path[i + 1] == '.' {
            assert(path@[i as int] == '.' && path@[i as int + 1] == '.');
            return true;
        }
        i = i + 1;
    }
    false
}

/// Copies a list of components.
fn copy_components(components: &Vec<String>) -> (copy: Vec<String>)
    ensures
        names(copy@) == names(components@),
{
    let mut copy: Vec<String> = Vec::new();
    let mut i: usize = 0;
    while i < components.len()
        invariant
            i <= components@.len(),
            copy@.len() == i,
            forall|j: int| 0 <= j < i ==> copy@[j]@ == components@[j]@,
        decreases components@.len() - i,
    {
        copy.push(components[i].clone());
        i = i + 1;
    }
    assert(names(copy@) =~= names(components@));
    copy
}

/// Tells whether every component of `root` stands at the same place in `target`.
fn starts_with(target: &Vec<String>, root: &Vec<String>) -> (inside: bool)
    ensures
        inside == names(root@).is_prefix_of(names(target@)),
{
    if root.len() > target.len() {
        return false;
    }
    let mut i: usize = 0;
    while i < root.len()
        invariant
            i <= root@.len() <= target@.len(),
            forall|j: int| 0 <= j < i ==> root@[j]@ == target@[j]@,
        decreases root@.len() - i,
    {
        if !str_eq(root[i].as_str(), target[i].as_str()) {
            assert(names(root@)[i as int] != names(target@).subrange(0, root@.len() as int)[i as int]);
            return false;
        }
        i = i + 1;
    }
    assert(names(root@) =~= names(target@).subrange(0, root@.len() as int));
    true
}

/// Maps the path of a request to the components of a file below the canonical root
/// directory, or rejects it.
///
/// `canonical_root` holds the components of the root directory in canonical, absolute
/// form, as the caller resolved them; it is `None` where the directory could not be
/// resolved. The path is rejected if it holds `..`, a backslash or a null character, if
/// there is no root, or if the normalized target does not lie below the root.
pub fn sanitize_path(url_path: &str, canonical_root: Option<&Vec<String>>) -> (safe: Option<
    Vec<String>,
>)
    ensures
        match confined(url_path@, root_names(canonical_root)) {
            Some(target) => safe matches Some(components) && names(components@) == target,
            None => safe is None,
        },
        has_parent_reference(url_path@) ==> safe is None,
        safe matches Some(components) ==> canonical_root matches Some(root) && names(
            root@,
        ).is_prefix_of(names(components@)),
{
    let path = chars_of(url_path);
    if forbidden(path.as_slice()) {
        return None;
    }
    let root = match canonical_root {
        Some(root) => root,
        None => {
            return None;
        },
    };
    if root.len() == 0 {
        return None;
    }
    let skip: usize = if path.len() > 0 && path[0] == '/' {
        1
    } else {
        0
    };
    let n: usize = path.len() - skip;
    let relative = slice_subrange(path.as_slice(), skip, path.len());
    assert(relative@ =~= relative_part(url_path@));
    let mut target: Vec<String> = if n > 0 && relative[0] == '/' {
        let mut start: Vec<String> = Vec::new();
        start.push("/".to_owned());
        assert(names(start@) =~= seq!["/"@]);
        start
    } else {
        copy_components(root)
    };
    let ghost start = names(target@);
    let mut pos: usize = 0;
    loop
        invariant_except_break
            walk(start, relative@, 0) == walk(names(target@), relative@, pos as int),
        invariant
            n == relative@.len(),
            path@ == url_path@,
            skip + n == path@.len(),
            skip + n <= usize::MAX,
            relative@ == path@.subrange(skip as int, path@.len() as int),
            pos <= n,
        ensures
            names(target@) == walk(start, relative@, 0),
        decreases n - pos,
    {
        let end: usize = find_char(relative, pos, '/');
        let ghost segment = relative@.subrange(pos as int, end as int);
        let ghost before = names(target@);
        if end == pos {
        } else if end - pos == 1 && relative[pos] == '.' {
            assert(segment =~= seq!['.']);
        } else if end - pos == 2 && relative[pos] == '.' && relative[pos + 1] == '.' {
            assert(segment =~= seq!['.', '.']);
            if target.len() > 0 {
                target.pop();
                assert(names(target@) =~= before.drop_last());
            }
        } else {
            assert(segment != seq!['.']) by {
                if segment == seq!['.'] {
                    assert(segment.len() == 1);
                    assert(segment[0] == '.');
                }
            }
            assert(segment != seq!['.', '.']) by {
                if segment == seq!['.', '.'] {
                    assert(segment.len() == 2);
                    assert(segment[0] == '.');
                    assert(segment[1] == '.');
                }
            }
            let name = url_path.substring_char(skip + pos, skip + end);
            assert(name@ =~= segment);
            target.push(name.to_owned());
            assert(names(target@) =~= before.push(segment));
        }
        assert(names(target@) == descend(before, segment));
        if end >= n {
            break;
        }
        pos = end + 1;
    }
    if starts_with(&target, root) {
        Some(target)
    } else {
        None
    }
}

/// A path that holds a parent-directory reference is rejected, whatever the root and
/// wherever the path would lead.
pub proof fn lemma_parent_reference_rejected(path: Seq<char>, root: Option<Seq<Seq<char>>>)
    requires
        has_parent_reference(path),
    ensures
        confined(path, root) is None,
{
}

/// The components of an accepted path start with the components of the root, one for one.
pub proof fn lemma_accepted_below_root(path: Seq<char>, root: Seq<Seq<char>>)
    requires
        confined(path, Some(root)) is Some,
    ensures
        root.len() > 0,
        root.len() <= confined(path, Some(root))->0.len(),
        forall|i: int| 0 <= i < root.len() ==> confined(path, Some(root))->0[i] == root[i],
{
    let target = confined(path, Some(root))->0;
    assert(root.is_prefix_of(target));
    assert forall|i: int| 0 <= i < root.len() implies target[i] == root[i] by {
        assert(target.subrange(0, root.len() as int)[i] == target[i]);
    }
}

/// What is forbidden in a part of a path is forbidden in the path.
proof fn lemma_forbidden_part(path: Seq<char>, from: int, to: int)
    requires
        0 <= from <= to <= path.len(),
        is_forbidden(path.subrange(from, to)),
    ensures
        is_forbidden(path),
{
    let part = path.subrange(from, to);
    if has_parent_reference(part) {
        let i = choose|i: int|
            0 <= i && i + 1 < part.len() && #[trigger] part[i] == '.' && part[i + 1] == '.';
        assert(path[from + i] == '.' && path[from + i + 1] == '.');
    } else if part.contains('\\') {
        let i = choose|i: int| 0 <= i < part.len() && part[i] == '\\';
        assert(path[from + i] == '\\');
    } else {
        let i = choose|i: int| 0 <= i < part.len() && part[i] == '\0';
        assert(path[from + i] == '\0');
    }
}

/// On a relative path that holds nothing forbidden, `walk` only adds components, and
/// each one it adds is an ordinary name.
proof fn lemma_walk_adds_plain(so_far: Seq<Seq<char>>, relative: Seq<char>, from: int)
    requires
        !is_forbidden(relative),
        0 <= from <= relative.len(),
    ensures
        so_far.is_prefix_of(walk(so_far, relative, from)),
        forall|i: int|
            so_far.len() <= i < walk(so_far, relative, from).len() ==> is_plain(
                #[trigger] walk(so_far, relative, from)[i],
            ),
    decreases relative.len() - from,
{
    lemma_find_bounds(relative, from, '/');
    let end = find(relative, from, '/');
    let segment = relative.subrange(from, end);
    let next = descend(so_far, segment);
    let reached = walk(so_far, relative, from);
    if is_forbidden(segment) {
        lemma_forbidden_part(relative, from, end);
    }
    if segment == seq!['.', '.'] {
        assert(segment[0] == '.' && segment[1] == '.');
        assert(has_parent_reference(segment));
    }
    if segment.contains('/') {
        let j = choose|j: int| 0 <= j < segment.len() && segment[j] == '/';
        assert(relative[from + j] == '/');
    }
    if end < relative.len() {
        lemma_walk_adds_plain(next, relative, end + 1);
    }
    assert(next.is_prefix_of(reached)) by {
        assert(next.subrange(0, next.len() as int) =~= next);
    }
    if next == so_far {
    } else {
        assert(next == so_far.push(segment));
        assert(is_plain(segment));
        assert(reached.subrange(0, so_far.len() as int) =~= next.subrange(
            0,
            so_far.len() as int,
        )) by {
            assert(reached.subrange(0, next.len() as int) == next);
            assert forall|k: int| 0 <= k < so_far.len() implies reached[k] == next[k] by {
                assert(reached.subrange(0, next.len() as int)[k] == reached[k]);
            }
        }
        assert(next.subrange(0, so_far.len() as int) =~= so_far);
        assert(reached[so_far.len() as int] == segment) by {
            assert(reached.subrange(0, next.len() as int)[so_far.len() as int]
                == reached[so_far.len() as int]);
        }
    }
}

/// Whatever an accepted path adds to the root is made of ordinary names: no component
/// beyond the root is empty, is `.`, or holds a separator, a parent-directory
/// reference, a backslash or a null character.
pub proof fn lemma_accepted_components_plain(path: Seq<char>, root: Seq<Seq<char>>)
    requires
        confined(path, Some(root)) is Some,
    ensures
        forall|i: int|
            root.len() <= i < confined(path, Some(root))->0.len() ==> is_plain(
                #[trigger] confined(path, Some(root))->0[i],
            ),
{
    let relative = relative_part(path);
    if is_forbidden(relative) {
        if relative == path {
        } else {
            assert(relative =~= path.subrange(1, path.len() as int));
            lemma_forbidden_part(path, 1, path.len() as int);
        }
    }
    if relative.len() > 0 && relative[0] == '/' {
        lemma_walk_adds_plain(seq!["/"@], relative, 0);
    } else {
        lemma_walk_adds_plain(root, relative, 0);
    }
}

/// A path is accepted whenever there is a root, the path holds nothing forbidden, and
/// what is left of it after its leading separator does not start with another one.
pub proof fn lemma_relative_path_accepted(path: Seq<char>, root: Seq<Seq<char>>)
    requires
        !is_forbidden(path),
        root.len() > 0,
        relative_part(path).len() == 0 || relative_part(path)[0] != '/',
    ensures
        confined(path, Some(root)) is Some,
{
    let relative = relative_part(path);
    if is_forbidden(relative) {
        assert(relative != path);
        assert(relative =~= path.subrange(1, path.len() as int));
        lemma_forbidden_part(path, 1, path.len() as int);
    }
    lemma_walk_adds_plain(root, relative, 0);
}

/// Sanitizing is repeatable: two results for the same path and the same root agree, in
/// whether the path is accepted and in the components it is mapped to.
pub proof fn lemma_sanitize_repeatable(
    path: Seq<char>,
    root: Option<Seq<Seq<char>>>,
    first: Option<Seq<Seq<char>>>,
    second: Option<Seq<Seq<char>>>,
)
    requires
        first == confined(path, root),
        second == confined(path, root),
    ensures
        first is Some <==> second is Some,
        first == second,
{
}

} // verus!
