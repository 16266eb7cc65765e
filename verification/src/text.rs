use vstd::prelude::*;
use vstd::string::*;
use vstd::utf8::*;

verus! {

/// The first index at or after `from` at which `target` stands in `s`, or the length of
/// `s` if it stands nowhere from there on.
pub open spec fn find<T>(s: Seq<T>, from: int, target: T) -> int
    decreases s.len() - from,
{
    if from < 0 || from >= s.len() {
        s.len() as int
    } else if s[from] == target {
        from
    } else {
        find(s, from + 1, target)
    }
}

/// `find` gives the one index that has no `target` between `from` and itself and either
/// holds `target` or is the end.
pub proof fn lemma_find<T>(s: Seq<T>, from: int, target: T, at: int)
    requires
        0 <= from <= at <= s.len(),
        forall|j: int| from <= j < at ==> s[j] != target,
        at < s.len() ==> s[at] == target,
    ensures
        find(s, from, target) == at,
    decreases at - from,
{
    if from < at {
        lemma_find(s, from + 1, target, at);
    }
}

/// What `find` returns lies between `from` and the end, with no `target` before it.
pub proof fn lemma_find_bounds<T>(s: Seq<T>, from: int, target: T)
    requires
        0 <= from <= s.len(),
    ensures
        from <= find(s, from, target) <= s.len(),
        forall|j: int| from <= j < find(s, from, target) ==> s[j] != target,
        find(s, from, target) < s.len() ==> s[find(s, from, target)] == target,
    decreases s.len() - from,
{
    if from < s.len() && s[from] != target {
        lemma_find_bounds(s, from + 1, target);
    }
}

/// Finds the first `target` byte at or after `from`.
pub fn find_byte(bytes: &[u8], from: usize, target: u8) -> (at: usize)
    ensures
        at == find(bytes@, from as int, target),
        at <= bytes@.len(),
        from <= bytes@.len() ==> from <= at,
{
    let n: usize = bytes.len();
    if from >= n {
        return n;
    }
    let mut at: usize = from;
    while at < n && bytes[at] != target
        invariant
            n == bytes@.len(),
            from <= at <= n,
            forall|j: int| from <= j < at ==> bytes@[j] != target,
        decreases n - at,
    {
        at = at + 1;
    }
    proof {
        lemma_find(bytes@, from as int, target, at as int);
    }
    at
}

/// Finds the first `target` character at or after `from`.
pub fn find_char(chars: &[char], from: usize, target: char) -> (at: usize)
    ensures
        at == find(chars@, from as int, target),
        at <= chars@.len(),
        from <= chars@.len() ==> from <= at,
{
    let n: usize = chars.len();
    if from >= n {
        return n;
    }
    let mut at: usize = from;
    while at < n && chars[at] != target
        invariant
            n == chars@.len(),
            from <= at <= n,
            forall|j: int| from <= j < at ==> chars@[j] != target,
        decreases n - at,
    {
        at = at + 1;
    }
    proof {
        lemma_find(chars@, from as int, target, at as int);
    }
    at
}

/// Compares two byte strings.
pub fn bytes_eq(a: &[u8], b: &[u8]) -> (same: bool)
    ensures
        same == (a@ == b@),
{
    if a.len() != b.len() {
        return false;
    }
    let n: usize = a.len();
    let mut i: usize = 0;
    while i < n
        invariant
            n == a@.len(),
            n == b@.len(),
            i <= n,
            forall|j: int| 0 <= j < i ==> a@[j] == b@[j],
        decreases n - i,
    {
        if a[i] != b[i] {
            return false;
        }
        i = i + 1;
    }
    assert(a@ =~= b@);
    true
}

/// Two texts with the same encoding are the same text.
pub proof fn lemma_same_encoding(a: Seq<char>, b: Seq<char>)
    requires
        encode_utf8(a) == encode_utf8(b),
    ensures
        a == b,
{
    encode_utf8_decode_utf8(a);
    encode_utf8_decode_utf8(b);
}

/// Compares two texts.
pub fn str_eq(a: &str, b: &str) -> (same: bool)
    ensures
        same == (a@ == b@),
{
    let same = bytes_eq(a.as_bytes(), b.as_bytes());
    proof {
        if same {
            lemma_same_encoding(a@, b@);
        }
    }
    same
}

/// The characters of a text, one by one.
pub fn chars_of(text: &str) -> (chars: Vec<char>)
    ensures
        chars@ == text@,
{
    let mut chars: Vec<char> = Vec::new();
    for c in it: text.chars()
        invariant
            chars@ == it.seq().take(it.index() as int),
    {
        chars.push(c);
    }
    chars
}

} // verus!
