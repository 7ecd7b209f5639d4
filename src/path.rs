//! Names within `/`-separated paths.
use vstd::prelude::*;

verus! {

/// Index of the last `c` in `s`, or `-1`.
pub open spec fn last_index_of(s: Seq<char>, c: char) -> int
    decreases s.len(),
{
    if s.len() == 0 {
        -1
    } else if s.last() == c {
        s.len() - 1
    } else {
        last_index_of(s.drop_last(), c)
    }
}

/// The last component of a `/`-separated path.
pub open spec fn base_name(p: Seq<char>) -> Seq<char> {
    p.skip(last_index_of(p, '/') + 1)
}

/// The extension of a file name: what follows its last dot, where that dot is
/// not the name's first character.
pub open spec fn extension(name: Seq<char>) -> Option<Seq<char>> {
    let d = last_index_of(name, '.');
    if d > 0 {
        Some(name.skip(d + 1))
    } else {
        None
    }
}

/// One past the index of the last `c` in `s`, or `0` when `s` has none.
pub fn after_last(s: &str, c: char) -> (k: usize)
    ensures
        k == last_index_of(s@, c) + 1,
        k <= s@.len(),
{
    let n = s.unicode_len();
    let mut k: usize = n;
    assert(s@.take(n as int) =~= s@);
    while k > 0 && s.get_char(k - 1) != c
        invariant
            n == s@.len(),
            k <= n,
            last_index_of(s@, c) == last_index_of(s@.take(k as int), c),
        decreases k,
    {
        assert(s@.take(k as int).drop_last() =~= s@.take(k - 1));
        k = k - 1;
    }
    if k > 0 {
        assert(s@.take(k as int).last() == c);
    }
    k
}

/// The last component of a `/`-separated path.
pub fn file_base_name(path: &str) -> (r: String)
    ensures
        r@ == base_name(path@),
{
    let k = after_last(path, '/');
    let n = path.unicode_len();
    assert(path@.skip(k as int) =~= path@.subrange(k as int, n as int));
    String::from_str(path.substring_char(k, n))
}

/// The extension of the file a path names.
pub fn file_extension(path: &str) -> (r: Option<String>)
    ensures
        r matches Some(e) <==> extension(base_name(path@)) is Some,
        r matches Some(e) ==> extension(base_name(path@)) == Some(e@),
{
    let name = file_base_name(path);
    let d = after_last(name.as_str(), '.');
    if d > 1 {
        let n = name.unicode_len();
        assert(name@.skip(d as int) =~= name@.subrange(d as int, n as int));
        Some(String::from_str(name.as_str().substring_char(d, n)))
    } else {
        None
    }
}

} // verus!
