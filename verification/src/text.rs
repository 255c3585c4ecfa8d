//! Small verified string helpers over `&str` character views.

use vstd::prelude::*;
use vstd::string::{StrSliceExecFns, StringExecFns};

verus! {

/// Whether two strings hold the same characters.
pub fn str_eq(a: &str, b: &str) -> (r: bool)
    ensures
        r == (a@ == b@),
{
    let n = a.unicode_len();
    if n != b.unicode_len() {
        return false;
    }
    let mut i: usize = 0;
    while i < n
        invariant
            n == a@.len(),
            n == b@.len(),
            i <= n,
            forall|j: int| 0 <= j < i ==> a@[j] == b@[j],
        decreases n - i,
    {
        if a.get_char(i) != b.get_char(i) {
            return false;
        }
        i = i + 1;
    }
    assert(a@ =~= b@);
    true
}

/// Whether a `::` separator starts at position `i` of `s`.
pub open spec fn sep_at(s: Seq<char>, i: int) -> bool {
    0 <= i && i + 1 < s.len() && s[i] == ':' && s[i + 1] == ':'
}

/// Whether `s` holds a `::` separator.
pub open spec fn has_sep(s: Seq<char>) -> bool {
    exists|i: int| sep_at(s, i)
}

/// The last piece of `s` split on `::` (as `str::split("::").last()` gives
/// it: separators are matched from the left, without overlap). For
/// `"EWorldConquestMapId::TerminusHex"` it is `"TerminusHex"`; a string with
/// no separator is its own last piece.
pub open spec fn last_piece(s: Seq<char>) -> Seq<char>
    decreases s.len(),
{
    if sep_at(s, 0) {
        last_piece(s.skip(2))
    } else if s.len() > 0 && has_sep(s.drop_first()) {
        last_piece(s.drop_first())
    } else {
        s
    }
}

/// Skipping positions where no separator starts leaves the last piece alone,
/// as long as a separator follows.
proof fn lemma_last_piece_skip(s: Seq<char>, start: int, i: int)
    requires
        0 <= start <= i,
        i + 1 < s.len(),
        sep_at(s, i),
        forall|j: int| start <= j < i ==> !sep_at(s, j),
    ensures
        last_piece(s.skip(start)) == last_piece(s.skip(i)),
    decreases i - start,
{
    if start < i {
        let t = s.skip(start);
        assert(!sep_at(t, 0)) by {
            assert(!sep_at(s, start));
        }
        assert(sep_at(t.drop_first(), i - start - 1)) by {
            assert(t.drop_first()[i - start - 1] == s[i]);
            assert(t.drop_first()[i - start] == s[i + 1]);
        }
        assert(t.drop_first() =~= s.skip(start + 1));
        lemma_last_piece_skip(s, start + 1, i);
    }
}

/// The last piece of a string has no separator and is a suffix of it: the
/// whole string when it holds no separator, else what follows one.
pub proof fn lemma_last_piece_is_separator_free_suffix(s: Seq<char>)
    ensures
        !has_sep(last_piece(s)),
        last_piece(s).len() <= s.len(),
        last_piece(s) =~= s.skip(s.len() - last_piece(s).len()),
        !has_sep(s) ==> last_piece(s) == s,
        has_sep(s) ==> sep_at(s, s.len() - last_piece(s).len() - 2),
    decreases s.len(),
{
    if sep_at(s, 0) {
        let t = s.skip(2);
        lemma_last_piece_is_separator_free_suffix(t);
        if has_sep(t) {
            let k = t.len() - last_piece(t).len() - 2;
            assert(sep_at(s, k + 2)) by {
                assert(s[k + 2] == t[k]);
                assert(s[k + 3] == t[k + 1]);
            }
        }
        assert(has_sep(s));
        assert(s.skip(2).skip(s.skip(2).len() - last_piece(s.skip(2)).len()) =~= s.skip(
            s.len() - last_piece(s).len(),
        ));
    } else if s.len() > 0 && has_sep(s.drop_first()) {
        let t = s.drop_first();
        lemma_last_piece_is_separator_free_suffix(t);
        let k = t.len() - last_piece(t).len() - 2;
        assert(sep_at(s, k + 1)) by {
            assert(s[k + 1] == t[k]);
            assert(s[k + 2] == t[k + 1]);
        }
        assert(s.drop_first().skip(s.drop_first().len() - last_piece(s.drop_first()).len())
            =~= s.skip(s.len() - last_piece(s).len()));
    } else {
        if has_sep(s) {
            let i = choose|i: int| sep_at(s, i);
            assert(i > 0);
            assert(sep_at(s.drop_first(), i - 1));
        }
    }
}

/// The last piece of `s` split on `::` (see [`last_piece`]).
pub fn last_split_piece(s: &str) -> (r: String)
    ensures
        r@ == last_piece(s@),
{
    let n = s.unicode_len();
    let mut start: usize = 0;
    let mut i: usize = 0;
    assert(s@.skip(0) =~= s@);
    while n - i > 1
        invariant
            n == s@.len(),
            start <= i <= n,
            last_piece(s@) == last_piece(s@.skip(start as int)),
            forall|j: int| start <= j < i ==> !sep_at(s@, j),
        decreases n - i,
    {
        if s.get_char(i) == ':' && s.get_char(i + 1) == ':' {
            proof {
                lemma_last_piece_skip(s@, start as int, i as int);
                assert(s@.skip(i as int).skip(2) =~= s@.skip(i + 2));
            }
            start = i + 2;
            i = i + 2;
        } else {
            i = i + 1;
        }
    }
    proof {
        let t = s@.skip(start as int);
        assert(!has_sep(t)) by {
            if has_sep(t) {
                let k = choose|k: int| sep_at(t, k);
                assert(sep_at(s@, start + k));
            }
        }
        if t.len() > 0 && has_sep(t.drop_first()) {
            let k = choose|k: int| sep_at(t.drop_first(), k);
            assert(sep_at(t, k + 1));
        }
    }
    let piece = s.substring_char(start, n);
    proof {
        assert(piece@ =~= s@.skip(start as int));
    }
    String::from_str(piece)
}

/// A character lowered to ASCII lower case (`char::to_ascii_lowercase`).
pub open spec fn ascii_lower(c: char) -> char {
    if 'A' <= c && c <= 'Z' {
        ((c as u32) + 32) as char
    } else {
        c
    }
}

/// A string lowered to ASCII lower case (`str::to_ascii_lowercase`).
pub open spec fn ascii_lowercase(s: Seq<char>) -> Seq<char> {
    s.map_values(|c: char| ascii_lower(c))
}

/// Whether two strings are equal ignoring ASCII case (`str::eq_ignore_ascii_case`).
pub fn eq_ignore_ascii_case(a: &str, b: &str) -> (r: bool)
    ensures
        r == (ascii_lowercase(a@) == ascii_lowercase(b@)),
{
    let n = a.unicode_len();
    if n != b.unicode_len() {
        proof {
            assert(ascii_lowercase(a@).len() != ascii_lowercase(b@).len());
        }
        return false;
    }
    let mut i: usize = 0;
    while i < n
        invariant
            n == a@.len(),
            n == b@.len(),
            i <= n,
            forall|j: int| 0 <= j < i ==> ascii_lower(a@[j]) == ascii_lower(b@[j]),
        decreases n - i,
    {
        let x = lower_char(a.get_char(i));
        let y = lower_char(b.get_char(i));
        if x != y {
            proof {
                assert(ascii_lowercase(a@)[i as int] != ascii_lowercase(b@)[i as int]);
            }
            return false;
        }
        i = i + 1;
    }
    assert(ascii_lowercase(a@) =~= ascii_lowercase(b@));
    true
}

/// A character lowered to ASCII lower case.
pub fn lower_char(c: char) -> (r: char)
    ensures
        r == ascii_lower(c),
{
    if 'A' <= c && c <= 'Z' {
        ((c as u8) + 32) as char
    } else {
        c
    }
}

/// `s` without the copies of `c` it starts with.
pub open spec fn trim_start_char(s: Seq<char>, c: char) -> Seq<char>
    decreases s.len(),
{
    if s.len() > 0 && s[0] == c {
        trim_start_char(s.drop_first(), c)
    } else {
        s
    }
}

/// `s` without the copies of `c` it ends with.
pub open spec fn trim_end_char(s: Seq<char>, c: char) -> Seq<char>
    decreases s.len(),
{
    if s.len() > 0 && s.last() == c {
        trim_end_char(s.drop_last(), c)
    } else {
        s
    }
}

/// `s` without the copies of `c` it starts or ends with (`str::trim_matches`
/// with a character).
pub open spec fn trim_char(s: Seq<char>, c: char) -> Seq<char> {
    trim_end_char(trim_start_char(s, c), c)
}

/// A string between two copies of a character it does not hold loses just
/// those two when trimmed of that character.
pub proof fn lemma_trim_enclosed(s: Seq<char>, c: char)
    requires
        !s.contains(c),
    ensures
        trim_char(seq![c] + s + seq![c], c) == s,
{
    let t = seq![c] + s + seq![c];
    let u = s + seq![c];
    assert(t[0] == c);
    assert(t.drop_first() =~= u);
    if s.len() > 0 {
        assert(u[0] == s[0]);
        assert(s[0] != c) by {
            assert(s.contains(s[0]));
        }
        assert(trim_start_char(t, c) == trim_start_char(u, c));
        assert(trim_start_char(u, c) == u);
        assert(u.last() == c);
        assert(u.drop_last() =~= s);
        assert(s.last() != c) by {
            assert(s.contains(s[s.len() - 1]));
        }
        assert(trim_end_char(u, c) == trim_end_char(s, c));
    } else {
        assert(u =~= seq![c]);
        assert(u.drop_first() =~= Seq::<char>::empty());
        assert(trim_start_char(u, c) == trim_start_char(u.drop_first(), c));
        assert(trim_start_char(t, c) =~= Seq::<char>::empty());
    }
}

/// `s` without the copies of `c` it starts or ends with (`str::trim_matches`).
pub fn trim_matches_char(s: &str, c: char) -> (r: String)
    ensures
        r@ == trim_char(s@, c),
{
    let n = s.unicode_len();
    let mut i: usize = 0;
    assert(s@.skip(0) =~= s@);
    while i < n && s.get_char(i) == c
        invariant
            n == s@.len(),
            i <= n,
            trim_start_char(s@, c) == trim_start_char(s@.skip(i as int), c),
        decreases n - i,
    {
        assert(s@.skip(i as int).drop_first() =~= s@.skip(i + 1));
        i = i + 1;
    }
    let ghost front = s@.skip(i as int);
    assert(trim_start_char(s@, c) == front) by {
        if i == n {
            assert(front.len() == 0);
        }
    }
    let mut j: usize = n;
    assert(front.take(n - i) =~= front);
    while j > i && s.get_char(j - 1) == c
        invariant
            n == s@.len(),
            i <= j <= n,
            front == s@.skip(i as int),
            trim_end_char(front, c) == trim_end_char(front.take(j - i), c),
        decreases j,
    {
        assert(front.take(j - i).drop_last() =~= front.take(j - 1 - i));
        assert(front.take(j - i).last() == s@[j - 1]);
        j = j - 1;
    }
    let piece = s.substring_char(i, j);
    proof {
        assert(piece@ =~= front.take(j - i));
        if j > i {
            assert(front.take(j - i).last() == s@[j - 1]);
        }
    }
    String::from_str(piece)
}

} // verus!
