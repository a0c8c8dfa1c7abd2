//! Which files a search reads: path names, extensions and their comparison.
use vstd::prelude::*;
use crate::config::Config;
use crate::text::chars_of;

verus! {

/// The texts of a sequence of strings.
pub open spec fn texts(v: Seq<String>) -> Seq<Seq<char>> {
    v.map_values(|s: String| s@)
}

/// A file whose extension, dotted, equals no listed one up to ASCII case is
/// not searched, nor is a file without an extension.
pub proof fn lemma_filter_sound(c: &Config, path: Seq<char>)
    requires
        match extension_of(base_name(path)) {
            Some(e) => !ext_listed(c.ext_texts(), seq!['.'] + e),
            None => true,
        },
    ensures
        !c.accepts(path),
{
}

/// `c` is an ASCII capital letter.
pub open spec fn ascii_upper(c: char) -> bool {
    65 <= c as u32 && c as u32 <= 90
}

/// Two characters are equal once ASCII letters are lowercased.
pub open spec fn char_eq_ic(a: char, b: char) -> bool {
    a == b || (ascii_upper(a) && a as u32 + 32 == b as u32) || (ascii_upper(b) && b as u32 + 32
        == a as u32)
}

/// Two texts are equal once ASCII letters are lowercased.
pub open spec fn eq_ic(a: Seq<char>, b: Seq<char>) -> bool {
    a.len() == b.len() && forall|i: int| 0 <= i < a.len() ==> char_eq_ic(#[trigger] a[i], b[i])
}

/// Some element of `exts` equals `e` up to ASCII case.
pub open spec fn ext_listed(exts: Seq<Seq<char>>, e: Seq<char>) -> bool {
    exists|i: int| 0 <= i < exts.len() && eq_ic(#[trigger] exts[i], e)
}

/// The position of the last `c` in `s`, if any.
pub open spec fn last_of(s: Seq<char>, c: char) -> Option<int>
    decreases s.len(),
{
    if s.len() == 0 {
        None
    } else if s.last() == c {
        Some(s.len() - 1)
    } else {
        last_of(s.drop_last(), c)
    }
}

/// The last component of a `/`-separated path.
pub open spec fn base_name(p: Seq<char>) -> Seq<char> {
    match last_of(p, '/') {
        Some(k) => p.subrange(k + 1, p.len() as int),
        None => p,
    }
}

/// The extension of a file name: what follows its last dot, unless that dot
/// opens the name or there is none.
pub open spec fn extension_of(name: Seq<char>) -> Option<Seq<char>> {
    match last_of(name, '.') {
        Some(k) => if k == 0 {
            None
        } else {
            Some(name.subrange(k + 1, name.len() as int))
        },
        None => None,
    }
}

proof fn lemma_last_of(s: Seq<char>, c: char, k: int)
    requires
        -1 <= k < s.len(),
        k >= 0 ==> s[k] == c,
        forall|j: int| k < j < s.len() ==> s[j] != c,
    ensures
        last_of(s, c) == (if k >= 0 { Some(k) } else { None::<int> }),
    decreases s.len(),
{
    if s.len() > 0 && k < s.len() - 1 {
        let t = s.drop_last();
        assert forall|j: int| k < j < t.len() implies t[j] != c by {
            assert(t[j] == s[j]);
        }
        if k >= 0 {
            assert(t[k] == s[k]);
        }
        lemma_last_of(t, c, k);
    }
}

/// One past the position of the last `c` in `s`, or 0 where there is none.
fn find_last(s: &[char], c: char) -> (k: usize)
    ensures
        k <= s@.len(),
        last_of(s@, c) == (if k > 0 { Some(k - 1) } else { None::<int> }),
{
    let n: usize = s.len();
    let mut k: usize = n;
    while k > 0 && s[k - 1] != c
        invariant
            k <= n,
            n == s@.len(),
            forall|j: int| k <= j < n ==> s@[j] != c,
        decreases k,
    {
        k -= 1;
    }
    proof {
        lemma_last_of(s@, c, k - 1);
    }
    k
}

/// The characters of `s` from position `a` on.
fn tail_from(s: &[char], a: usize) -> (r: Vec<char>)
    requires
        a <= s@.len(),
    ensures
        r@ == s@.subrange(a as int, s@.len() as int),
{
    let n: usize = s.len();
    let mut out: Vec<char> = Vec::new();
    let mut i: usize = a;
    while i < n
        invariant
            a <= i <= n,
            n == s@.len(),
            out@ == s@.subrange(a as int, i as int),
        decreases n - i,
    {
        out.push(s[i]);
        i += 1;
    }
    out
}

/// The last component of a `/`-separated path.
pub fn file_name_of(p: &[char]) -> (r: Vec<char>)
    ensures
        r@ == base_name(p@),
{
    let k = find_last(p, '/');
    if k == 0 {
        assert(p@.subrange(0, p@.len() as int) =~= p@);
    }
    tail_from(p, k)
}

/// The extension of a file name, as `Path::extension` finds it.
pub fn file_extension(name: &[char]) -> (r: Option<Vec<char>>)
    ensures
        r matches Some(e) ==> extension_of(name@) == Some(e@),
        r is None ==> extension_of(name@) is None,
{
    let k = find_last(name, '.');
    if k <= 1 {
        return None;
    }
    Some(tail_from(name, k))
}

/// Equality of two texts up to ASCII case, as `str::eq_ignore_ascii_case` decides it.
pub fn eq_ignore_ascii_case(a: &[char], b: &[char]) -> (r: bool)
    ensures
        r == eq_ic(a@, b@),
{
    if a.len() != b.len() {
        return false;
    }
    let mut i: usize = 0;
    while i < a.len()
        invariant
            a@.len() == b@.len(),
            i <= a@.len(),
            forall|j: int| 0 <= j < i ==> char_eq_ic(#[trigger] a@[j], b@[j]),
        decreases a@.len() - i,
    {
        let x = #[verifier::truncate] (a[i] as u32);
        let y = #[verifier::truncate] (b[i] as u32);
        let same = a[i] == b[i] || (65 <= x && x <= 90 && x + 32 == y) || (65 <= y && y <= 90 && y + 32
            == x);
        if !same {
            assert(!char_eq_ic(a@[i as int], b@[i as int]));
            return false;
        }
        i += 1;
    }
    true
}

/// Whether `e` equals some element of `exts` up to ASCII case.
pub fn extension_listed(exts: &Vec<String>, e: &[char]) -> (r: bool)
    ensures
        r == ext_listed(texts(exts@), e@),
{
    let mut i: usize = 0;
    while i < exts.len()
        invariant
            i <= exts@.len(),
            forall|j: int| 0 <= j < i ==> !eq_ic(#[trigger] texts(exts@)[j], e@),
        decreases exts@.len() - i,
    {
        let x = chars_of(exts[i].as_str());
        if eq_ignore_ascii_case(&x, e) {
            assert(texts(exts@)[i as int] == x@);
            return true;
        }
        i += 1;
    }
    false
}

} // verus!
