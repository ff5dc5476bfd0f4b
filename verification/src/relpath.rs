//! Byte-level path model. Paths are slash-separated UTF-8 byte strings; all
//! structural operations (file name, extension, stem, parent, entry-name
//! safety) are specified and verified here over `Seq<u8>`.
use vstd::prelude::*;

verus! {

pub const SLASH: u8 = 47;

pub const DOT: u8 = 46;

pub const NUL: u8 = 0;

pub const BACKSLASH: u8 = 92;

/// `s` ends with the byte sequence `suf`.
pub open spec fn ends_with(s: Seq<u8>, suf: Seq<u8>) -> bool {
    suf.len() <= s.len() && s.subrange(s.len() - suf.len(), s.len() as int) == suf
}

/// Length of the prefix of `s` up to and including the last occurrence of
/// `b`, or 0 if `b` does not occur in `s`.
pub open spec fn after_last(s: Seq<u8>, b: u8) -> int
    decreases s.len(),
{
    if s.len() == 0 {
        0
    } else if s.last() == b {
        s.len() as int
    } else {
        after_last(s.drop_last(), b)
    }
}

pub proof fn lemma_after_last_props(s: Seq<u8>, b: u8)
    ensures
        0 <= after_last(s, b) <= s.len(),
        forall|j: int| after_last(s, b) <= j < s.len() ==> s[j] != b,
        after_last(s, b) > 0 ==> s[after_last(s, b) - 1] == b,
    decreases s.len(),
{
    if s.len() > 0 && s.last() != b {
        lemma_after_last_props(s.drop_last(), b);
        assert(s.drop_last() =~= s.take(s.len() - 1));
        assert forall|j: int| after_last(s, b) <= j < s.len() implies s[j] != b by {
            if j < s.len() - 1 {
                assert(s.drop_last()[j] == s[j]);
            }
        }
    }
}

/// `after_last` is pinned by its characterization: `i` marks a position
/// right after an occurrence of `b` (or the start), with no `b` at or after
/// it.
pub proof fn lemma_after_last_unique(s: Seq<u8>, b: u8, i: int)
    requires
        0 <= i <= s.len(),
        i == 0 || s[i - 1] == b,
        forall|j: int| i <= j < s.len() ==> s[j] != b,
    ensures
        after_last(s, b) == i,
    decreases s.len(),
{
    if s.len() > 0 && s.last() != b {
        assert(i < s.len());
        lemma_after_last_unique(s.drop_last(), b, i);
    }
}

/// The final component of `p`: everything after the last slash.
pub open spec fn file_name_of(p: Seq<u8>) -> Seq<u8> {
    p.subrange(after_last(p, SLASH), p.len() as int)
}

/// The extension of `p`'s file name: the part after the last dot, provided
/// that dot is preceded by a non-empty stem. `file.json` -> `json`;
/// `.gitignore` and `name` have none.
pub open spec fn ext_of(p: Seq<u8>) -> Option<Seq<u8>> {
    let name = file_name_of(p);
    let d = after_last(name, DOT);
    if d >= 2 {
        Some(name.subrange(d, name.len() as int))
    } else {
        None
    }
}

/// The stem of `p`'s file name: the file name minus its extension (and the
/// dot), or the whole file name if there is no extension.
pub open spec fn stem_of(p: Seq<u8>) -> Seq<u8> {
    let name = file_name_of(p);
    let d = after_last(name, DOT);
    if d >= 2 {
        name.take(d - 1)
    } else {
        name
    }
}

/// The name of the directory immediately containing `p`'s file name, if `p`
/// has one: `a/i18n/ja.json` -> `i18n`.
pub open spec fn parent_dir_name(p: Seq<u8>) -> Option<Seq<u8>> {
    let d = after_last(p, SLASH);
    if d == 0 {
        None
    } else {
        Some(file_name_of(p.take(d - 1)))
    }
}

/// One path component is acceptable: non-empty, not `.`, not `..`.
pub open spec fn comp_ok(c: Seq<u8>) -> bool {
    &&& c.len() > 0
    &&& !(c.len() == 1 && c[0] == DOT)
    &&& !(c.len() == 2 && c[0] == DOT && c[1] == DOT)
}

/// Scan of `s` from position `i`, where `start` is the beginning of the
/// current component: every slash-separated component is acceptable.
pub open spec fn comps_ok_rec(s: Seq<u8>, i: int, start: int) -> bool
    decreases s.len() - i,
{
    if i < 0 || i > s.len() {
        false
    } else if i == s.len() {
        comp_ok(s.subrange(start, s.len() as int))
    } else if s[i] == SLASH {
        comp_ok(s.subrange(start, i)) && comps_ok_rec(s, i + 1, i + 1)
    } else {
        comps_ok_rec(s, i + 1, start)
    }
}

/// No byte of `s` is a NUL or a backslash. NUL is never valid in a path and
/// makes archive writers reject a name; a backslash is a path separator on
/// some platforms (and, at the end of a name, makes zip readers classify the
/// member as a directory), so an untrusted name carrying one is refused
/// outright rather than reinterpreted.
pub open spec fn no_reserved_bytes(s: Seq<u8>) -> bool {
    forall|j: int| 0 <= j < s.len() ==> s[j] != NUL && s[j] != BACKSLASH
}

/// An untrusted archive entry name is safe to use as a relative path under an
/// extraction root: non-empty, free of NUL and backslash bytes, and no
/// component is empty (which also rules out absolute names and trailing
/// slashes), `.`, or `..`. UTF-8 validity is checked separately.
pub open spec fn components_safe(s: Seq<u8>) -> bool {
    s.len() > 0 && no_reserved_bytes(s) && comps_ok_rec(s, 0, 0)
}

/// A safe name never ends in a slash: a trailing slash would leave an empty
/// final component.
pub proof fn lemma_components_safe_no_trailing_slash(s: Seq<u8>)
    requires
        components_safe(s),
    ensures
        s.len() > 0 && s.last() != SLASH,
{
    lemma_comps_ok_no_trailing_slash(s, 0, 0);
}

proof fn lemma_comps_ok_no_trailing_slash(s: Seq<u8>, i: int, start: int)
    requires
        0 <= start <= i <= s.len(),
        s.len() > 0,
        comps_ok_rec(s, i, start),
        forall|j: int| start <= j < i ==> s[j] != SLASH,
    ensures
        s.last() != SLASH,
    decreases s.len() - i,
{
    if i == s.len() {
        assert(s.subrange(start, s.len() as int).len() > 0);
        assert(s[s.len() - 1] != SLASH);
    } else if s[i] == SLASH {
        assert(comps_ok_rec(s, i + 1, i + 1));
        if i + 1 == s.len() {
            assert(s.subrange(i + 1, s.len() as int).len() == 0);
            assert(!comp_ok(s.subrange(i + 1, s.len() as int)));
            assert(false);
        } else {
            lemma_comps_ok_no_trailing_slash(s, i + 1, i + 1);
        }
    } else {
        lemma_comps_ok_no_trailing_slash(s, i + 1, start);
    }
}

/// Copies `s[a..b]` into a fresh vector.
pub fn copy_range(s: &[u8], a: usize, b: usize) -> (r: Vec<u8>)
    requires
        a <= b <= s@.len(),
    ensures
        r@ == s@.subrange(a as int, b as int),
{
    let mut r: Vec<u8> = Vec::new();
    let mut k: usize = a;
    while k < b
        invariant
            a <= k <= b <= s@.len(),
            r@ == s@.subrange(a as int, k as int),
        decreases b - k,
    {
        r.push(s[k]);
        proof {
            assert(s@.subrange(a as int, k + 1 as int) =~= s@.subrange(a as int, k as int).push(
                s@[k as int],
            ));
        }
        k = k + 1;
    }
    r
}

/// Finds `after_last(s, b)` executably.
pub fn find_after_last(s: &[u8], b: u8) -> (r: usize)
    ensures
        r as int == after_last(s@, b),
{
    let mut i: usize = s.len();
    proof {
        assert(s@.take(s@.len() as int) =~= s@);
    }
    loop
        invariant
            i <= s@.len(),
            after_last(s@, b) == after_last(s@.take(i as int), b),
        decreases i,
    {
        if i == 0 {
            proof {
                assert(s@.take(0) =~= Seq::<u8>::empty());
            }
            return 0;
        }
        if s[i - 1] == b {
            proof {
                assert(s@.take(i as int).last() == s@[i - 1]);
            }
            return i;
        }
        proof {
            assert(s@.take(i as int).drop_last() =~= s@.take(i - 1));
        }
        i = i - 1;
    }
}

/// Whether `s` ends with `suf`, executably.
pub fn bytes_ends_with(s: &[u8], suf: &[u8]) -> (r: bool)
    ensures
        r == ends_with(s@, suf@),
{
    if suf.len() > s.len() {
        return false;
    }
    let off = s.len() - suf.len();
    let mut k: usize = 0;
    while k < suf.len()
        invariant
            s@.len() <= usize::MAX,
            suf@.len() <= s@.len(),
            off == s@.len() - suf@.len(),
            k <= suf@.len(),
            forall|j: int| 0 <= j < k ==> s@[off + j] == suf@[j],
        decreases suf@.len() - k,
    {
        assert(off + k < s@.len());
        if s[off + k] != suf[k] {
            proof {
                assert(s@.subrange(off as int, s@.len() as int)[k as int] == s@[off + k]);
            }
            return false;
        }
        k = k + 1;
    }
    proof {
        assert(s@.subrange(off as int, s@.len() as int) =~= suf@);
    }
    true
}

/// Byte-wise equality of two byte strings.
pub fn bytes_eq(a: &[u8], b: &[u8]) -> (r: bool)
    ensures
        r == (a@ == b@),
{
    if a.len() != b.len() {
        return false;
    }
    let mut k: usize = 0;
    while k < a.len()
        invariant
            a@.len() == b@.len(),
            k <= a@.len(),
            forall|j: int| 0 <= j < k ==> a@[j] == b@[j],
        decreases a@.len() - k,
    {
        if a[k] != b[k] {
            return false;
        }
        k = k + 1;
    }
    proof {
        assert(a@ =~= b@);
    }
    true
}

/// Appends all of `s` to `out`.
pub fn push_all(out: &mut Vec<u8>, s: &[u8])
    ensures
        final(out)@ == old(out)@ + s@,
{
    let mut k: usize = 0;
    while k < s.len()
        invariant
            k <= s@.len(),
            out@ == old(out)@ + s@.take(k as int),
        decreases s@.len() - k,
    {
        out.push(s[k]);
        proof {
            assert(old(out)@ + s@.take(k + 1 as int) =~= (old(out)@ + s@.take(k as int)).push(
                s@[k as int],
            ));
        }
        k = k + 1;
    }
    proof {
        assert(s@.take(s@.len() as int) =~= s@);
    }
}

/// The final component of `p` as a fresh vector.
pub fn file_name_vec(p: &[u8]) -> (r: Vec<u8>)
    ensures
        r@ == file_name_of(p@),
{
    let d = find_after_last(p, SLASH);
    proof {
        lemma_after_last_props(p@, SLASH);
    }
    copy_range(p, d, p.len())
}

/// Whether `p`'s extension is exactly `e`.
pub fn ext_matches(p: &[u8], e: &[u8]) -> (r: bool)
    ensures
        r == (ext_of(p@) == Some(e@)),
{
    let name = file_name_vec(p);
    let d = find_after_last(name.as_slice(), DOT);
    proof {
        lemma_after_last_props(name@, DOT);
    }
    if d < 2 {
        return false;
    }
    let ext = copy_range(name.as_slice(), d, name.len());
    bytes_eq(ext.as_slice(), e)
}

/// Whether `p`'s stem is exactly `e`.
pub fn stem_matches(p: &[u8], e: &[u8]) -> (r: bool)
    ensures
        r == (stem_of(p@) == e@),
{
    let name = file_name_vec(p);
    let d = find_after_last(name.as_slice(), DOT);
    proof {
        lemma_after_last_props(name@, DOT);
    }
    let stem = if d < 2 {
        copy_range(name.as_slice(), 0, name.len())
    } else {
        copy_range(name.as_slice(), 0, d - 1)
    };
    proof {
        if d < 2 {
            assert(name@.subrange(0, name@.len() as int) =~= name@);
        }
    }
    bytes_eq(stem.as_slice(), e)
}

/// Whether the directory immediately containing `p` is named `dname`.
pub fn parent_dir_is(p: &[u8], dname: &[u8]) -> (r: bool)
    ensures
        r == (parent_dir_name(p@) == Some(dname@)),
{
    let d = find_after_last(p, SLASH);
    proof {
        lemma_after_last_props(p@, SLASH);
    }
    if d == 0 {
        return false;
    }
    let par = copy_range(p, 0, d - 1);
    let pname = file_name_vec(par.as_slice());
    bytes_eq(pname.as_slice(), dname)
}

/// Checks that every component of `s` is acceptable and `s` is non-empty;
/// this is the structural half of entry-name safety (UTF-8 validity is the
/// other half).
pub fn components_safe_check(s: &[u8]) -> (r: bool)
    ensures
        r == components_safe(s@),
{
    if s.len() == 0 {
        return false;
    }
    let mut i: usize = 0;
    let mut start: usize = 0;
    loop
        invariant
            start <= i <= s@.len(),
            s@.len() > 0,
            comps_ok_rec(s@, 0, 0) == comps_ok_rec(s@, i as int, start as int),
            forall|j: int| 0 <= j < i ==> s@[j] != NUL && s@[j] != BACKSLASH,
        decreases s@.len() - i,
    {
        if i < s.len() && (s[i] == NUL || s[i] == BACKSLASH) {
            return false;
        }
        if i == s.len() || s[i] == SLASH {
            // check the component s[start..i]
            let clen = i - start;
            let bad = clen == 0 || (clen == 1 && s[start] == DOT) || (clen == 2 && s[start] == DOT
                && s[start + 1] == DOT);
            proof {
                let c = s@.subrange(start as int, i as int);
                assert(clen == c.len());
                if clen >= 1 {
                    assert(c[0] == s@[start as int]);
                }
                if clen >= 2 {
                    assert(c[1] == s@[start as int + 1]);
                }
                assert(bad == !comp_ok(c));
            }
            if bad {
                return false;
            }
            if i == s.len() {
                return true;
            }
            i = i + 1;
            start = i;
        } else {
            i = i + 1;
        }
    }
}

} // verus!
