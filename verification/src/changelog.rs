//! Changelog entry rendering and marker-based insertion.
//!
//! A changelog file carries a stable marker line; new entries are inserted
//! immediately after the first occurrence of the marker, preserving all
//! content before and after it.  An entry is headed by the final version
//! and a date, with the body's heading levels shifted down by one.

use vstd::prelude::*;
use vstd::string::StringSliceAdditionalSpecFns;

use crate::bump::SemVer;

verus! {

/// The marker's byte sequence.
pub open spec fn marker_view() -> Seq<u8> {
    ("<!-- bureaucrate goes here -->\n").spec_bytes()
}

/// Whether `m` occurs in `h` starting at position `i`.
pub open spec fn matches_at(h: Seq<u8>, m: Seq<u8>, i: int) -> bool {
    0 <= i && i + m.len() <= h.len() && forall|j: int| 0 <= j < m.len() ==> h[i + j] == m[j]
}

/// Whether `i` is the first occurrence of `m` in `h`.
pub open spec fn first_match(h: Seq<u8>, m: Seq<u8>, i: int) -> bool {
    matches_at(h, m, i) && forall|i2: int| 0 <= i2 < i ==> !matches_at(h, m, i2)
}

/// A byte of ASCII whitespace.
pub open spec fn is_ws(b: u8) -> bool {
    b == 32 || b == 9 || b == 10 || b == 13
}

/// `s` without leading whitespace.
pub open spec fn trim_front(s: Seq<u8>) -> Seq<u8>
    decreases s.len(),
{
    if s.len() > 0 && is_ws(s[0]) {
        trim_front(s.drop_first())
    } else {
        s
    }
}

/// `s` without trailing whitespace.
pub open spec fn trim_back(s: Seq<u8>) -> Seq<u8>
    decreases s.len(),
{
    if s.len() > 0 && is_ws(s.last()) {
        trim_back(s.drop_last())
    } else {
        s
    }
}

/// `s` without leading and trailing whitespace.
pub open spec fn trimmed(s: Seq<u8>) -> Seq<u8> {
    trim_back(trim_front(s))
}

/// Whether position `j` begins a line of `s`.
pub open spec fn line_start(s: Seq<u8>, j: int) -> bool {
    j == 0 || s[j - 1] == 10u8
}

/// The first `i` bytes of `s` with one `#` prepended to every line that
/// begins with `#`.
pub open spec fn shifted_prefix(s: Seq<u8>, i: int) -> Seq<u8>
    decreases i,
{
    if i <= 0 {
        Seq::empty()
    } else {
        shifted_prefix(s, i - 1) + if line_start(s, i - 1) && s[i - 1] == 35u8 {
            seq![35u8, s[i - 1]]
        } else {
            seq![s[i - 1]]
        }
    }
}

/// `s` with every heading shifted down one level.
pub open spec fn shifted(s: Seq<u8>) -> Seq<u8> {
    shifted_prefix(s, s.len() as int)
}

/// The decimal digits of `n`.
pub open spec fn dec_bytes(n: nat) -> Seq<u8>
    decreases n,
{
    if n < 10 {
        seq![(48 + n) as u8]
    } else {
        dec_bytes(n / 10) + seq![(48 + n % 10) as u8]
    }
}

/// `major.minor.patch` in decimal.
pub open spec fn version_view(v: SemVer) -> Seq<u8> {
    dec_bytes(v.major as nat) + seq![46u8] + dec_bytes(v.minor as nat) + seq![46u8] + dec_bytes(
        v.patch as nat,
    )
}

/// A rendered changelog entry: a heading with the final version and the
/// date, then the trimmed body with headings shifted down one level.
pub open spec fn entry_view(v: SemVer, date: Seq<u8>, body: Seq<u8>) -> Seq<u8> {
    ("## [v").spec_bytes() + version_view(v) + ("] ").spec_bytes() + date + (
    "\n\n").spec_bytes() + shifted(trimmed(body)) + ("\n").spec_bytes()
}

/// The marker line after which entries are inserted.
pub fn changelog_marker() -> (r: Vec<u8>)
    ensures
        r@ == marker_view(),
{
    "<!-- bureaucrate goes here -->\n".as_bytes_vec()
}

/// Appends all of `src` to `dst`.
pub fn push_all(dst: &mut Vec<u8>, src: &Vec<u8>)
    ensures
        final(dst)@ == old(dst)@ + src@,
{
    push_range(dst, src, 0, src.len());
    proof {
        assert(final(dst)@ =~= old(dst)@ + src@);
    }
}

/// Appends `src[from..to]` to `dst`.
pub fn push_range(dst: &mut Vec<u8>, src: &Vec<u8>, from: usize, to: usize)
    requires
        from <= to <= src@.len(),
    ensures
        final(dst)@ == old(dst)@ + src@.subrange(from as int, to as int),
{
    let mut x = from;
    proof {
        assert(dst@ =~= old(dst)@ + src@.subrange(from as int, from as int));
    }
    while x < to
        invariant
            from <= x <= to <= src@.len(),
            dst@ == old(dst)@ + src@.subrange(from as int, x as int),
        decreases to - x,
    {
        dst.push(src[x]);
        proof {
            assert(src@.subrange(from as int, (x + 1) as int) =~= src@.subrange(
                from as int,
                x as int,
            ).push(src@[x as int]));
            assert(dst@ =~= old(dst)@ + src@.subrange(from as int, (x + 1) as int));
        }
        x += 1;
    }
}

fn matches_here(h: &Vec<u8>, m: &Vec<u8>, i: usize) -> (r: bool)
    requires
        i + m@.len() <= h@.len(),
    ensures
        r == matches_at(h@, m@, i as int),
{
    let hlen = h.len();
    let mut j: usize = 0;
    while j < m.len()
        invariant
            hlen == h@.len(),
            i + m@.len() <= h@.len(),
            j <= m@.len(),
            forall|j2: int| 0 <= j2 < j ==> h@[i + j2] == m@[j2],
        decreases m@.len() - j,
    {
        if h[i + j] != m[j] {
            return false;
        }
        j += 1;
    }
    true
}

/// Finds the first occurrence of `m` in `h`.
pub fn find_subsequence(h: &Vec<u8>, m: &Vec<u8>) -> (r: Option<usize>)
    ensures
        r is Some ==> first_match(h@, m@, r.unwrap() as int),
        r is None ==> forall|i: int| !matches_at(h@, m@, i),
{
    if m.len() > h.len() {
        return None;
    }
    if m.len() == 0 {
        return Some(0);
    }
    let last = h.len() - m.len();
    let mut i: usize = 0;
    while i <= last
        invariant
            1 <= m@.len() <= h@.len(),
            h@.len() <= usize::MAX,
            last == h@.len() - m@.len(),
            i <= last + 1,
            forall|i2: int| 0 <= i2 < i ==> !matches_at(h@, m@, i2),
        decreases last + 1 - i,
    {
        if matches_here(h, m, i) {
            return Some(i);
        }
        i += 1;
    }
    None
}

/// Inserts `entry` into the changelog `existing`: immediately after the
/// first occurrence of `marker`, preserving everything before and after
/// the marker; if the marker is absent, the new changelog is the marker,
/// the entry, then all previous content.
pub fn insert_entry(existing: &Vec<u8>, marker: &Vec<u8>, entry: &Vec<u8>) -> (r: Vec<u8>)
    ensures
        (exists|i: int| matches_at(existing@, marker@, i)) ==> exists|i: int|
            #[trigger] first_match(existing@, marker@, i) && r@ == existing@.subrange(
                0,
                i + marker@.len(),
            ) + entry@ + existing@.subrange(i + marker@.len(), existing@.len() as int),
        (forall|i: int| !matches_at(existing@, marker@, i)) ==> r@ == marker@ + entry@ + existing@,
{
    let mut out: Vec<u8> = Vec::new();
    match find_subsequence(existing, marker) {
        Some(i) => {
            let n = existing.len();
            proof {
                assert(i + marker@.len() <= n);
            }
            let cut = i + marker.len();
            push_range(&mut out, existing, 0, cut);
            push_all(&mut out, entry);
            push_range(&mut out, existing, cut, existing.len());
            proof {
                assert(matches_at(existing@, marker@, i as int));
                assert(first_match(existing@, marker@, i as int) && out@ == existing@.subrange(
                    0,
                    i + marker@.len(),
                ) + entry@ + existing@.subrange(i + marker@.len(), existing@.len() as int));
            }
            out
        },
        Option::None => {
            push_all(&mut out, marker);
            push_all(&mut out, entry);
            push_all(&mut out, existing);
            out
        },
    }
}

fn byte_is_ws(b: u8) -> (r: bool)
    ensures
        r == is_ws(b),
{
    b == 32 || b == 9 || b == 10 || b == 13
}

/// Copies `s` without leading and trailing ASCII whitespace.
pub fn trim_bytes(s: &Vec<u8>) -> (r: Vec<u8>)
    ensures
        r@ == trimmed(s@),
{
    let n = s.len();
    let mut a: usize = 0;
    proof {
        assert(s@.subrange(0, n as int) =~= s@);
    }
    while a < n && byte_is_ws(s[a])
        invariant
            n == s@.len(),
            a <= n,
            trim_front(s@) == trim_front(s@.subrange(a as int, n as int)),
        decreases n - a,
    {
        proof {
            assert(s@.subrange(a as int, n as int).drop_first() =~= s@.subrange(
                (a + 1) as int,
                n as int,
            ));
        }
        a += 1;
    }
    proof {
        assert(trim_front(s@) =~= s@.subrange(a as int, n as int));
    }
    let mut b: usize = n;
    while b > a && byte_is_ws(s[b - 1])
        invariant
            n == s@.len(),
            a <= b <= n,
            trim_front(s@) == s@.subrange(a as int, n as int),
            trim_back(s@.subrange(a as int, n as int)) == trim_back(
                s@.subrange(a as int, b as int),
            ),
        decreases b,
    {
        proof {
            assert(s@.subrange(a as int, b as int).drop_last() =~= s@.subrange(
                a as int,
                (b - 1) as int,
            ));
        }
        b -= 1;
    }
    let mut out: Vec<u8> = Vec::new();
    push_range(&mut out, s, a, b);
    proof {
        assert(trim_back(s@.subrange(a as int, b as int)) == s@.subrange(a as int, b as int));
        assert(out@ =~= trimmed(s@));
    }
    out
}

/// Copies `s` with one `#` prepended to every line that begins with `#`.
pub fn shift_headings(s: &Vec<u8>) -> (r: Vec<u8>)
    ensures
        r@ == shifted(s@),
{
    let mut out: Vec<u8> = Vec::new();
    let mut i: usize = 0;
    while i < s.len()
        invariant
            i <= s@.len(),
            out@ == shifted_prefix(s@, i as int),
        decreases s@.len() - i,
    {
        let at_start = i == 0 || s[i - 1] == 10u8;
        if at_start && s[i] == 35u8 {
            out.push(35u8);
        }
        out.push(s[i]);
        proof {
            assert(out@ =~= shifted_prefix(s@, (i + 1) as int));
        }
        i += 1;
    }
    out
}

/// The decimal digits of `n`.
pub fn u64_to_dec(n: u64) -> (r: Vec<u8>)
    ensures
        r@ == dec_bytes(n as nat),
    decreases n,
{
    if n < 10 {
        let mut v: Vec<u8> = Vec::new();
        v.push(48 + n as u8);
        proof {
            assert(v@ =~= dec_bytes(n as nat));
        }
        v
    } else {
        let mut v = u64_to_dec(n / 10);
        v.push(48 + (n % 10) as u8);
        proof {
            assert(v@ =~= dec_bytes(n as nat));
        }
        v
    }
}

/// Renders `major.minor.patch`.
pub fn version_bytes(v: SemVer) -> (r: Vec<u8>)
    ensures
        r@ == version_view(v),
{
    let mut out = u64_to_dec(v.major);
    out.push(46u8);
    let mut mi = u64_to_dec(v.minor);
    out.append(&mut mi);
    out.push(46u8);
    let mut pa = u64_to_dec(v.patch);
    out.append(&mut pa);
    proof {
        assert(out@ =~= version_view(v));
    }
    out
}

/// Renders a full changelog entry from the final version, the date line
/// text, and the classifier's changelog body.
pub fn render_entry(v: SemVer, date: &Vec<u8>, body: &Vec<u8>) -> (r: Vec<u8>)
    ensures
        r@ == entry_view(v, date@, body@),
{
    let mut out = "## [v".as_bytes_vec();
    let mut vb = version_bytes(v);
    out.append(&mut vb);
    let mut t1 = "] ".as_bytes_vec();
    out.append(&mut t1);
    push_all(&mut out, date);
    let mut t2 = "\n\n".as_bytes_vec();
    out.append(&mut t2);
    let tr = trim_bytes(body);
    let mut sh = shift_headings(&tr);
    out.append(&mut sh);
    let mut t3 = "\n".as_bytes_vec();
    out.append(&mut t3);
    proof {
        assert(out@ =~= entry_view(v, date@, body@));
    }
    out
}

} // verus!
