//! The dry-run Markdown report of proposed changelog entries and version
//! bumps with their reasons.

use vstd::prelude::*;
use vstd::string::StringSliceAdditionalSpecFns;
use vstd::utf8::encode_utf8;

use crate::bump::{apply_spec, can_apply, level};
use crate::bump::Bump;
use crate::changelog::{shift_headings, shifted, trim_bytes, trimmed, version_bytes, version_view};
use crate::graph::{Package, PackageGraph};
use crate::status::{bump_label, bump_label_view, PackageStatus};

verus! {

/// The UTF-8 bytes of a package name.
pub open spec fn name_bytes(p: Package) -> Seq<u8> {
    encode_utf8(p.name@)
}

/// The UTF-8 bytes of a bump level's label.
pub open spec fn label_bytes(b: Bump) -> Seq<u8> {
    encode_utf8(bump_label_view(b))
}

/// The report's changes section for one package: nothing when its
/// changelog is blank, else a heading with name, final version and bump
/// label, followed by the changelog body with headings shifted down.
pub open spec fn pkg_changes_view(p: Package, st: PackageStatus) -> Seq<u8> {
    if trimmed(st.changelog@).len() == 0 {
        Seq::empty()
    } else {
        ("## ").spec_bytes() + name_bytes(p) + (" v").spec_bytes() + version_view(
            apply_spec(st.bump, st.version),
        ) + (" (").spec_bytes() + label_bytes(st.bump) + (" bump)\n\n").spec_bytes() + shifted(
            trimmed(st.changelog@),
        ) + ("\n").spec_bytes()
    }
}

/// The changes sections of the first `i` packages, in package order.
pub open spec fn changes_view(pkgs: Seq<Package>, sts: Seq<PackageStatus>, i: int) -> Seq<u8>
    decreases i,
{
    if i <= 0 {
        Seq::empty()
    } else {
        changes_view(pkgs, sts, i - 1) + pkg_changes_view(pkgs[i - 1], sts[i - 1])
    }
}

/// One recorded reason, as a Markdown list item.
pub open spec fn reasons_view(rs: Seq<String>, i: int) -> Seq<u8>
    decreases i,
{
    if i <= 0 {
        Seq::empty()
    } else {
        reasons_view(rs, i - 1) + ("- ").spec_bytes() + encode_utf8(rs[i - 1]@) + (
        "\n\n").spec_bytes()
    }
}

/// The report's bumps section for one package: nothing when it has no
/// bump, else the version transition and every recorded reason.
pub open spec fn pkg_bump_view(p: Package, st: PackageStatus) -> Seq<u8> {
    if level(st.bump) == 0 {
        Seq::empty()
    } else {
        name_bytes(p) + (" `").spec_bytes() + version_view(st.version) + ("` -> `").spec_bytes()
            + version_view(apply_spec(st.bump, st.version)) + ("`\n\n").spec_bytes()
            + reasons_view(st.bump_reasons@, st.bump_reasons@.len() as int)
    }
}

/// The bumps sections of the first `i` packages, in package order.
pub open spec fn bumps_view(pkgs: Seq<Package>, sts: Seq<PackageStatus>, i: int) -> Seq<u8>
    decreases i,
{
    if i <= 0 {
        Seq::empty()
    } else {
        bumps_view(pkgs, sts, i - 1) + pkg_bump_view(pkgs[i - 1], sts[i - 1])
    }
}

/// The whole dry-run report.
pub open spec fn report_view(pkgs: Seq<Package>, sts: Seq<PackageStatus>) -> Seq<u8> {
    (
    "Hey, seems like you need to have changelog and version bumps for your PR?\n\nDon't worry, i've got you covered, if you have proper commit messages, then the changelog entries below should be okay for you\n\n").spec_bytes()
        + ("# Changes\n\n").spec_bytes() + (
    "After your confirmation, I will append the following entries to changelogs of packages:\n\n").spec_bytes()
        + changes_view(pkgs, sts, pkgs.len() as int) + ("\n\n").spec_bytes() + (
    "# Bumps\n\n").spec_bytes() + (
    "I may not be able to describe reason for bump, but they should be required:\n\n").spec_bytes()
        + bumps_view(pkgs, sts, pkgs.len() as int)
}

fn render_pkg_changes(p: &Package, st: &PackageStatus) -> (r: Vec<u8>)
    requires
        can_apply(st.bump, st.version),
    ensures
        r@ == pkg_changes_view(*p, *st),
{
    let tr = trim_bytes(&st.changelog);
    if tr.len() == 0 {
        let out: Vec<u8> = Vec::new();
        proof {
            assert(out@ =~= pkg_changes_view(*p, *st));
        }
        return out;
    }
    let mut out = "## ".as_bytes_vec();
    let mut nb = p.name.as_str().as_bytes_vec();
    out.append(&mut nb);
    let mut t1 = " v".as_bytes_vec();
    out.append(&mut t1);
    let mut vb = version_bytes(st.bump.apply(st.version));
    out.append(&mut vb);
    let mut t2 = " (".as_bytes_vec();
    out.append(&mut t2);
    let mut lb = bump_label(st.bump).as_bytes_vec();
    out.append(&mut lb);
    let mut t3 = " bump)\n\n".as_bytes_vec();
    out.append(&mut t3);
    let mut sh = shift_headings(&tr);
    out.append(&mut sh);
    let mut t4 = "\n".as_bytes_vec();
    out.append(&mut t4);
    proof {
        assert(out@ =~= pkg_changes_view(*p, *st));
    }
    out
}

fn render_pkg_bump(p: &Package, st: &PackageStatus) -> (r: Vec<u8>)
    requires
        can_apply(st.bump, st.version),
    ensures
        r@ == pkg_bump_view(*p, *st),
{
    if st.bump.rank() == 0 {
        let out: Vec<u8> = Vec::new();
        proof {
            assert(out@ =~= pkg_bump_view(*p, *st));
        }
        return out;
    }
    let mut out = p.name.as_str().as_bytes_vec();
    let mut t1 = " `".as_bytes_vec();
    out.append(&mut t1);
    let mut vb = version_bytes(st.version);
    out.append(&mut vb);
    let mut t2 = "` -> `".as_bytes_vec();
    out.append(&mut t2);
    let mut fb = version_bytes(st.bump.apply(st.version));
    out.append(&mut fb);
    let mut t3 = "`\n\n".as_bytes_vec();
    out.append(&mut t3);
    let ghost head = out@;
    let mut k: usize = 0;
    while k < st.bump_reasons.len()
        invariant
            k <= st.bump_reasons@.len(),
            out@ == head + reasons_view(st.bump_reasons@, k as int),
        decreases st.bump_reasons@.len() - k,
    {
        let mut d = "- ".as_bytes_vec();
        out.append(&mut d);
        let mut rb = st.bump_reasons[k].as_str().as_bytes_vec();
        out.append(&mut rb);
        let mut nl = "\n\n".as_bytes_vec();
        out.append(&mut nl);
        proof {
            assert(out@ =~= head + reasons_view(st.bump_reasons@, (k + 1) as int));
        }
        k += 1;
    }
    proof {
        assert(out@ =~= pkg_bump_view(*p, *st));
    }
    out
}

/// Renders the dry-run report for the whole status list.
pub fn render_report(g: &PackageGraph, sts: &Vec<PackageStatus>) -> (r: Vec<u8>)
    requires
        sts@.len() == g.packages@.len(),
        forall|i: int|
            0 <= i < sts@.len() ==> can_apply((#[trigger] sts@[i]).bump, sts@[i].version),
    ensures
        r@ == report_view(g.packages@, sts@),
{
    let mut out =
        "Hey, seems like you need to have changelog and version bumps for your PR?\n\nDon't worry, i've got you covered, if you have proper commit messages, then the changelog entries below should be okay for you\n\n".as_bytes_vec();
    let mut h1 = "# Changes\n\n".as_bytes_vec();
    out.append(&mut h1);
    let mut h2 =
        "After your confirmation, I will append the following entries to changelogs of packages:\n\n".as_bytes_vec();
    out.append(&mut h2);
    let ghost head1 = out@;
    let n = g.packages.len();
    let mut i: usize = 0;
    while i < n
        invariant
            n == g.packages@.len() == sts@.len(),
            i <= n,
            forall|i2: int|
                0 <= i2 < sts@.len() ==> can_apply((#[trigger] sts@[i2]).bump, sts@[i2].version),
            out@ == head1 + changes_view(g.packages@, sts@, i as int),
        decreases n - i,
    {
        let mut sec = render_pkg_changes(&g.packages[i], &sts[i]);
        out.append(&mut sec);
        proof {
            assert(out@ =~= head1 + changes_view(g.packages@, sts@, (i + 1) as int));
        }
        i += 1;
    }
    let mut m1 = "\n\n".as_bytes_vec();
    out.append(&mut m1);
    let mut m2 = "# Bumps\n\n".as_bytes_vec();
    out.append(&mut m2);
    let mut m3 =
        "I may not be able to describe reason for bump, but they should be required:\n\n".as_bytes_vec();
    out.append(&mut m3);
    let ghost head2 = out@;
    let mut i: usize = 0;
    while i < n
        invariant
            n == g.packages@.len() == sts@.len(),
            i <= n,
            forall|i2: int|
                0 <= i2 < sts@.len() ==> can_apply((#[trigger] sts@[i2]).bump, sts@[i2].version),
            out@ == head2 + bumps_view(g.packages@, sts@, i as int),
        decreases n - i,
    {
        let mut sec = render_pkg_bump(&g.packages[i], &sts[i]);
        out.append(&mut sec);
        proof {
            assert(out@ =~= head2 + bumps_view(g.packages@, sts@, (i + 1) as int));
        }
        i += 1;
    }
    proof {
        assert(out@ =~= report_view(g.packages@, sts@));
    }
    out
}

} // verus!
