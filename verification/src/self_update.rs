//! Decisions of the self-updater: comparing release versions and picking
//! the release asset for a platform.

use vstd::prelude::*;
use crate::text::{
    append_str, chars_to_string, eq_chars, parse_unsigned, parse_unsigned_chars, split_char,
    split_chars, str_chars,
};

verus! {

/// `version` without one leading `v`.
pub open spec fn strip_v(version: Seq<char>) -> Seq<char> {
    if version.len() > 0 && version[0] == 'v' {
        version.drop_first()
    } else {
        version
    }
}

/// Removes a leading `v` from a version string.
pub fn parse_version(version: &str) -> (r: &str)
    ensures
        r@ == strip_v(version@),
{
    let n = version.unicode_len();
    if n > 0 && version.get_char(0) == 'v' {
        let r = version.substring_char(1, n);
        proof {
            assert(r@ =~= version@.drop_first());
        }
        r
    } else {
        proof {
            assert(version@.subrange(0, n as int) =~= version@);
        }
        version
    }
}

/// The numeric parts of a version: the pieces between dots that parse as
/// `u32`, in order (pieces that do not are left out).
pub open spec fn numeric_parts(pieces: Seq<Seq<char>>) -> Seq<nat>
    decreases pieces.len(),
{
    if pieces.len() == 0 {
        Seq::empty()
    } else {
        let rest = numeric_parts(pieces.drop_last());
        match parse_unsigned(pieces.last(), u32::MAX as nat) {
            Some(v) => rest.push(v),
            None => rest,
        }
    }
}

/// The parts of a version string, its `v` prefix removed.
pub open spec fn version_parts(version: Seq<char>) -> Seq<nat> {
    numeric_parts(split_char(strip_v(version), '.'))
}

/// Part `i` of a version, 0 past its end.
pub open spec fn part(p: Seq<nat>, i: int) -> nat {
    if 0 <= i < p.len() {
        p[i]
    } else {
        0
    }
}

/// `latest` is greater than `current`, comparing parts in order and
/// reading missing parts as 0.
pub open spec fn parts_newer(current: Seq<nat>, latest: Seq<nat>) -> bool {
    exists|i: int|
        0 <= i < (if current.len() >= latest.len() {
            current.len()
        } else {
            latest.len()
        }) && part(latest, i) > part(current, i) && forall|j: int|
            0 <= j < i ==> #[trigger] part(latest, j) == part(current, j)
}

/// Whether release `latest` is newer than `current`.
pub open spec fn newer(current: Seq<char>, latest: Seq<char>) -> bool {
    parts_newer(version_parts(current), version_parts(latest))
}

/// The numeric parts of a version string.
fn parts_of(version: &str) -> (r: Vec<u32>)
    ensures
        r@.map_values(|x: u32| x as nat) == version_parts(version@),
{
    let stripped = parse_version(version);
    let chars = str_chars(stripped);
    let pieces = split_chars(&chars, '.');
    let ghost sp = split_char(strip_v(version@), '.');
    let mut out: Vec<u32> = Vec::new();
    let mut i: usize = 0;
    while i < pieces.len()
        invariant
            i <= pieces.len(),
            pieces@.len() == sp.len(),
            forall|j: int| 0 <= j < pieces@.len() ==> #[trigger] pieces@[j]@ == sp[j],
            out@.map_values(|x: u32| x as nat) == numeric_parts(sp.take(i as int)),
        decreases pieces.len() - i,
    {
        proof {
            assert(sp.take(i + 1).drop_last() =~= sp.take(i as int));
            assert(sp.take(i + 1).last() == pieces@[i as int]@);
        }
        match parse_unsigned_chars(&pieces[i], u32::MAX) {
            Some(v) => {
                let ghost before = out@;
                out.push(v);
                proof {
                    assert(out@.map_values(|x: u32| x as nat) =~= before.map_values(
                        |x: u32| x as nat,
                    ).push(v as nat));
                }
            },
            None => {},
        }
        i += 1;
    }
    proof {
        assert(sp.take(sp.len() as int) =~= sp);
    }
    out
}

/// Compares two releases: true when `latest` is a newer version than
/// `current` (a leading `v` is ignored on both).
pub fn is_newer_version(current: &str, latest: &str) -> (r: bool)
    ensures
        r == newer(current@, latest@),
{
    let c = parts_of(current);
    let l = parts_of(latest);
    let ghost cv = c@.map_values(|x: u32| x as nat);
    let ghost lv = l@.map_values(|x: u32| x as nat);
    let n = if c.len() >= l.len() {
        c.len()
    } else {
        l.len()
    };
    let mut i: usize = 0;
    while i < n
        invariant
            i <= n,
            n == (if c.len() >= l.len() {
                c.len()
            } else {
                l.len()
            }),
            cv == c@.map_values(|x: u32| x as nat),
            lv == l@.map_values(|x: u32| x as nat),
            cv == version_parts(current@),
            lv == version_parts(latest@),
            forall|j: int| 0 <= j < i ==> #[trigger] part(lv, j) == part(cv, j),
        decreases n - i,
    {
        let cp: u32 = if i < c.len() {
            c[i]
        } else {
            0
        };
        let lp: u32 = if i < l.len() {
            l[i]
        } else {
            0
        };
        assert(cp as nat == part(cv, i as int));
        assert(lp as nat == part(lv, i as int));
        if lp > cp {
            return true;
        } else if lp < cp {
            proof {
                assert forall|k: int|
                    0 <= k < n && part(lv, k) > part(cv, k) implies !(forall|j: int|
                    0 <= j < k ==> #[trigger] part(lv, j) == part(cv, j)) by {
                    if k > i {
                        assert(part(lv, i as int) != part(cv, i as int));
                    } else if k < i {
                        assert(part(lv, k) == part(cv, k));
                    }
                }
            }
            return false;
        }
        i += 1;
    }
    proof {
        assert forall|k: int|
            0 <= k < n && part(lv, k) > part(cv, k) implies !(forall|j: int|
            0 <= j < k ==> #[trigger] part(lv, j) == part(cv, j)) by {
            assert(part(lv, k) == part(cv, k));
        }
    }
    false
}

/// No version is newer than itself.
pub proof fn lemma_newer_irreflexive(v: Seq<char>)
    ensures
        !newer(v, v),
{
}

/// Of two versions, at most one is newer than the other.
pub proof fn lemma_newer_asymmetric(a: Seq<char>, b: Seq<char>)
    requires
        newer(a, b),
    ensures
        !newer(b, a),
{
    let pa = version_parts(a);
    let pb = version_parts(b);
    let i = choose|i: int|
        0 <= i < (if pa.len() >= pb.len() {
            pa.len()
        } else {
            pb.len()
        }) && part(pb, i) > part(pa, i) && forall|j: int|
            0 <= j < i ==> #[trigger] part(pb, j) == part(pa, j);
    assert forall|k: int|
        0 <= k < (if pb.len() >= pa.len() {
            pb.len()
        } else {
            pa.len()
        }) && part(pa, k) > part(pb, k) implies !(forall|j: int|
        0 <= j < k ==> #[trigger] part(pa, j) == part(pb, j)) by {
        if k > i {
            assert(part(pa, i) != part(pb, i));
        } else if k < i {
            assert(part(pb, k) == part(pa, k));
        }
    }
}

/// A leading `v` does not change how a version compares.
pub proof fn lemma_newer_ignores_v(current: Seq<char>, latest: Seq<char>)
    requires
        !(latest.len() > 0 && latest[0] == 'v'),
    ensures
        newer(current, seq!['v'] + latest) == newer(current, latest),
{
    assert((seq!['v'] + latest).drop_first() =~= latest);
}

/// An asset of a release.
#[derive(Clone, Debug)]
pub struct GitHubAsset {
    pub name: String,
    pub browser_download_url: String,
}

/// Name of the release archive for a platform target.
pub open spec fn archive_name(target: Seq<char>) -> Seq<char> {
    "dodeca-"@ + target + ".tar.xz"@
}

/// The name of the release archive for `target`.
pub fn archive_name_for(target: &str) -> (r: String)
    ensures
        r@ == archive_name(target@),
{
    let mut text = str_chars("dodeca-");
    append_str(&mut text, target);
    append_str(&mut text, ".tar.xz");
    chars_to_string(&text)
}

/// The first asset named as the archive for `target`, if any.
pub fn find_release_asset(assets: &Vec<GitHubAsset>, target: &str) -> (r: Option<usize>)
    ensures
        match r {
            Some(i) => i < assets@.len() && assets@[i as int].name@ == archive_name(target@)
                && forall|j: int| 0 <= j < i ==> assets@[j].name@ != archive_name(target@),
            None => forall|j: int|
                0 <= j < assets@.len() ==> assets@[j].name@ != archive_name(target@),
        },
{
    let wanted = archive_name_for(target);
    let w = str_chars(wanted.as_str());
    let mut i: usize = 0;
    while i < assets.len()
        invariant
            i <= assets.len(),
            w@ == archive_name(target@),
            forall|j: int| 0 <= j < i ==> assets@[j].name@ != archive_name(target@),
        decreases assets.len() - i,
    {
        let name = str_chars(assets[i].name.as_str());
        if eq_chars(&name, &w) {
            return Some(i);
        }
        i += 1;
    }
    None
}

} // verus!
