//! Checks on the shape of file-system paths that the library is handed.
use vstd::prelude::*;

use crate::text::{chars_of, copy_str, push_str, str_eq, string_from_chars};

verus! {

/// Some component of `s` names something below the root: a character other
/// than `/` and `.`, or two dots in a row (a component of dots alone that is
/// longer than `.`).
pub open spec fn names_below_root(s: Seq<char>) -> bool {
    exists|k: int| 0 <= k < s.len() && #[trigger] below_root_at(s, k)
}

pub open spec fn below_root_at(s: Seq<char>, k: int) -> bool {
    (s[k] != '/' && s[k] != '.') || (k + 1 < s.len() && s[k] == '.' && s[k + 1] == '.')
}

/// An absolute path that is not the root itself (`/`, `//`, `/.`, ...).
pub open spec fn absolute_non_root(s: Seq<char>) -> bool {
    &&& s.len() > 0
    &&& s[0] == '/'
    &&& names_below_root(s)
}

pub open spec fn absolute_non_root_error(label: Seq<char>, path: Seq<char>) -> Seq<char> {
    label + " must be an absolute path below the file-system root: "@ + path
}

/// The path itself when it is absolute and not the root; else an error that
/// names it, introduced by `label`.
pub fn validate_absolute_non_root_path(path: &str, label: &str) -> (r: Result<String, String>)
    ensures
        r is Ok <==> absolute_non_root(path@),
        r matches Ok(p) ==> p@ == path@,
        r matches Err(e) ==> e@ == absolute_non_root_error(label@, path@),
{
    let v = chars_of(path);
    let n = v.len();
    let mut below = false;
    let mut k: usize = 0;
    while k < n
        invariant
            v@ == path@,
            n == v@.len(),
            k <= n,
            below == (exists|q: int| 0 <= q < k && #[trigger] below_root_at(v@, q)),
        decreases n - k,
    {
        let c = v[k];
        let hit = (c != '/' && c != '.') || (k + 1 < n && c == '.' && v[k + 1] == '.');
        if hit {
            below = true;
        }
        proof {
            assert(hit == below_root_at(v@, k as int));
            if below_root_at(v@, k as int) {
                assert(exists|q: int| 0 <= q < k + 1 && #[trigger] below_root_at(v@, q));
            }
            if exists|q: int| 0 <= q < k + 1 && #[trigger] below_root_at(v@, q) {
                let q = choose|q: int| 0 <= q < k + 1 && #[trigger] below_root_at(v@, q);
                if q < k {
                    assert(exists|q: int| 0 <= q < k && #[trigger] below_root_at(v@, q));
                }
            }
        }
        k = k + 1;
    }
    if n > 0 && v[0] == '/' && below {
        Ok(copy_str(path))
    } else {
        let mut e = copy_str(label);
        push_str(&mut e, " must be an absolute path below the file-system root: ");
        push_str(&mut e, path);
        Err(e)
    }
}

/// The `/`-separated segments of `s`, empty ones included.
pub open spec fn segments(s: Seq<char>) -> Seq<Seq<char>>
    decreases s.len(),
{
    if s.len() == 0 {
        seq![Seq::empty()]
    } else {
        let prev = segments(s.drop_last());
        if s.last() == '/' {
            prev.push(Seq::empty())
        } else {
            prev.update(prev.len() - 1, prev.last().push(s.last()))
        }
    }
}

/// A segment that names a component: neither empty nor `.`.
pub open spec fn names_component(c: Seq<char>) -> bool {
    c.len() > 0 && c != "."@
}

/// The segments of `segs` that name components, in order.
pub open spec fn named(segs: Seq<Seq<char>>) -> Seq<Seq<char>>
    decreases segs.len(),
{
    if segs.len() == 0 {
        Seq::empty()
    } else {
        named(segs.drop_last()) + if names_component(segs.last()) {
            seq![segs.last()]
        } else {
            Seq::empty()
        }
    }
}

/// The components of an absolute path after its root, as
/// `std::path::Path::components` yields them: `.` and empty segments are
/// skipped.
pub open spec fn path_components(s: Seq<char>) -> Seq<Seq<char>> {
    named(segments(s))
}

fn segment_names_component(v: &Vec<char>, lo: usize, hi: usize) -> (b: bool)
    requires
        lo <= hi <= v@.len(),
    ensures
        b == names_component(v@.subrange(lo as int, hi as int)),
{
    proof {
        reveal_strlit(".");
    }
    let ghost c = v@.subrange(lo as int, hi as int);
    if lo == hi {
        return false;
    }
    if hi - lo == 1 && v[lo] == '.' {
        assert(c =~= "."@);
        return false;
    }
    if hi - lo == 1 {
        assert(c[0] != "."@[0]);
    }
    true
}

/// The components of a path after its root (see `path_components`).
pub fn components_of(path: &str) -> (r: Vec<String>)
    ensures
        r@.map_values(|c: String| c@) == path_components(path@),
{
    let v = chars_of(path);
    let n = v.len();
    let mut out: Vec<String> = Vec::new();
    let mut start: usize = 0;
    let mut k: usize = 0;
    let ghost mut before: Seq<Seq<char>> = Seq::empty();
    assert(v@.take(0) =~= Seq::<char>::empty());
    assert(segments(v@.take(0)) =~= before + seq![v@.subrange(0, 0)]);
    while k < n
        invariant
            v@ == path@,
            n == v@.len(),
            start <= k <= n,
            segments(v@.take(k as int)) == before + seq![v@.subrange(start as int, k as int)],
            out@.map_values(|c: String| c@) == named(before),
        decreases n - k,
    {
        proof {
            assert(v@.take(k + 1).drop_last() =~= v@.take(k as int));
            assert(v@.take(k + 1).last() == v@[k as int]);
        }
        if v[k] == '/' {
            let named_here = segment_names_component(&v, start, k);
            let ghost cur = v@.subrange(start as int, k as int);
            if named_here {
                let seg = string_from_chars(&v, start, k);
                let ghost old_out = out@;
                out.push(seg);
                proof {
                    assert(out@.map_values(|c: String| c@) =~= old_out.map_values(|c: String| c@).push(cur));
                }
            }
            proof {
                let nb = before.push(cur);
                assert(nb.drop_last() =~= before);
                assert(named(nb) =~= named(before) + if names_component(cur) {
                    seq![cur]
                } else {
                    Seq::empty()
                });
                assert(v@.take(k + 1).last() == '/');
                assert(segments(v@.take(k + 1)) == segments(v@.take(k as int)).push(Seq::empty()));
                assert(v@.subrange(k + 1, k + 1) =~= Seq::<char>::empty());
                assert(segments(v@.take(k + 1)) =~= nb + seq![v@.subrange(k + 1, k + 1)]);
                before = nb;
            }
            start = k + 1;
        } else {
            proof {
                let prev = before + seq![v@.subrange(start as int, k as int)];
                assert(v@.subrange(start as int, k as int).push(v@[k as int]) =~= v@.subrange(
                    start as int,
                    k + 1,
                ));
                assert(prev.update(prev.len() - 1, prev.last().push(v@[k as int])) =~= before
                    + seq![v@.subrange(start as int, k + 1)]);
            }
        }
        k = k + 1;
    }
    let ghost cur = v@.subrange(start as int, n as int);
    if segment_names_component(&v, start, n) {
        let seg = string_from_chars(&v, start, n);
        let ghost old_out = out@;
        out.push(seg);
        proof {
            assert(out@.map_values(|c: String| c@) =~= old_out.map_values(|c: String| c@).push(cur));
        }
    }
    proof {
        assert(v@.take(n as int) =~= v@);
        let all = before + seq![cur];
        assert(all.drop_last() =~= before);
        assert(named(all) =~= named(before) + if names_component(cur) {
            seq![cur]
        } else {
            Seq::empty()
        });
    }
    out
}

/// `base`'s components begin `path`'s, as `std::path::Path::starts_with`
/// decides for two absolute paths.
pub open spec fn components_start_with(path: Seq<char>, base: Seq<char>) -> bool {
    let pc = path_components(path);
    let bc = path_components(base);
    bc.len() <= pc.len() && pc.take(bc.len() as int) == bc
}

fn strings_start_with(pc: &Vec<String>, bc: &Vec<String>) -> (r: bool)
    ensures
        r == (bc@.len() <= pc@.len() && pc@.map_values(|c: String| c@).take(bc@.len() as int)
            == bc@.map_values(|c: String| c@)),
{
    let ghost pv = pc@.map_values(|c: String| c@);
    let ghost bv = bc@.map_values(|c: String| c@);
    if bc.len() > pc.len() {
        return false;
    }
    let mut i: usize = 0;
    while i < bc.len()
        invariant
            bc@.len() <= pc@.len(),
            i <= bc@.len(),
            pv == pc@.map_values(|c: String| c@),
            bv == bc@.map_values(|c: String| c@),
            forall|j: int| 0 <= j < i ==> pv[j] == bv[j],
        decreases bc.len() - i,
    {
        if !str_eq(pc[i].as_str(), bc[i].as_str()) {
            proof {
                assert(pv.take(bv.len() as int)[i as int] != bv[i as int]);
            }
            return false;
        }
        i = i + 1;
    }
    assert(pv.take(bv.len() as int) =~= bv);
    true
}

/// Whether `path` lies under `base`, component by component.
pub fn path_starts_with(path: &str, base: &str) -> (r: bool)
    ensures
        r == components_start_with(path@, base@),
{
    let pc = components_of(path);
    let bc = components_of(base);
    strings_start_with(&pc, &bc)
}

/// What is left of `path` under `root` names the policy file: `mcp.yaml`
/// or `.ralphx/mcp.yaml`.
pub open spec fn names_policy_file(rest: Seq<Seq<char>>) -> bool {
    rest == seq!["mcp.yaml"@] || rest == seq![".ralphx"@, "mcp.yaml"@]
}

pub open spec fn policy_path_verdict(owned_root: Seq<char>, policy_path: Seq<char>) -> Result<
    (),
    Seq<char>,
> {
    if !absolute_non_root(owned_root) {
        Err(absolute_non_root_error("MCP policy root"@, owned_root))
    } else if !absolute_non_root(policy_path) {
        Err(absolute_non_root_error("MCP policy"@, policy_path))
    } else if !components_start_with(policy_path, owned_root) {
        Err("MCP policy escapes its owned root: "@ + policy_path)
    } else if !names_policy_file(
        path_components(policy_path).skip(path_components(owned_root).len() as int),
    ) {
        Err("MCP policy must use mcp.yaml under its owned root: "@ + policy_path)
    } else {
        Ok(())
    }
}

/// The owned root and the policy path, when both are absolute paths below
/// the root and the policy is `mcp.yaml` or `.ralphx/mcp.yaml` under the
/// owned root; else the first of these that fails, as an error.
pub fn validate_mcp_policy_path(owned_root: &str, policy_path: &str) -> (r: Result<
    (String, String),
    String,
>)
    ensures
        r is Ok <==> policy_path_verdict(owned_root@, policy_path@) is Ok,
        r matches Ok((a, b)) ==> a@ == owned_root@ && b@ == policy_path@,
        r matches Err(e) ==> policy_path_verdict(owned_root@, policy_path@) == Err::<(), Seq<char>>(e@),
{
    proof {
        reveal_strlit("mcp.yaml");
        reveal_strlit(".ralphx");
    }
    let root = match validate_absolute_non_root_path(owned_root, "MCP policy root") {
        Ok(p) => p,
        Err(e) => {
            return Err(e);
        },
    };
    let policy = match validate_absolute_non_root_path(policy_path, "MCP policy") {
        Ok(p) => p,
        Err(e) => {
            return Err(e);
        },
    };
    let pc = components_of(policy_path);
    let rc = components_of(owned_root);
    if !strings_start_with(&pc, &rc) {
        let mut e = copy_str("MCP policy escapes its owned root: ");
        push_str(&mut e, policy_path);
        return Err(e);
    }
    let ghost pv = pc@.map_values(|c: String| c@);
    let ghost rest = pv.skip(rc@.len() as int);
    let m = rc.len();
    let tail = pc.len() - m;
    let is_file = if tail == 1 {
        str_eq(pc[m].as_str(), "mcp.yaml")
    } else if tail == 2 {
        str_eq(pc[m].as_str(), ".ralphx") && str_eq(pc[m + 1].as_str(), "mcp.yaml")
    } else {
        false
    };
    proof {
        assert(rest.len() == tail);
        if tail == 1 {
            assert(rest[0] == pv[m as int]);
            if is_file {
                assert(rest =~= seq!["mcp.yaml"@]);
            }
            assert(rest != seq![".ralphx"@, "mcp.yaml"@]);
        } else if tail == 2 {
            assert(rest[0] == pv[m as int]);
            assert(rest[1] == pv[m + 1]);
            if is_file {
                assert(rest =~= seq![".ralphx"@, "mcp.yaml"@]);
            } else {
                if rest == seq![".ralphx"@, "mcp.yaml"@] {
                    assert(rest[0] == ".ralphx"@);
                    assert(rest[1] == "mcp.yaml"@);
                }
            }
            assert(rest != seq!["mcp.yaml"@]);
        } else {
            assert(rest.len() != seq!["mcp.yaml"@].len());
            assert(rest.len() != seq![".ralphx"@, "mcp.yaml"@].len());
        }
    }
    if !is_file {
        let mut e = copy_str("MCP policy must use mcp.yaml under its owned root: ");
        push_str(&mut e, policy_path);
        return Err(e);
    }
    Ok((root, policy))
}

/// A policy path that the check accepts, and its owned root, are absolute
/// paths below the file-system root, and the policy lies under the root,
/// one or two components down.
pub proof fn law_accepted_policy_path_lies_under_its_root(owned_root: Seq<char>, policy_path: Seq<char>)
    requires
        policy_path_verdict(owned_root, policy_path) is Ok,
    ensures
        absolute_non_root(owned_root),
        absolute_non_root(policy_path),
        components_start_with(policy_path, owned_root),
        path_components(policy_path).len() == path_components(owned_root).len() + 1
            || path_components(policy_path).len() == path_components(owned_root).len() + 2,
        path_components(policy_path).last() == "mcp.yaml"@,
{
    let pc = path_components(policy_path);
    let rest = pc.skip(path_components(owned_root).len() as int);
    if rest == seq!["mcp.yaml"@] {
        assert(rest.len() == 1);
        assert(pc.last() == rest[0]);
    } else {
        assert(rest == seq![".ralphx"@, "mcp.yaml"@]);
        assert(rest.len() == 2);
        assert(pc.last() == rest[1]);
    }
}

} // verus!
