//! Path policy for manifest verification: absolute-path detection,
//! resolution against a base directory, and the containment check that
//! rejects paths escaping the base.
//!
//! The functions work on path strings.  Containment is meant for
//! canonical paths (no `..` segments, no trailing separator except on
//! the root), which is what the caller obtains by canonicalizing both
//! sides before asking.

use vstd::prelude::*;

verus! {

/// A path that names its location from the root.
pub open spec fn spec_is_absolute(p: Seq<char>) -> bool {
    p.len() > 0 && p[0] == '/'
}

pub fn is_absolute_path(p: &str) -> (r: bool)
    ensures
        r == spec_is_absolute(p@),
{
    let n = p.unicode_len();
    if n == 0 {
        false
    } else {
        p.get_char(0) == '/'
    }
}

/// Joining a relative path onto a base directory, inserting a separator
/// unless the base already ends with one.
pub open spec fn spec_join(base: Seq<char>, rel: Seq<char>) -> Seq<char> {
    if base.len() == 0 {
        rel
    } else if base.last() == '/' {
        base + rel
    } else {
        base + seq!['/'] + rel
    }
}

/// The path a manifest entry names once a base directory is taken into
/// account: absolute entries stand as they are, relative ones are joined
/// onto the base; with no base the raw path is used unchanged.
pub open spec fn spec_resolve(raw: Seq<char>, base: Option<Seq<char>>) -> Seq<char> {
    match base {
        None => raw,
        Some(b) => if spec_is_absolute(raw) {
            raw
        } else {
            spec_join(b, raw)
        },
    }
}

pub open spec fn base_view(b: Option<&String>) -> Option<Seq<char>> {
    match b {
        None => None,
        Some(s) => Some(s@),
    }
}

pub fn resolve_path(raw: &String, base: Option<&String>) -> (r: String)
    ensures
        r@ == spec_resolve(raw@, base_view(base)),
{
    match base {
        None => raw.clone(),
        Some(b) => {
            if is_absolute_path(raw.as_str()) {
                raw.clone()
            } else {
                let bl = b.as_str().unicode_len();
                if bl == 0 {
                    raw.clone()
                } else {
                    let mut out = b.clone();
                    if b.as_str().get_char(bl - 1) != '/' {
                        out.append("/");
                        proof {
                            reveal_strlit("/");
                            assert("/"@ =~= seq!['/']);
                        }
                    }
                    out.append(raw.as_str());
                    proof {
                        assert(out@ =~= spec_join(b@, raw@));
                    }
                    out
                }
            }
        },
    }
}

/// `p` lies within the directory `base`: it is the base itself, or the
/// base followed by a separator and more.  Both are read as canonical
/// paths.
pub open spec fn spec_within(base: Seq<char>, p: Seq<char>) -> bool {
    p == base || (p.len() > base.len() && p.subrange(0, base.len() as int) == base && (p[base.len() as int] == '/'
        || (base.len() > 0 && base.last() == '/')))
}

pub fn within_base(base: &String, p: &String) -> (r: bool)
    ensures
        r == spec_within(base@, p@),
{
    let bl = base.as_str().unicode_len();
    let pl = p.as_str().unicode_len();
    if pl < bl {
        return false;
    }
    let mut i: usize = 0;
    while i < bl
        invariant
            bl == base@.len(),
            pl == p@.len(),
            bl <= pl,
            i <= bl,
            forall|j: int| 0 <= j < i ==> base@[j] == p@[j],
        decreases bl - i,
    {
        if base.as_str().get_char(i) != p.as_str().get_char(i) {
            proof {
                if p@ == base@ {
                    assert(base@[i as int] == p@[i as int]);
                }
                if p@.subrange(0, bl as int) == base@ {
                    assert(p@.subrange(0, bl as int)[i as int] == p@[i as int]);
                }
            }
            return false;
        }
        i += 1;
    }
    if pl == bl {
        proof {
            assert(base@ =~= p@);
        }
        true
    } else {
        proof {
            assert(p@.subrange(0, bl as int) =~= base@);
        }
        p.as_str().get_char(bl) == '/' || (bl > 0 && base.as_str().get_char(bl - 1) == '/')
    }
}

} // verus!
