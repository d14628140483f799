//! String primitives for mount-option assembly: escaping the option
//! delimiter, joining a directory path with an entry name, and the exact-text
//! containment test used to deduplicate overlay layers.

use vstd::prelude::*;

verus! {

/// `s` with every `,` replaced by `\,`, the escaping rule of the
/// mount-option syntax.
pub open spec fn spec_escaped(s: Seq<char>) -> Seq<char>
    decreases s.len(),
{
    if s.len() == 0 {
        Seq::empty()
    } else {
        spec_escaped(s.drop_last()) + (if s.last() == ',' {
            seq!['\\', ',']
        } else {
            seq![s.last()]
        })
    }
}

/// `root` and `name` joined with a single `/`, as a path join of a relative
/// entry name: an empty root contributes nothing, and a root that already
/// ends in `/` gets no second separator.
pub open spec fn spec_joined(root: Seq<char>, name: Seq<char>) -> Seq<char> {
    if root.len() == 0 {
        name
    } else if root.last() == '/' {
        root + name
    } else {
        root + seq!['/'] + name
    }
}

/// `needle` occurs contiguously somewhere in `hay`.
pub open spec fn spec_contains_sub(hay: Seq<char>, needle: Seq<char>) -> bool {
    exists|i: int|
        0 <= i <= hay.len() - needle.len() && #[trigger] hay.subrange(i, i + needle.len())
            == needle
}

/// Escape the mount-option delimiter: every `,` becomes `\,`.
pub fn escape_special_mount_chars(s: &str) -> (r: String)
    ensures
        r@ == spec_escaped(s@),
{
    let len = s.unicode_len();
    let mut r = String::new();
    let mut i: usize = 0;
    while i < len
        invariant
            len == s@.len(),
            i <= len,
            r@ == spec_escaped(s@.take(i as int)),
        decreases len - i,
    {
        let c = s.get_char(i);
        if c == ',' {
            r.append("\\,");
            proof {
                reveal_strlit("\\,");
            }
        } else {
            let piece = s.substring_char(i, i + 1);
            r.append(piece);
        }
        proof {
            assert(s@.take(i + 1 as int).drop_last() =~= s@.take(i as int));
            assert(s@.take(i + 1 as int).last() == s@[i as int]);
            if s@[i as int] == ',' {
                assert(r@ =~= spec_escaped(s@.take(i + 1 as int)));
            } else {
                assert(r@ =~= spec_escaped(s@.take(i + 1 as int)));
            }
        }
        i = i + 1;
    }
    proof {
        assert(s@.take(len as int) =~= s@);
    }
    r
}

/// Join a directory path and an entry name with `/`.
pub fn join_path(root: &str, name: &str) -> (r: String)
    ensures
        r@ == spec_joined(root@, name@),
{
    let len = root.unicode_len();
    if len == 0 {
        return name.to_owned();
    }
    let mut r = root.to_owned();
    if root.get_char(len - 1) != '/' {
        r.append("/");
        proof {
            reveal_strlit("/");
            assert(r@ =~= root@ + seq!['/']);
        }
    }
    r.append(name);
    proof {
        if root@.last() == '/' {
            assert(r@ =~= spec_joined(root@, name@));
        } else {
            assert(r@ =~= spec_joined(root@, name@));
        }
    }
    r
}

/// Whether `name` occurs in the list `v`.
pub fn contains_string(v: &Vec<String>, name: &String) -> (r: bool)
    ensures
        r == crate::config::strs_view(v@).contains(name@),
{
    let len = v.len();
    let mut i: usize = 0;
    while i < len
        invariant
            len == v@.len(),
            i <= len,
            forall|j: int| 0 <= j < i ==> crate::config::strs_view(v@)[j] != name@,
        decreases len - i,
    {
        if v[i] == *name {
            proof {
                assert(crate::config::strs_view(v@)[i as int] == name@);
            }
            return true;
        }
        i = i + 1;
    }
    false
}

/// An element-for-element copy of a list of strings.
pub fn clone_strings(v: &Vec<String>) -> (r: Vec<String>)
    ensures
        r@ == v@,
{
    let mut r: Vec<String> = Vec::new();
    let mut i: usize = 0;
    let len = v.len();
    while i < len
        invariant
            len == v@.len(),
            i <= len,
            r@ == v@.take(i as int),
        decreases len - i,
    {
        r.push(v[i].clone());
        proof {
            assert(r@ =~= v@.take(i + 1 as int));
        }
        i = i + 1;
    }
    proof {
        assert(v@.take(len as int) =~= v@);
    }
    r
}

/// Exact-text containment: does `needle` occur contiguously in `hay`?
pub fn contains_substring(hay: &str, needle: &str) -> (r: bool)
    ensures
        r == spec_contains_sub(hay@, needle@),
{
    let hay_len = hay.unicode_len();
    let needle_len = needle.unicode_len();
    if needle_len > hay_len {
        return false;
    }
    let end = hay_len - needle_len;
    let mut i: usize = 0;
    while i <= end
        invariant
            hay_len == hay@.len(),
            needle_len == needle@.len(),
            needle_len <= hay_len,
            end == hay_len - needle_len,
            i <= end + 1,
            forall|k: int|
                0 <= k < i ==> #[trigger] hay@.subrange(k, k + needle@.len()) != needle@,
        decreases end + 1 - i,
    {
        let mut j: usize = 0;
        let mut matches = true;
        while j < needle_len
            invariant
                hay_len == hay@.len(),
                needle_len == needle@.len(),
                i + needle_len <= hay_len,
                j <= needle_len,
                matches ==> forall|k: int| 0 <= k < j ==> hay@[i + k] == needle@[k],
                !matches ==> hay@.subrange(i as int, i + needle@.len()) != needle@,
                !matches ==> needle_len > 0,
            decreases needle_len - j,
        {
            if matches {
                let hc = hay.get_char(i + j);
                let nc = needle.get_char(j);
                if hc != nc {
                    proof {
                        assert(hay@.subrange(i as int, i + needle@.len())[j as int] == hay@[i + j]);
                    }
                    matches = false;
                }
            }
            j = j + 1;
        }
        if matches {
            proof {
                assert(hay@.subrange(i as int, i + needle@.len()) =~= needle@);
            }
            return true;
        }
        i = i + 1;
    }
    proof {
        assert(forall|k: int|
            0 <= k <= hay@.len() - needle@.len() ==> #[trigger] hay@.subrange(k, k
                + needle@.len()) != needle@);
    }
    false
}

} // verus!
