//! Profile names: which names are accepted, and which file names in the
//! profile directory hold a profile.
use vstd::prelude::*;
use crate::text::{chars_of, string_of_range};
use crate::usage::upper;

verus! {

/// The message for a rejected profile name.
pub const NAME_RULE: &'static str = "profile name must be 1-64 characters: letters, numbers, '-' or '_', starting with a letter or number";

pub open spec fn is_alphanumeric(c: char) -> bool {
    ('a' <= c && c <= 'z') || ('A' <= c && c <= 'Z') || ('0' <= c && c <= '9')
}

pub open spec fn is_name_char(c: char) -> bool {
    is_alphanumeric(c) || c == '-' || c == '_'
}

/// A profile name: 1 to 64 ASCII letters, digits, `-` or `_`, starting with
/// a letter or digit. Such a name can never hold a path separator or `..`
/// of its own.
pub open spec fn valid_profile_name(name: Seq<char>) -> bool {
    &&& 1 <= name.len() <= 64
    &&& is_alphanumeric(name[0])
    &&& forall|i: int| 0 <= i < name.len() ==> is_name_char(#[trigger] name[i])
}

fn is_alphanumeric_char(c: char) -> (r: bool)
    ensures
        r == is_alphanumeric(c),
{
    ('a' <= c && c <= 'z') || ('A' <= c && c <= 'Z') || ('0' <= c && c <= '9')
}

/// Accepts a profile name or says which names are allowed.
pub fn validate_name(name: &str) -> (r: Result<(), String>)
    ensures
        r is Ok <==> valid_profile_name(name@),
        r matches Err(message) ==> message@ == NAME_RULE@,
{
    let v = chars_of(name);
    let n = v.len();
    if n == 0 || n > 64 || !is_alphanumeric_char(v[0]) {
        return Err(String::from_str(NAME_RULE));
    }
    let mut i: usize = 0;
    while i < n
        invariant
            v@ == name@,
            n == v@.len(),
            i <= n,
            forall|j: int| 0 <= j < i ==> is_name_char(#[trigger] v@[j]),
        decreases n - i,
    {
        let c = v[i];
        if !(is_alphanumeric_char(c) || c == '-' || c == '_') {
            return Err(String::from_str(NAME_RULE));
        }
        i = i + 1;
    }
    Ok(())
}

/// The profile a directory entry holds: for a file name `<stem>.json`, as
/// `Path::extension` and `Path::file_stem` split it, the stem. A name that
/// starts with its only dot (`.json`) has no extension; a name that is not
/// valid UTF-8 (`None`) is no profile.
pub open spec fn profile_of_file(file_name: Option<Seq<char>>) -> Option<Seq<char>> {
    match file_name {
        None => None,
        Some(f) => {
            if f == ".."@ {
                None
            } else {
                match last_dot(f) {
                    Some(k) => if k > 0 && f.skip(k + 1) == "json"@ {
                        Some(f.take(k))
                    } else {
                        None
                    },
                    None => None,
                }
            }
        },
    }
}

/// The position of the last `.` in `s`, if any.
pub open spec fn last_dot(s: Seq<char>) -> Option<int>
    decreases s.len(),
{
    if s.len() == 0 {
        None
    } else if s.last() == '.' {
        Some(s.len() - 1)
    } else {
        last_dot(s.drop_last())
    }
}

/// The profile stored in a file with this name, if it is one.
pub fn profile_name_from_file(file_name: Option<String>) -> (r: Option<String>)
    ensures
        match (r, profile_of_file(
            match file_name {
                Some(f) => Some(f@),
                None => None,
            },
        )) {
            (Some(a), Some(b)) => a@ == b,
            (None, None) => true,
            _ => false,
        },
{
    let f = match file_name {
        Some(f) => f,
        None => return None,
    };
    let v = chars_of(f.as_str());
    proof {
        reveal_strlit("..");
        reveal_strlit("json");
        assert("json"@ =~= seq!['j', 's', 'o', 'n']);
    }
    if v.len() == 2 && v[0] == '.' && v[1] == '.' {
        assert(v@ =~= ".."@);
        return None;
    }
    assert(v@ != ".."@ ==> !(v@.len() == 2 && v@[0] == '.' && v@[1] == '.'));
    let mut k = v.len();
    assert(v@.take(k as int) == v@);
    while k > 0 && v[k - 1] != '.'
        invariant
            k <= v@.len(),
            last_dot(v@) == last_dot(v@.take(k as int)),
        decreases k,
    {
        assert(v@.take(k as int).drop_last() == v@.take(k - 1));
        k = k - 1;
    }
    if k == 0 {
        assert(v@.take(0) =~= Seq::<char>::empty());
        return None;
    }
    let dot = k - 1;
    assert(v@.take(k as int).last() == '.');
    assert(last_dot(v@) == Some(dot as int));
    let ext_ok = v.len() - k == 4 && v[k] == 'j' && v[k + 1] == 's' && v[k + 2] == 'o' && v[k + 3]
        == 'n';
    proof {
        let e = v@.skip(k as int);
        if ext_ok {
            assert(e =~= "json"@);
        }
        if e == "json"@ {
            assert(e[0] == v@[k as int]);
            assert(e[1] == v@[k + 1]);
            assert(e[2] == v@[k + 2]);
            assert(e[3] == v@[k + 3]);
        }
    }
    if dot > 0 && ext_ok {
        let stem = string_of_range(&v, 0, dot);
        assert(v@.subrange(0, dot as int) == v@.take(dot as int));
        Some(stem)
    } else {
        None
    }
}

/// Which names are accepted: exactly those of 1 to 64 characters, each an
/// ASCII letter of either case, an ASCII digit, `-` or `_`, whose first
/// character is an ASCII letter of either case or a digit.
pub proof fn law_accepted_names(name: Seq<char>)
    ensures
        valid_profile_name(name) <==> {
            &&& 1 <= name.len() <= 64
            &&& ('a' <= name[0] <= 'z' || 'A' <= name[0] <= 'Z' || '0' <= name[0] <= '9')
            &&& forall|i: int|
                0 <= i < name.len() ==> ('a' <= #[trigger] name[i] <= 'z' || 'A' <= name[i] <= 'Z'
                    || '0' <= name[i] <= '9' || name[i] == '-' || name[i] == '_')
        },
{
}

/// Case does not decide whether a name is accepted: a name is accepted
/// exactly when the same name with its ASCII letters in upper case is.
pub proof fn law_name_case_does_not_matter(name: Seq<char>)
    ensures
        valid_profile_name(name) <==> valid_profile_name(upper(name)),
{
    let u = upper(name);
    assert(u.len() == name.len());
    if valid_profile_name(name) {
        assert forall|i: int| 0 <= i < u.len() implies is_name_char(#[trigger] u[i]) by {
            assert(is_name_char(name[i]));
        }
    }
    if valid_profile_name(u) {
        assert forall|i: int| 0 <= i < name.len() implies is_name_char(#[trigger] name[i]) by {
            assert(is_name_char(u[i]));
        }
    }
}

} // verus!
