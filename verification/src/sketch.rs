//! Small standalone exercises: string picking and joining, and a plain
//! point.

use vstd::prelude::*;
use vstd::string::{StringExecFns, StrSliceExecFns};

verus! {

/// A plain point on the integer plane.
#[derive(Debug, Clone, Copy, PartialEq, Eq, Structural)]
pub struct Point {
    pub x: i32,
    pub y: i32,
}

/// The longer of two strings; ties go to the second.
pub fn get_largest_string<'a>(s1: &'a str, s2: &'a str) -> (r: &'a str)
    ensures
        r@ == if s1@.len() > s2@.len() {
            s1@
        } else {
            s2@
        },
{
    if s1.unicode_len() > s2.unicode_len() {
        s1
    } else {
        s2
    }
}

/// First and last name joined with a single space.
pub fn full_name(first_name: &str, last_name: &str) -> (r: String)
    ensures
        r@ == first_name@ + " "@ + last_name@,
{
    let mut s = first_name.to_owned();
    s.append(" ");
    s.append(last_name);
    proof {
        assert(s@ =~= first_name@ + " "@ + last_name@);
    }
    s
}

/// Exercises `get_largest_string` on two pairs whose outcome is proved
/// rather than checked at run time.
pub fn test_examples() {
    let val = get_largest_string("selam", "selami");
    proof {
        reveal_strlit("selam");
        reveal_strlit("selami");
        assert(val@ == "selami"@);
    }
    let s2 = " lkajsdlfkj jlaksdjflkajdflks";
    let val2 = get_largest_string("selami", s2);
    proof {
        reveal_strlit(" lkajsdlfkj jlaksdjflkajdflks");
        assert(val2@ == s2@);
    }
}

} // verus!
