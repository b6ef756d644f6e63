//! The boolean and null literal families.
//!
//! The format's historical free-form boolean set is reproduced exactly:
//! each word is accepted all-lower, Capitalized and ALL-CAPS, but in no other
//! casing.  Classification is by stateless comparison against the literal
//! sets; no pattern machinery is rebuilt per call.

use vstd::prelude::*;
use crate::strutil::str_eq;

verus! {

broadcast use vstd::string::group_string_axioms;

/// The truthy literal family: `y`, `yes`, `true`, `on` in their three
/// accepted casings, and the empty scalar (the blank-after-colon
/// convention).
pub open spec fn is_true_lit(s: Seq<char>) -> bool {
    ||| s == "y"@
    ||| s == "Y"@
    ||| s == "yes"@
    ||| s == "Yes"@
    ||| s == "YES"@
    ||| s == "true"@
    ||| s == "True"@
    ||| s == "TRUE"@
    ||| s == "on"@
    ||| s == "On"@
    ||| s == "ON"@
    ||| s.len() == 0
}

/// The falsy literal family: `n`, `no`, `false`, `off` in their three
/// accepted casings.
pub open spec fn is_false_lit(s: Seq<char>) -> bool {
    ||| s == "n"@
    ||| s == "N"@
    ||| s == "no"@
    ||| s == "No"@
    ||| s == "NO"@
    ||| s == "false"@
    ||| s == "False"@
    ||| s == "FALSE"@
    ||| s == "off"@
    ||| s == "Off"@
    ||| s == "OFF"@
}

/// The null literal family: `null`, `Null`, `NULL`, `~`, and the empty
/// scalar (the lexical layer resolves a blank after a mapping colon, and an
/// empty document root, to an empty scalar).
pub open spec fn is_null_lit(s: Seq<char>) -> bool {
    ||| s == "null"@
    ||| s == "Null"@
    ||| s == "NULL"@
    ||| s == "~"@
    ||| s.len() == 0
}

/// Whether `s` is in the truthy literal family.
pub fn is_true_literal(s: &str) -> (r: bool)
    ensures
        r == is_true_lit(s@),
{
    if s.is_empty() {
        proof {
            assert(s@ =~= Seq::<char>::empty());
        }
        return true;
    }
    str_eq(s, "y") || str_eq(s, "Y") || str_eq(s, "yes") || str_eq(s, "Yes") || str_eq(s, "YES")
        || str_eq(s, "true") || str_eq(s, "True") || str_eq(s, "TRUE") || str_eq(s, "on")
        || str_eq(s, "On") || str_eq(s, "ON")
}

/// Whether `s` is in the falsy literal family.
pub fn is_false_literal(s: &str) -> (r: bool)
    ensures
        r == is_false_lit(s@),
{
    str_eq(s, "n") || str_eq(s, "N") || str_eq(s, "no") || str_eq(s, "No") || str_eq(s, "NO")
        || str_eq(s, "false") || str_eq(s, "False") || str_eq(s, "FALSE") || str_eq(s, "off")
        || str_eq(s, "Off") || str_eq(s, "OFF")
}

/// Whether `s` is in the null literal family.
pub fn is_null_literal(s: &str) -> (r: bool)
    ensures
        r == is_null_lit(s@),
{
    if s.is_empty() {
        proof {
            assert(s@ =~= Seq::<char>::empty());
        }
        return true;
    }
    str_eq(s, "null") || str_eq(s, "Null") || str_eq(s, "NULL") || str_eq(s, "~")
}

/// The two boolean families never overlap: no scalar is both truthy and
/// falsy.
pub proof fn lemma_bool_families_disjoint(s: Seq<char>)
    ensures
        !(is_true_lit(s) && is_false_lit(s)),
{
    reveal_strlit("y");
    reveal_strlit("Y");
    reveal_strlit("yes");
    reveal_strlit("Yes");
    reveal_strlit("YES");
    reveal_strlit("true");
    reveal_strlit("True");
    reveal_strlit("TRUE");
    reveal_strlit("on");
    reveal_strlit("On");
    reveal_strlit("ON");
    reveal_strlit("n");
    reveal_strlit("N");
    reveal_strlit("no");
    reveal_strlit("No");
    reveal_strlit("NO");
    reveal_strlit("false");
    reveal_strlit("False");
    reveal_strlit("FALSE");
    reveal_strlit("off");
    reveal_strlit("Off");
    reveal_strlit("OFF");
    assert("y"@.len() == 1 && "y"@[0] == 'y');
    assert("Y"@.len() == 1 && "Y"@[0] == 'Y');
    assert("yes"@.len() == 3 && "yes"@[0] == 'y');
    assert("Yes"@.len() == 3 && "Yes"@[0] == 'Y');
    assert("YES"@.len() == 3 && "YES"@[0] == 'Y');
    assert("true"@.len() == 4 && "true"@[0] == 't');
    assert("True"@.len() == 4 && "True"@[0] == 'T');
    assert("TRUE"@.len() == 4 && "TRUE"@[0] == 'T');
    assert("on"@.len() == 2 && "on"@[0] == 'o');
    assert("On"@.len() == 2 && "On"@[0] == 'O');
    assert("ON"@.len() == 2 && "ON"@[0] == 'O');
    assert("n"@.len() == 1 && "n"@[0] == 'n');
    assert("N"@.len() == 1 && "N"@[0] == 'N');
    assert("no"@.len() == 2 && "no"@[0] == 'n');
    assert("No"@.len() == 2 && "No"@[0] == 'N');
    assert("NO"@.len() == 2 && "NO"@[0] == 'N');
    assert("false"@.len() == 5 && "false"@[0] == 'f');
    assert("False"@.len() == 5 && "False"@[0] == 'F');
    assert("FALSE"@.len() == 5 && "FALSE"@[0] == 'F');
    assert("off"@.len() == 3 && "off"@[0] == 'o');
    assert("Off"@.len() == 3 && "Off"@[0] == 'O');
    assert("OFF"@.len() == 3 && "OFF"@[0] == 'O');
}

/// The rendering of a boolean is read back as that boolean: `true` and
/// `false` are classified by exactly their own family.
pub proof fn lemma_bool_text_round_trip(b: bool)
    ensures
        is_true_lit(
            if b {
                "true"@
            } else {
                "false"@
            },
        ) == b,
        is_false_lit(
            if b {
                "true"@
            } else {
                "false"@
            },
        ) == !b,
{
    lemma_bool_families_disjoint(
        if b {
            "true"@
        } else {
            "false"@
        },
    );
    reveal_strlit("true");
    reveal_strlit("false");
}

/// The rendering of absence is read back as absence: `null` is in the null
/// literal family, and in neither boolean family.
pub proof fn lemma_null_text_round_trip()
    ensures
        is_null_lit("null"@),
        !is_true_lit("null"@),
        !is_false_lit("null"@),
{
    reveal_strlit("null");
    reveal_strlit("y");
    reveal_strlit("Y");
    reveal_strlit("yes");
    reveal_strlit("Yes");
    reveal_strlit("YES");
    reveal_strlit("true");
    reveal_strlit("True");
    reveal_strlit("TRUE");
    reveal_strlit("on");
    reveal_strlit("On");
    reveal_strlit("ON");
    reveal_strlit("n");
    reveal_strlit("N");
    reveal_strlit("no");
    reveal_strlit("No");
    reveal_strlit("NO");
    reveal_strlit("false");
    reveal_strlit("False");
    reveal_strlit("FALSE");
    reveal_strlit("off");
    reveal_strlit("Off");
    reveal_strlit("OFF");
    assert("null"@.len() == 4 && "null"@[0] == 'n' && "null"@[1] == 'u');
    assert("no"@[1] == 'o');
    assert("false"@.len() == 5);
    assert("False"@[0] == 'F');
    assert("FALSE"@[0] == 'F');
    assert("n"@.len() == 1);
    assert("N"@.len() == 1);
    assert("No"@.len() == 2);
    assert("NO"@.len() == 2);
    assert("off"@[0] == 'o');
    assert("Off"@[0] == 'O');
    assert("OFF"@[0] == 'O');
    assert("y"@.len() == 1);
    assert("Y"@.len() == 1);
    assert("yes"@[0] == 'y');
    assert("Yes"@[0] == 'Y');
    assert("YES"@[0] == 'Y');
    assert("true"@[0] == 't');
    assert("True"@[0] == 'T');
    assert("TRUE"@[0] == 'T');
    assert("on"@.len() == 2);
    assert("On"@[0] == 'O');
    assert("ON"@[0] == 'O');
}

} // verus!
