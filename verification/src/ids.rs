use vstd::prelude::*;
use vstd::string::StringExecFns;

verus! {

/// The decimal digit character for a value below ten.
pub open spec fn dec_digit(d: int) -> char {
    if d == 0 {
        '0'
    } else if d == 1 {
        '1'
    } else if d == 2 {
        '2'
    } else if d == 3 {
        '3'
    } else if d == 4 {
        '4'
    } else if d == 5 {
        '5'
    } else if d == 6 {
        '6'
    } else if d == 7 {
        '7'
    } else if d == 8 {
        '8'
    } else {
        '9'
    }
}

/// The decimal representation of a natural number, most significant digit
/// first, without leading zeroes (zero itself is written `"0"`).
pub open spec fn dec_rep(n: nat) -> Seq<char>
    decreases n,
{
    if n < 10 {
        seq![dec_digit(n as int)]
    } else {
        dec_rep(n / 10).push(dec_digit((n % 10) as int))
    }
}

fn dec_digit_str(d: u64) -> (r: &'static str)
    requires
        d < 10,
    ensures
        r@ == seq![dec_digit(d as int)],
{
    let r: &'static str = if d == 0 {
        "0"
    } else if d == 1 {
        "1"
    } else if d == 2 {
        "2"
    } else if d == 3 {
        "3"
    } else if d == 4 {
        "4"
    } else if d == 5 {
        "5"
    } else if d == 6 {
        "6"
    } else if d == 7 {
        "7"
    } else if d == 8 {
        "8"
    } else {
        "9"
    };
    proof {
        reveal_strlit("0");
        reveal_strlit("1");
        reveal_strlit("2");
        reveal_strlit("3");
        reveal_strlit("4");
        reveal_strlit("5");
        reveal_strlit("6");
        reveal_strlit("7");
        reveal_strlit("8");
        reveal_strlit("9");
        assert(r@ =~= seq![dec_digit(d as int)]);
    }
    r
}

/// Writes a counter value in decimal.
pub fn u64_to_dec(n: u64) -> (r: String)
    ensures
        r@ == dec_rep(n as nat),
    decreases n,
{
    if n < 10 {
        dec_digit_str(n).to_owned()
    } else {
        let mut s = u64_to_dec(n / 10);
        s.append(dec_digit_str(n % 10));
        proof {
            assert(s@ =~= dec_rep(n as nat));
        }
        s
    }
}

/// No decimal representation contains the underscore that separates the
/// counter from the type tag in a node identifier.
pub proof fn lemma_dec_rep_no_underscore(n: nat)
    ensures
        forall|i: int| 0 <= i < dec_rep(n).len() ==> dec_rep(n)[i] != '_',
    decreases n,
{
    if n < 10 {
        assert(dec_rep(n)[0] == dec_digit(n as int));
    } else {
        lemma_dec_rep_no_underscore(n / 10);
        assert forall|i: int| 0 <= i < dec_rep(n).len() implies dec_rep(n)[i] != '_' by {
            if i < dec_rep(n).len() - 1 {
                assert(dec_rep(n)[i] == dec_rep(n / 10)[i]);
            } else {
                assert(dec_rep(n)[i] == dec_digit((n % 10) as int));
            }
        }
    }
}

/// A decimal representation has at least one character, and exactly one
/// character for values below ten.
pub proof fn lemma_dec_rep_len(n: nat)
    ensures
        dec_rep(n).len() >= 1,
        n < 10 <==> dec_rep(n).len() == 1,
    decreases n,
{
    if n >= 10 {
        lemma_dec_rep_len(n / 10);
    }
}

/// Distinct natural numbers have distinct decimal representations.
pub proof fn lemma_dec_rep_injective(a: nat, b: nat)
    requires
        a != b,
    ensures
        dec_rep(a) != dec_rep(b),
    decreases a + b,
{
    lemma_dec_rep_len(a);
    lemma_dec_rep_len(b);
    if a < 10 && b < 10 {
        assert(dec_rep(a)[0] == dec_digit(a as int));
        assert(dec_rep(b)[0] == dec_digit(b as int));
    } else if a < 10 || b < 10 {
        assert(dec_rep(a).len() != dec_rep(b).len());
    } else if a % 10 != b % 10 {
        assert(dec_rep(a).last() == dec_digit((a % 10) as int));
        assert(dec_rep(b).last() == dec_digit((b % 10) as int));
    } else {
        assert(a / 10 != b / 10) by {
            if a / 10 == b / 10 {
                vstd::arithmetic::div_mod::lemma_fundamental_div_mod(a as int, 10);
                vstd::arithmetic::div_mod::lemma_fundamental_div_mod(b as int, 10);
                assert(false);
            }
        };
        lemma_dec_rep_injective(a / 10, b / 10);
        if dec_rep(a) == dec_rep(b) {
            assert(dec_rep(a).drop_last() =~= dec_rep(a / 10));
            assert(dec_rep(b).drop_last() =~= dec_rep(b / 10));
            assert(false);
        }
    }
}

/// Two identifiers of the shape `"<digits>_<tag>"` differ whenever their
/// digit parts differ, whatever the tags are: the first underscore marks
/// where the digits end.
pub proof fn lemma_prefixed_ids_differ(d1: Seq<char>, t1: Seq<char>, d2: Seq<char>, t2: Seq<char>)
    requires
        d1 != d2,
        forall|i: int| 0 <= i < d1.len() ==> d1[i] != '_',
        forall|i: int| 0 <= i < d2.len() ==> d2[i] != '_',
    ensures
        d1 + "_"@ + t1 != d2 + "_"@ + t2,
{
    reveal_strlit("_");
    let s1 = d1 + "_"@ + t1;
    let s2 = d2 + "_"@ + t2;
    if s1 == s2 {
        if d1.len() == d2.len() {
            assert forall|i: int| 0 <= i < d1.len() implies d1[i] == d2[i] by {
                assert(s1[i] == d1[i]);
                assert(s2[i] == d2[i]);
            }
            assert(d1 =~= d2);
        } else if d1.len() < d2.len() {
            assert(s1[d1.len() as int] == '_');
            assert(s2[d1.len() as int] == d2[d1.len() as int]);
        } else {
            assert(s2[d2.len() as int] == '_');
            assert(s1[d2.len() as int] == d1[d2.len() as int]);
        }
    }
}

} // verus!
