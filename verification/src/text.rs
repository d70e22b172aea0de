//! Small verified text helpers: string equality, joining with spaces, and
//! decimal formatting of integers.

use vstd::prelude::*;
use vstd::string::*;

verus! {

/// The decimal digit character for a value below ten.
pub open spec fn spec_digit_char(d: nat) -> char {
    if d == 0 {
        '0'
    } else if d == 1 {
        '1'
    } else if d == 2 {
        '2'
    } else if d == 3 {
        '3'
    } else if d == 4 {
        '4'
    } else if d == 5 {
        '5'
    } else if d == 6 {
        '6'
    } else if d == 7 {
        '7'
    } else if d == 8 {
        '8'
    } else {
        '9'
    }
}

/// The decimal representation of a natural number, most significant digit
/// first, with no leading zeros (a lone `0` for zero).
pub open spec fn spec_dec_nat(n: nat) -> Seq<char>
    decreases n,
{
    if n < 10 {
        seq![spec_digit_char(n)]
    } else {
        spec_dec_nat(n / 10).push(spec_digit_char(n % 10))
    }
}

/// The decimal representation of an integer: a leading minus sign for
/// negative values, then the digits of the magnitude.
pub open spec fn spec_dec_int(n: int) -> Seq<char> {
    if n < 0 {
        seq!['-'] + spec_dec_nat((-n) as nat)
    } else {
        spec_dec_nat(n as nat)
    }
}

/// Appends the digit character for `d` to `s`.
fn push_digit(s: &mut String, d: u8)
    requires
        d < 10,
    ensures
        final(s)@ == old(s)@.push(spec_digit_char(d as nat)),
{
    match d {
        0 => {
            proof {
                reveal_strlit("0");
            }
            s.append("0");
        },
        1 => {
            proof {
                reveal_strlit("1");
            }
            s.append("1");
        },
        2 => {
            proof {
                reveal_strlit("2");
            }
            s.append("2");
        },
        3 => {
            proof {
                reveal_strlit("3");
            }
            s.append("3");
        },
        4 => {
            proof {
                reveal_strlit("4");
            }
            s.append("4");
        },
        5 => {
            proof {
                reveal_strlit("5");
            }
            s.append("5");
        },
        6 => {
            proof {
                reveal_strlit("6");
            }
            s.append("6");
        },
        7 => {
            proof {
                reveal_strlit("7");
            }
            s.append("7");
        },
        8 => {
            proof {
                reveal_strlit("8");
            }
            s.append("8");
        },
        _ => {
            proof {
                reveal_strlit("9");
            }
            s.append("9");
        },
    }
    assert(s@ =~= old(s)@.push(spec_digit_char(d as nat)));
}

/// Formats an unsigned number in decimal.
pub fn fmt_u64(n: u64) -> (r: String)
    ensures
        r@ == spec_dec_nat(n as nat),
    decreases n,
{
    if n < 10 {
        let mut s = String::new();
        push_digit(&mut s, n as u8);
        assert(s@ =~= seq![spec_digit_char(n as nat)]);
        s
    } else {
        let mut s = fmt_u64(n / 10);
        push_digit(&mut s, (n % 10) as u8);
        s
    }
}

/// Formats a signed 32-bit number in decimal.
pub fn fmt_i32(n: i32) -> (r: String)
    ensures
        r@ == spec_dec_int(n as int),
{
    let wide: i64 = n as i64;
    if wide >= 0 {
        fmt_u64(wide as u64)
    } else {
        let mut s = String::new();
        proof {
            reveal_strlit("-");
        }
        s.append("-");
        let magnitude = fmt_u64((-wide) as u64);
        let r = s.concat(magnitude.as_str());
        assert(r@ =~= seq!['-'] + spec_dec_nat((-(n as int)) as nat));
        r
    }
}

/// Whether two string slices hold the same characters.
pub fn str_eq(a: &str, b: &str) -> (r: bool)
    ensures
        r == (a@ == b@),
{
    let la = a.unicode_len();
    let lb = b.unicode_len();
    if la != lb {
        proof {
            if a@ == b@ {
                assert(a@.len() == b@.len());
            }
        }
        return false;
    }
    let mut i: usize = 0;
    while i < la
        invariant
            i <= la,
            la == a@.len(),
            la == b@.len(),
            forall|j: int| 0 <= j < i ==> a@[j] == b@[j],
        decreases la - i,
    {
        let ca = a.get_char(i);
        let cb = b.get_char(i);
        if ca != cb {
            proof {
                if a@ == b@ {
                    assert(a@[i as int] == b@[i as int]);
                }
            }
            return false;
        }
        i += 1;
    }
    assert(a@ =~= b@);
    true
}

/// The elements of `ts` concatenated with a single space between
/// consecutive elements.
pub open spec fn spec_join_spaces(ts: Seq<Seq<char>>) -> Seq<char>
    decreases ts.len(),
{
    if ts.len() == 0 {
        Seq::empty()
    } else if ts.len() == 1 {
        ts[0]
    } else {
        ts[0] + seq![' '] + spec_join_spaces(ts.drop_first())
    }
}

/// Appending one element extends the joined sequence by a space (when
/// anything was joined before) and the element.
pub proof fn lemma_join_spaces_push(ts: Seq<Seq<char>>, t: Seq<char>)
    ensures
        spec_join_spaces(ts.push(t)) == if ts.len() == 0 {
            t
        } else {
            spec_join_spaces(ts) + seq![' '] + t
        },
    decreases ts.len(),
{
    if ts.len() == 0 {
        assert(ts.push(t).len() == 1);
        assert(spec_join_spaces(ts.push(t)) == ts.push(t)[0]);
    } else {
        assert(ts.push(t).drop_first() =~= ts.drop_first().push(t));
        lemma_join_spaces_push(ts.drop_first(), t);
        if ts.len() == 1 {
            assert(spec_join_spaces(ts.push(t)) =~= ts[0] + seq![' '] + t);
            assert(spec_join_spaces(ts) + seq![' '] + t =~= ts[0] + seq![' '] + t);
        } else {
            assert(spec_join_spaces(ts.push(t)) == ts[0] + seq![' ']
                + spec_join_spaces(ts.drop_first().push(t)));
            assert(ts[0] + seq![' '] + (spec_join_spaces(ts.drop_first()) + seq![' '] + t) =~= (
            ts[0] + seq![' '] + spec_join_spaces(ts.drop_first())) + seq![' '] + t);
        }
    }
}

/// Joins the parts with single spaces, as a command line is shown.
pub fn join_spaces(parts: &Vec<String>) -> (r: String)
    ensures
        r@ == spec_join_spaces(parts.deep_view()),
{
    let ghost all: Seq<Seq<char>> = parts.deep_view();
    let mut out = String::new();
    let mut i: usize = 0;
    while i < parts.len()
        invariant
            i <= parts.len(),
            all == parts.deep_view(),
            all.len() == parts@.len(),
            forall|j: int| 0 <= j < all.len() ==> all[j] == parts@[j]@,
            out@ == spec_join_spaces(all.take(i as int)),
        decreases parts.len() - i,
    {
        if i > 0 {
            proof {
                reveal_strlit(" ");
            }
            out.append(" ");
            assert(out@ == spec_join_spaces(all.take(i as int)) + seq![' ']);
        }
        out.append(parts[i].as_str());
        proof {
            lemma_join_spaces_push(all.take(i as int), all[i as int]);
            assert(all.take(i as int).push(all[i as int]) =~= all.take(i as int + 1));
        }
        i += 1;
    }
    proof {
        assert(all.take(parts@.len() as int) =~= all);
    }
    out
}

} // verus!
