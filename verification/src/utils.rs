use vstd::prelude::*;
use vstd::string::StringExecFns;

verus! {

use crate::state::{pending_span, ContractState};

/// The decimal digit characters.
pub open spec fn digit_char(d: nat) -> char {
    if d == 0 {
        '0'
    } else if d == 1 {
        '1'
    } else if d == 2 {
        '2'
    } else if d == 3 {
        '3'
    } else if d == 4 {
        '4'
    } else if d == 5 {
        '5'
    } else if d == 6 {
        '6'
    } else if d == 7 {
        '7'
    } else if d == 8 {
        '8'
    } else {
        '9'
    }
}

/// The decimal digits of `n`, most significant first.
pub open spec fn dec_digits(n: nat) -> Seq<char>
    decreases n,
{
    if n < 10 {
        seq![digit_char(n)]
    } else {
        dec_digits(n / 10).push(digit_char(n % 10))
    }
}

/// The decimal rendering of a signed balance.
pub open spec fn signed_digits(v: i64) -> Seq<char> {
    if v >= 0 {
        dec_digits(v as nat)
    } else {
        seq!['-'] + dec_digits((-(v as int)) as nat)
    }
}

/// A branch address rendered as a bit string, least significant bit first,
/// with no leading (that is, trailing) zeros beyond the first digit.
pub open spec fn bits_lsb(n: nat) -> Seq<char>
    decreases n,
{
    if n < 2 {
        seq![digit_char(n)]
    } else {
        seq![digit_char(n % 2)] + bits_lsb(n / 2)
    }
}

/// A list of branch addresses rendered as comma-separated bit strings.
pub open spec fn keys_chars(ks: Seq<u32>) -> Seq<char>
    decreases ks.len(),
{
    if ks.len() == 0 {
        Seq::empty()
    } else if ks.len() == 1 {
        bits_lsb(ks[0] as nat)
    } else {
        keys_chars(ks.drop_last()) + seq![','] + bits_lsb(ks.last() as nat)
    }
}

/// How one branch value is rendered: its balance in decimal, or the word
/// marking an infeasible branch.
pub open spec fn future_value_chars(v: Option<i64>) -> Seq<char> {
    match v {
        Option::None => seq!['N', 'o', 'n', 'e'],
        Option::Some(x) => signed_digits(x),
    }
}

fn append_digit(s: &mut String, d: u64)
    requires
        d < 10,
    ensures
        final(s)@ == old(s)@ + seq![digit_char(d as nat)],
{
    proof {
        reveal_strlit("0");
        reveal_strlit("1");
        reveal_strlit("2");
        reveal_strlit("3");
        reveal_strlit("4");
        reveal_strlit("5");
        reveal_strlit("6");
        reveal_strlit("7");
        reveal_strlit("8");
        reveal_strlit("9");
    }
    if d == 0 {
        s.append("0");
        proof {
            assert("0"@ =~= seq![digit_char(d as nat)]);
        }
    } else if d == 1 {
        s.append("1");
        proof {
            assert("1"@ =~= seq![digit_char(d as nat)]);
        }
    } else if d == 2 {
        s.append("2");
        proof {
            assert("2"@ =~= seq![digit_char(d as nat)]);
        }
    } else if d == 3 {
        s.append("3");
        proof {
            assert("3"@ =~= seq![digit_char(d as nat)]);
        }
    } else if d == 4 {
        s.append("4");
        proof {
            assert("4"@ =~= seq![digit_char(d as nat)]);
        }
    } else if d == 5 {
        s.append("5");
        proof {
            assert("5"@ =~= seq![digit_char(d as nat)]);
        }
    } else if d == 6 {
        s.append("6");
        proof {
            assert("6"@ =~= seq![digit_char(d as nat)]);
        }
    } else if d == 7 {
        s.append("7");
        proof {
            assert("7"@ =~= seq![digit_char(d as nat)]);
        }
    } else if d == 8 {
        s.append("8");
        proof {
            assert("8"@ =~= seq![digit_char(d as nat)]);
        }
    } else {
        s.append("9");
        proof {
            assert("9"@ =~= seq![digit_char(d as nat)]);
        }
    }
}

/// The digit characters of `d`, read back to front.
spec fn rev_chars(d: Seq<u64>) -> Seq<char> {
    Seq::new(d.len(), |i: int| digit_char(d[d.len() - 1 - i] as nat))
}

fn append_dec(s: &mut String, n: u64)
    ensures
        final(s)@ == old(s)@ + dec_digits(n as nat),
{
    if n == 0 {
        append_digit(s, 0);
        return ;
    }
    // collect the digits, least significant first
    let mut digits: Vec<u64> = Vec::new();
    let mut m = n;
    while m > 0
        invariant
            m <= n,
            dec_digits(n as nat) == (if m > 0 {
                dec_digits(m as nat)
            } else {
                Seq::<char>::empty()
            }) + rev_chars(digits@),
            forall|i: int| 0 <= i < digits@.len() ==> #[trigger] digits@[i] < 10,
        decreases m,
    {
        let d = m % 10;
        let ghost pre = digits@;
        digits.push(d);
        proof {
            assert(rev_chars(digits@) =~= seq![digit_char(d as nat)] + rev_chars(pre));
            if m >= 10 {
                assert(dec_digits(m as nat) == dec_digits((m as nat) / 10).push(
                    digit_char((m as nat) % 10),
                ));
                assert(dec_digits((m as nat) / 10).push(digit_char((m as nat) % 10)) =~= dec_digits(
                    (m as nat) / 10,
                ) + seq![digit_char(d as nat)]);
                assert(dec_digits((m as nat) / 10) + seq![digit_char(d as nat)] + rev_chars(pre)
                    =~= dec_digits((m as nat) / 10) + (seq![digit_char(d as nat)] + rev_chars(
                    pre,
                )));
            } else {
                assert(dec_digits(m as nat) =~= seq![digit_char(d as nat)]);
                assert(seq![digit_char(d as nat)] + rev_chars(pre) =~= Seq::<char>::empty() + (
                seq![digit_char(d as nat)] + rev_chars(pre)));
            }
        }
        m = m / 10;
    }
    // append them most significant first
    let mut k = digits.len();
    while k > 0
        invariant
            k <= digits@.len(),
            forall|i: int| 0 <= i < digits@.len() ==> #[trigger] digits@[i] < 10,
            dec_digits(n as nat) == rev_chars(digits@),
            s@ == old(s)@ + rev_chars(digits@).take(digits@.len() - k),
        decreases k,
    {
        k -= 1;
        let d = digits[k];
        append_digit(s, d);
        proof {
            let r = rev_chars(digits@);
            let j = digits@.len() - k - 1;
            assert(r[j] == digit_char(d as nat));
            assert(r.take(j + 1) =~= r.take(j).push(r[j]));
            assert(old(s)@ + r.take(j) + seq![r[j]] =~= old(s)@ + r.take(j + 1));
        }
    }
    proof {
        assert(rev_chars(digits@).take(digits@.len() as int) =~= rev_chars(digits@));
    }
}

fn append_bits_lsb(s: &mut String, n: u32)
    ensures
        final(s)@ == old(s)@ + bits_lsb(n as nat),
{
    let mut m = n;
    while m >= 2
        invariant
            old(s)@ + bits_lsb(n as nat) == s@ + bits_lsb(m as nat),
        decreases m,
    {
        let d = (m % 2) as u64;
        append_digit(s, d);
        proof {
            assert(bits_lsb(m as nat) == seq![digit_char((m as nat) % 2)] + bits_lsb(
                (m as nat) / 2,
            ));
            assert(s@ + bits_lsb((m as nat) / 2) =~= old(s)@ + bits_lsb(n as nat));
        }
        m = m / 2;
    }
    let d = m as u64;
    append_digit(s, d);
    proof {
        assert(bits_lsb(m as nat) =~= seq![digit_char(m as nat)]);
        assert(s@ =~= old(s)@ + bits_lsb(n as nat));
    }
}

/// A branch address rendered as a bit string, lowest bit (the oldest
/// tracked transaction's assumption) first.
pub fn future_index_to_string(index: u16) -> (r: String)
    ensures
        r@ == bits_lsb(index as nat),
{
    let mut s = String::new();
    append_bits_lsb(&mut s, index as u32);
    proof {
        assert(s@ =~= bits_lsb(index as nat));
    }
    s
}

/// Branch addresses rendered as comma-separated bit strings.
pub fn keys_format(ks: &Vec<u32>) -> (r: String)
    ensures
        r@ == keys_chars(ks@),
{
    let mut s = String::new();
    let mut k: usize = 0;
    while k < ks.len()
        invariant
            k <= ks@.len(),
            s@ == keys_chars(ks@.take(k as int)),
        decreases ks@.len() - k,
    {
        if k > 0 {
            proof {
                reveal_strlit(",");
            }
            s.append(",");
            proof {
                assert(","@ =~= seq![',']);
            }
        }
        let id = ks[k];
        append_bits_lsb(&mut s, id);
        proof {
            let t = ks@.take(k + 1);
            assert(t.drop_last() =~= ks@.take(k as int));
            assert(t.last() == ks@[k as int]);
            if k == 0 {
                assert(s@ =~= keys_chars(t));
            } else {
                assert(keys_chars(t) == keys_chars(ks@.take(k as int)) + seq![','] + bits_lsb(
                    ks@[k as int] as nat,
                ));
                assert(s@ =~= keys_chars(t));
            }
        }
        k += 1;
    }
    proof {
        assert(ks@.take(ks@.len() as int) =~= ks@);
    }
    s
}

/// One branch value rendered for a query response.
pub fn render_future_value(v: &Option<i64>) -> (r: String)
    ensures
        r@ == future_value_chars(*v),
{
    match v {
        Option::None => {
            let r = "None".to_owned();
            proof {
                reveal_strlit("None");
                assert(r@ =~= seq!['N', 'o', 'n', 'e']);
            }
            r
        },
        Option::Some(x) => {
            let mut s = String::new();
            if *x >= 0 {
                append_dec(&mut s, *x as u64);
                proof {
                    assert(s@ =~= dec_digits(*x as nat));
                }
            } else {
                proof {
                    reveal_strlit("-");
                }
                s.append("-");
                let mag: u64 = ((-(*x + 1)) as u64) + 1;
                proof {
                    assert(mag as int == -(*x as int));
                    assert("-"@ =~= seq!['-']);
                }
                append_dec(&mut s, mag);
                proof {
                    assert(s@ =~= seq!['-'] + dec_digits((-(*x as int)) as nat));
                }
            }
            s
        },
    }
}

/// The width of the pending window: how many transaction ids lie between the
/// oldest still-pending one and the next to assign.
pub fn calculate_pending_list_len(state: &ContractState) -> (r: u32)
    requires
        state.wf(),
    ensures
        r as int == pending_span(*state),
{
    if state.pending_tx_list.len() == 0 {
        0
    } else {
        state.expected_tx_id - state.pending_tx_list[0]
    }
}

} // verus!
