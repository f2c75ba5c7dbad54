//! Line-oriented text primitives the protocol layers share: splitting a line
//! into whitespace-separated tokens, joining tokens back, and exact decimal
//! parsing and rendering.

use vstd::prelude::*;
use vstd::string::*;

verus! {

/// One step of tokenization, processing the first `n` characters: the
/// finished tokens so far and the token still being read.
pub open spec fn tok_fold(s: Seq<char>, n: int) -> (Seq<Seq<char>>, Seq<char>)
    decreases n,
{
    if n <= 0 {
        (Seq::empty(), Seq::empty())
    } else {
        let prev = tok_fold(s, n - 1);
        let c = s[n - 1];
        if c == ' ' {
            if prev.1.len() == 0 {
                prev
            } else {
                (prev.0.push(prev.1), Seq::empty())
            }
        } else {
            (prev.0, prev.1.push(c))
        }
    }
}

/// The whitespace-separated tokens of a line, in order, empties dropped.
pub open spec fn spec_tokens(s: Seq<char>) -> Seq<Seq<char>> {
    let last = tok_fold(s, s.len() as int);
    if last.1.len() == 0 {
        last.0
    } else {
        last.0.push(last.1)
    }
}

/// Split a line into its whitespace-separated tokens.
pub fn tokenize(s: &str) -> (toks: Vec<String>)
    ensures
        toks.deep_view() == spec_tokens(s@),
{
    let n = s.unicode_len();
    let mut toks: Vec<String> = Vec::new();
    let mut cur: String = String::new();
    let mut i: usize = 0;
    while i < n
        invariant
            n == s@.len(),
            i <= n,
            (toks.deep_view(), cur@) == tok_fold(s@, i as int),
        decreases n - i,
    {
        let ghost pre = (toks.deep_view(), cur@);
        let c = s.get_char(i);
        if c == ' ' {
            if !cur.as_str().is_empty() {
                toks.push(cur);
                cur = String::new();
                proof {
                    assert(toks.deep_view() =~= pre.0.push(pre.1));
                }
            }
        } else {
            let mut next = cur;
            let one = s.substring_char(i, i + 1);
            proof {
                assert(one@ =~= s@.subrange(i as int, i + 1));
            }
            next.append(one);
            cur = next;
            proof {
                assert(cur@ =~= pre.1.push(s@[i as int]));
            }
        }
        i = i + 1;
    }
    if !cur.as_str().is_empty() {
        toks.push(cur);
        proof {
            assert(toks.deep_view() =~= tok_fold(s@, s@.len() as int).0.push(
                tok_fold(s@, s@.len() as int).1,
            ));
        }
    }
    toks
}

/// Tokens joined with single spaces, in order.
pub open spec fn spec_join(ts: Seq<Seq<char>>) -> Seq<char>
    decreases ts.len(),
{
    if ts.len() == 0 {
        Seq::empty()
    } else if ts.len() == 1 {
        ts[0]
    } else {
        spec_join(ts.drop_last()) + seq![' '] + ts.last()
    }
}

/// Join `ts[from..]` with single spaces.
pub fn join_from(ts: &Vec<String>, from: usize) -> (r: String)
    requires
        from <= ts@.len(),
    ensures
        r@ == spec_join(ts.deep_view().skip(from as int)),
{
    let mut r = String::new();
    let mut i: usize = from;
    while i < ts.len()
        invariant
            from <= i <= ts@.len(),
            ts.deep_view().len() == ts@.len(),
            r@ == spec_join(ts.deep_view().skip(from as int).take(i - from)),
        decreases ts@.len() - i,
    {
        let ghost sub = ts.deep_view().skip(from as int);
        let mut next = r;
        if i > from {
            next.append(" ");
            proof {
                reveal_strlit(" ");
            }
        }
        next.append(ts[i].as_str());
        r = next;
        proof {
            let k = i - from;
            assert(sub.take(k + 1).drop_last() =~= sub.take(k));
            assert(sub.take(k + 1).last() == ts.deep_view()[i as int]);
            if k == 0 {
                assert(r@ =~= sub.take(1)[0]);
            } else {
                assert(r@ =~= spec_join(sub.take(k)) + seq![' '] + sub[k as int]);
            }
        }
        i = i + 1;
    }
    proof {
        assert(ts.deep_view().skip(from as int).take(ts@.len() - from) =~= ts.deep_view().skip(
            from as int,
        ));
    }
    r
}

/// Tokens joined with single commas, in order.
pub open spec fn spec_join_commas(ts: Seq<Seq<char>>) -> Seq<char>
    decreases ts.len(),
{
    if ts.len() == 0 {
        Seq::empty()
    } else if ts.len() == 1 {
        ts[0]
    } else {
        spec_join_commas(ts.drop_last()) + seq![','] + ts.last()
    }
}

/// Join all of `ts` with single commas.
pub fn join_commas(ts: &Vec<String>) -> (r: String)
    ensures
        r@ == spec_join_commas(ts.deep_view()),
{
    let mut r = String::new();
    let mut i: usize = 0;
    while i < ts.len()
        invariant
            i <= ts@.len(),
            ts.deep_view().len() == ts@.len(),
            r@ == spec_join_commas(ts.deep_view().take(i as int)),
        decreases ts@.len() - i,
    {
        let ghost whole = ts.deep_view();
        let mut next = r;
        if i > 0 {
            next.append(",");
            proof {
                reveal_strlit(",");
            }
        }
        next.append(ts[i].as_str());
        r = next;
        proof {
            let k = i as int;
            assert(whole.take(k + 1).drop_last() =~= whole.take(k));
            assert(whole.take(k + 1).last() == whole[k]);
            if k == 0 {
                assert(r@ =~= whole.take(1)[0]);
            } else {
                assert(r@ =~= spec_join_commas(whole.take(k)) + seq![','] + whole[k]);
            }
        }
        i = i + 1;
    }
    proof {
        assert(ts.deep_view().take(ts@.len() as int) =~= ts.deep_view());
    }
    r
}

/// A decimal digit.
pub open spec fn is_digit(c: char) -> bool {
    48 <= c as u32 <= 57
}

pub open spec fn digit_val(c: char) -> nat {
    (c as u32 - 48) as nat
}

pub open spec fn all_digits(s: Seq<char>) -> bool {
    forall|i: int| 0 <= i < s.len() ==> is_digit(#[trigger] s[i])
}

/// The number a digit string denotes.
pub open spec fn dec_val(s: Seq<char>) -> nat
    decreases s.len(),
{
    if s.len() == 0 {
        0
    } else {
        dec_val(s.drop_last()) * 10 + digit_val(s.last())
    }
}

/// A longer digit string never denotes a smaller number.
proof fn lemma_dec_val_prefix_le(s: Seq<char>, i: int)
    requires
        0 <= i <= s.len(),
    ensures
        dec_val(s.take(i)) <= dec_val(s),
    decreases s.len() - i,
{
    if i < s.len() {
        assert(s.take(i + 1).drop_last() =~= s.take(i));
        assert(dec_val(s.take(i)) <= dec_val(s.take(i + 1)));
        lemma_dec_val_prefix_le(s, i + 1);
    } else {
        assert(s.take(i) =~= s);
    }
}

/// Parse a whole token as an unsigned decimal number: succeeds exactly on
/// nonempty all-digit tokens whose value fits in a `u64`.
pub fn parse_u64(s: &str) -> (r: Option<u64>)
    ensures
        r is Some <==> (s@.len() > 0 && all_digits(s@) && dec_val(s@) <= u64::MAX),
        r is Some ==> r.unwrap() == dec_val(s@),
{
    let n = s.unicode_len();
    if n == 0 {
        return None;
    }
    let mut acc: u64 = 0;
    let mut i: usize = 0;
    while i < n
        invariant
            n == s@.len(),
            0 < n,
            i <= n,
            all_digits(s@.take(i as int)),
            acc == dec_val(s@.take(i as int)),
        decreases n - i,
    {
        let c = s.get_char(i);
        let d: u32 = c as u32;
        if d < 48 || d > 57 {
            return None;
        }
        proof {
            assert(s@.take(i + 1).drop_last() =~= s@.take(i as int));
        }
        let step = match acc.checked_mul(10) {
            Some(m) => m.checked_add((d - 48) as u64),
            None => None,
        };
        match step {
            Some(v) => {
                acc = v;
            },
            None => {
                proof {
                    lemma_dec_val_prefix_le(s@, i + 1);
                }
                return None;
            },
        }
        i = i + 1;
    }
    proof {
        assert(s@.take(n as int) =~= s@);
    }
    Some(acc)
}

/// The literal for one decimal digit.
fn digit_str(d: u64) -> (r: &'static str)
    requires
        d < 10,
    ensures
        r@.len() == 1,
        is_digit(r@[0]),
        digit_val(r@[0]) == d,
{
    proof {
        reveal_strlit("0");
        reveal_strlit("1");
        reveal_strlit("2");
        reveal_strlit("3");
        reveal_strlit("4");
        reveal_strlit("5");
        reveal_strlit("6");
        reveal_strlit("7");
        reveal_strlit("8");
        reveal_strlit("9");
    }
    match d {
        0 => "0",
        1 => "1",
        2 => "2",
        3 => "3",
        4 => "4",
        5 => "5",
        6 => "6",
        7 => "7",
        8 => "8",
        _ => "9",
    }
}

/// Render a number in decimal: an all-digit string denoting exactly `n`,
/// without leading zeroes.
pub fn u64_to_dec(n: u64) -> (r: String)
    ensures
        r@.len() >= 1,
        all_digits(r@),
        dec_val(r@) == n,
        n >= 10 ==> r@.len() >= 2,
        n < 10 ==> r@.len() == 1,
        n > 0 ==> digit_val(r@[0]) != 0,
    decreases n,
{
    if n < 10 {
        let r = String::from_str(digit_str(n));
        proof {
            assert(r@.drop_last() =~= Seq::<char>::empty());
            assert(r@.last() == r@[0]);
            assert(dec_val(r@) == dec_val(r@.drop_last()) * 10 + digit_val(r@.last()));
        }
        r
    } else {
        let mut r = u64_to_dec(n / 10);
        let last = digit_str(n % 10);
        let ghost pre = r@;
        r.append(last);
        proof {
            assert(r@.drop_last() =~= pre);
            assert(r@.last() == last@[0]);
            assert(dec_val(r@) == dec_val(pre) * 10 + digit_val(last@[0]));
            assert(r@[0] == pre[0]);
        }
        r
    }
}

} // verus!
