//! Formatting of single turns and joining of flushed buffers.
//!
//! A turn is the string `"{sequence_number}>>{input}>>{output}>>"`; a flushed
//! buffer is delivered as its turns joined with the literal separator `$`.

use vstd::prelude::*;

verus! {

/// The canonical separator placed between turns in a delivered payload.
pub open spec fn sep() -> Seq<char> {
    seq!['$']
}

/// The turns of one buffer joined with the `$` separator.
pub open spec fn join_spec(ts: Seq<Seq<char>>) -> Seq<char>
    decreases ts.len(),
{
    if ts.len() == 0 {
        Seq::empty()
    } else if ts.len() == 1 {
        ts[0]
    } else {
        ts[0] + sep() + join_spec(ts.drop_first())
    }
}

/// Appending one turn to a non-empty buffer appends one separator and the turn
/// to the joined payload.
pub proof fn lemma_join_push(ts: Seq<Seq<char>>, t: Seq<char>)
    ensures
        join_spec(ts.push(t)) == if ts.len() == 0 {
            t
        } else {
            join_spec(ts) + sep() + t
        },
    decreases ts.len(),
{
    if ts.len() == 0 {
        assert(ts.push(t) =~= seq![t]);
        assert(join_spec(seq![t]) == t);
    } else {
        assert(ts.push(t).drop_first() =~= ts.drop_first().push(t));
        lemma_join_push(ts.drop_first(), t);
        if ts.len() == 1 {
            assert(join_spec(ts.push(t)) == ts[0] + sep() + join_spec(ts.drop_first().push(t)));
            assert(join_spec(ts.drop_first().push(t)) == t);
        } else {
            assert(join_spec(ts) + sep() + t =~= ts[0] + sep() + (join_spec(ts.drop_first())
                + sep() + t));
        }
    }
}

/// Joins the turns of one flushed buffer with the `$` separator.
pub fn join_turns(turns: &Vec<String>) -> (r: String)
    ensures
        r@ == join_spec(turns.deep_view()),
{
    let ghost ts = turns.deep_view();
    let mut r = String::new();
    let mut i: usize = 0;
    while i < turns.len()
        invariant
            i <= turns.len(),
            ts == turns.deep_view(),
            ts.len() == turns.len(),
            r@ == join_spec(ts.take(i as int)),
        decreases turns.len() - i,
    {
        proof {
            reveal_strlit("$");
            assert(ts[i as int] == turns[i as int]@);
            lemma_join_push(ts.take(i as int), ts[i as int]);
            assert(ts.take(i + 1) =~= ts.take(i as int).push(ts[i as int]));
        }
        if i > 0 {
            r.append("$");
        }
        r.append(turns[i].as_str());
        i += 1;
    }
    proof {
        assert(ts.take(turns.len() as int) =~= ts);
    }
    r
}

/// The character for one decimal digit.
pub open spec fn digit_char(d: nat) -> char {
    if d == 0 {
        '0'
    } else if d == 1 {
        '1'
    } else if d == 2 {
        '2'
    } else if d == 3 {
        '3'
    } else if d == 4 {
        '4'
    } else if d == 5 {
        '5'
    } else if d == 6 {
        '6'
    } else if d == 7 {
        '7'
    } else if d == 8 {
        '8'
    } else {
        '9'
    }
}

/// The decimal digits of a natural number, most significant first.
pub open spec fn dec_rep(n: nat) -> Seq<char>
    decreases n,
{
    if n < 10 {
        seq![digit_char(n)]
    } else {
        dec_rep(n / 10).push(digit_char(n % 10))
    }
}

/// The decimal rendering of an integer, `-`-prefixed when negative.
pub open spec fn int_rep(v: int) -> Seq<char> {
    if v < 0 {
        seq!['-'] + dec_rep((-v) as nat)
    } else {
        dec_rep(v as nat)
    }
}

/// One formatted turn: the sequence number and the two utterances, each
/// terminated by `>>`.
pub open spec fn format_turn_spec(sequence_number: int, input: Seq<char>, output: Seq<char>) -> Seq<
    char,
> {
    int_rep(sequence_number) + seq!['>', '>'] + input + seq!['>', '>'] + output + seq!['>', '>']
}

/// The one-character string for a decimal digit.
fn digit_str(d: u64) -> (r: &'static str)
    requires
        d < 10,
    ensures
        r@ == seq![digit_char(d as nat)],
{
    proof {
        reveal_strlit("0");
        reveal_strlit("1");
        reveal_strlit("2");
        reveal_strlit("3");
        reveal_strlit("4");
        reveal_strlit("5");
        reveal_strlit("6");
        reveal_strlit("7");
        reveal_strlit("8");
        reveal_strlit("9");
    }
    if d == 0 {
        "0"
    } else if d == 1 {
        "1"
    } else if d == 2 {
        "2"
    } else if d == 3 {
        "3"
    } else if d == 4 {
        "4"
    } else if d == 5 {
        "5"
    } else if d == 6 {
        "6"
    } else if d == 7 {
        "7"
    } else if d == 8 {
        "8"
    } else {
        "9"
    }
}

/// Appends the decimal digits of `n` to `s`.
fn push_decimal(s: &mut String, n: u64)
    ensures
        final(s)@ == old(s)@ + dec_rep(n as nat),
    decreases n,
{
    if n < 10 {
        s.append(digit_str(n));
        proof {
            assert(s@ =~= old(s)@ + dec_rep(n as nat));
        }
    } else {
        push_decimal(s, n / 10);
        s.append(digit_str(n % 10));
        proof {
            assert((n as nat) / 10 == (n / 10) as nat);
            assert((n as nat) % 10 == (n % 10) as nat);
            assert(old(s)@ + dec_rep(n as nat) =~= old(s)@ + dec_rep((n / 10) as nat) + seq![
                digit_char((n % 10) as nat),
            ]);
        }
    }
}

/// Builds one formatted turn from the decoded fields of an inbound record:
/// `"{sequence_number}>>{input}>>{output}>>"`.
pub fn format_turn(sequence_number: i32, input: &str, output: &str) -> (r: String)
    ensures
        r@ == format_turn_spec(sequence_number as int, input@, output@),
{
    proof {
        reveal_strlit("-");
        reveal_strlit(">>");
    }
    let mut r = String::new();
    if sequence_number < 0 {
        r.append("-");
        let m: u64 = (-(sequence_number as i64)) as u64;
        proof {
            assert(m as nat == (-(sequence_number as int)) as nat);
        }
        push_decimal(&mut r, m);
    } else {
        push_decimal(&mut r, sequence_number as u64);
    }
    proof {
        assert(r@ == int_rep(sequence_number as int));
    }
    r.append(">>");
    r.append(input);
    r.append(">>");
    r.append(output);
    r.append(">>");
    proof {
        assert(r@ =~= format_turn_spec(sequence_number as int, input@, output@));
    }
    r
}

} // verus!
