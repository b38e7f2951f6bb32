//! Reading the players' Steam ids out of the text of a `stalker` command.
use vstd::prelude::*;
use crate::decimal::{
    all_digits, decimal, decimal_digits, decimal_parses_back, digit_value, digits_value, is_digit,
    parse_unsigned,
};

verus! {

/// The pieces of `s` between the characters that are not ASCII digits, as
/// std's `str::split` cuts them: `k` such characters give `k + 1` pieces,
/// some of which may be empty.
pub open spec fn digit_pieces(s: Seq<char>) -> Seq<Seq<char>>
    decreases s.len(),
{
    if s.len() == 0 {
        seq![Seq::<char>::empty()]
    } else {
        let rest = digit_pieces(s.drop_last());
        if is_digit(s.last()) {
            rest.update(rest.len() - 1, rest.last().push(s.last()))
        } else {
            rest.push(Seq::<char>::empty())
        }
    }
}

/// The values of those `pieces` that parse as a `u32`, in order.
pub open spec fn parsed_ids(pieces: Seq<Seq<char>>) -> Seq<u32>
    decreases pieces.len(),
{
    if pieces.len() == 0 {
        Seq::<u32>::empty()
    } else {
        let rest = parsed_ids(pieces.drop_last());
        match parse_unsigned(pieces.last(), u32::MAX as nat) {
            Some(v) => rest.push(v as u32),
            None => rest,
        }
    }
}

/// The Steam ids that a command's text names: each maximal run of ASCII
/// digits whose value fits in a `u32`, in the order of the text.
pub open spec fn steam_ids_of(s: Seq<char>) -> Seq<u32> {
    parsed_ids(digit_pieces(s))
}

proof fn lemma_pieces_nonempty(s: Seq<char>)
    ensures
        digit_pieces(s).len() >= 1,
        all_digits(digit_pieces(s).last()),
    decreases s.len(),
{
    if s.len() > 0 {
        lemma_pieces_nonempty(s.drop_last());
        let rest = digit_pieces(s.drop_last());
        if is_digit(s.last()) {
            let p = rest.last().push(s.last());
            assert(all_digits(p)) by {
                assert forall|i: int| 0 <= i < p.len() implies is_digit(#[trigger] p[i]) by {
                    if i < rest.last().len() {
                        assert(p[i] == rest.last()[i]);
                    }
                }
            }
        }
    }
}

proof fn lemma_value_grows(p: Seq<char>, c: char)
    requires
        is_digit(c),
    ensures
        digits_value(p.push(c)) == digits_value(p) * 10 + digit_value(c),
        digits_value(p.push(c)) >= digits_value(p),
{
    assert(p.push(c).drop_last() =~= p);
}

proof fn lemma_digits_one_piece(s: Seq<char>)
    requires
        all_digits(s),
    ensures
        digit_pieces(s) == seq![s],
    decreases s.len(),
{
    if s.len() > 0 {
        let r = s.drop_last();
        assert(all_digits(r)) by {
            assert forall|i: int| 0 <= i < r.len() implies is_digit(#[trigger] r[i]) by {
                assert(r[i] == s[i]);
            }
        }
        lemma_digits_one_piece(r);
        assert(is_digit(s[s.len() - 1]));
        assert(r.push(s.last()) =~= s);
        assert(digit_pieces(s) =~= seq![s]);
    } else {
        assert(s =~= Seq::<char>::empty());
    }
}

/// A Steam id written in decimal, alone, is read back as that one id.
pub proof fn steam_id_reads_back(id: u32)
    ensures
        steam_ids_of(decimal(id as nat)) == seq![id],
{
    let d = decimal(id as nat);
    decimal_digits(id as nat);
    decimal_parses_back(id as nat, u32::MAX as nat);
    lemma_digits_one_piece(d);
    let p = seq![d];
    assert(p.drop_last() =~= Seq::<Seq<char>>::empty());
    assert(p.last() == d);
    assert(parsed_ids(p.drop_last()) == Seq::<u32>::empty());
    assert(parsed_ids(p) =~= seq![id]);
}

/// The Steam ids named in `players`: std's `split` on every character that
/// is not an ASCII digit, each piece parsed as a `u32`, the pieces that do
/// not parse left out.
pub fn parse_steam_ids(players: &str) -> (ids: Vec<u32>)
    ensures
        ids@ == steam_ids_of(players@),
{
    let n = players.unicode_len();
    let mut ids: Vec<u32> = Vec::new();
    let mut cur_len: usize = 0;
    let mut cur_val: u64 = 0;
    let mut too_big = false;
    let mut i: usize = 0;
    proof {
        assert(players@.take(0) =~= Seq::<char>::empty());
    }
    while i < n
        invariant
            n == players@.len(),
            i <= n,
            cur_len <= i,
            ({
                let p = digit_pieces(players@.take(i as int));
                &&& p.len() >= 1
                &&& ids@ == parsed_ids(p.drop_last())
                &&& cur_len == p.last().len()
                &&& all_digits(p.last())
                &&& too_big == (digits_value(p.last()) > u32::MAX)
                &&& !too_big ==> cur_val == digits_value(p.last())
            }),
        decreases n - i,
    {
        let c = players.get_char(i);
        let ghost before = players@.take(i as int);
        let ghost p0 = digit_pieces(before);
        proof {
            lemma_pieces_nonempty(before);
            assert(players@.take(i + 1).drop_last() =~= before);
            assert(players@.take(i + 1).last() == c);
        }
        if '0' <= c && c <= '9' {
            let d: u64 = (c as u64) - ('0' as u64);
            proof {
                lemma_value_grows(p0.last(), c);
                let p1 = digit_pieces(players@.take(i + 1));
                assert(p1 =~= p0.update(p0.len() - 1, p0.last().push(c)));
                assert(p1.drop_last() =~= p0.drop_last());
                lemma_pieces_nonempty(players@.take(i + 1));
            }
            if !too_big {
                let v: u64 = cur_val * 10 + d;
                if v > 0xffff_ffff {
                    too_big = true;
                } else {
                    cur_val = v;
                }
            }
            cur_len = cur_len + 1;
        } else {
            proof {
                let p1 = digit_pieces(players@.take(i + 1));
                assert(p1 =~= p0.push(Seq::<char>::empty()));
                assert(p1.drop_last() =~= p0);
                assert(all_digits(p0.last()));
                assert(parse_unsigned(p0.last(), u32::MAX as nat) == if p0.last().len() > 0
                    && digits_value(p0.last()) <= u32::MAX {
                    Some(digits_value(p0.last()))
                } else {
                    None::<nat>
                });
                assert(Seq::<char>::empty().len() == 0);
            }
            if cur_len > 0 && !too_big {
                ids.push(cur_val as u32);
            }
            cur_len = 0;
            cur_val = 0;
            too_big = false;
        }
        i = i + 1;
    }
    proof {
        let p = digit_pieces(players@.take(n as int));
        assert(players@.take(n as int) =~= players@);
        assert(parse_unsigned(p.last(), u32::MAX as nat) == if p.last().len() > 0
            && digits_value(p.last()) <= u32::MAX {
            Some(digits_value(p.last()))
        } else {
            None::<nat>
        });
    }
    if cur_len > 0 && !too_big {
        ids.push(cur_val as u32);
    }
    ids
}

} // verus!
