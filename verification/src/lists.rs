//! Lists that are carried in one text, their items separated by commas.
//!
//! A list of integers is read leniently: white space around an item is
//! dropped and empty items are passed over. A list of strings is read
//! verbatim: every piece between two commas is an item as it stands.

use crate::scalar::{
    after_sign, all_digits, decimal, lemma_decimal, parse_u32, push_decimal, unsigned_of,
};
use crate::text::{
    all_free_of, free_of, join, joined, lemma_join_pieces, lemma_pieces_free,
    lemma_pieces_joined, pieces, split, trim, trimmed,
};
use vstd::prelude::*;

verus! {

/// The integers that a sequence of pieces denotes, or the first piece,
/// trimmed, that is neither empty nor an unsigned integer.
pub open spec fn ints_of(parts: Seq<Seq<char>>) -> Result<Seq<u32>, Seq<char>>
    decreases parts.len(),
{
    if parts.len() == 0 {
        Ok(Seq::empty())
    } else {
        match ints_of(parts.drop_last()) {
            Err(token) => Err(token),
            Ok(front) => {
                let token = trimmed(parts.last());
                if token.len() == 0 {
                    Ok(front)
                } else {
                    match unsigned_of(token) {
                        Some(n) => Ok(front.push(n)),
                        None => Err(token),
                    }
                }
            },
        }
    }
}

/// The list of integers that a text denotes, or the offending token.
pub open spec fn int_list_of(s: Seq<char>) -> Result<Seq<u32>, Seq<char>> {
    ints_of(pieces(s, ','))
}

/// The decimal texts of a list of integers.
pub open spec fn decimals(v: Seq<u32>) -> Seq<Seq<char>> {
    Seq::new(v.len(), |i: int| decimal(v[i] as nat))
}

/// The text of a list of integers: their decimal texts joined by commas.
pub open spec fn int_list_text(v: Seq<u32>) -> Seq<char> {
    joined(decimals(v), seq![','])
}

/// The list of strings that a text denotes: its pieces between commas.
pub open spec fn string_list_of(s: Seq<char>) -> Seq<Seq<char>> {
    pieces(s, ',')
}

/// The text of a list of strings: the strings joined by commas.
pub open spec fn string_list_text(v: Seq<Seq<char>>) -> Seq<char> {
    joined(v, seq![','])
}

/// What `parse_int_list` returns, as a value of the model.
pub open spec fn int_list_outcome(r: Result<Vec<u32>, String>) -> Result<Seq<u32>, Seq<char>> {
    match r {
        Ok(v) => Ok(v@),
        Err(token) => Err(token@),
    }
}

/// Once a prefix of the pieces has failed, the whole fails in the same way.
pub proof fn lemma_ints_failure_stays(parts: Seq<Seq<char>>, k: int)
    requires
        0 <= k <= parts.len(),
        ints_of(parts.take(k)) is Err,
    ensures
        ints_of(parts) == ints_of(parts.take(k)),
    decreases parts.len() - k,
{
    if k == parts.len() {
        assert(parts.take(k) =~= parts);
    } else {
        assert(parts.drop_last().take(k) =~= parts.take(k));
        lemma_ints_failure_stays(parts.drop_last(), k);
    }
}

/// A non-empty run of digits has no white space at its ends, holds no comma
/// and begins with no sign.
pub proof fn lemma_digits_plain(s: Seq<char>)
    requires
        s.len() >= 1,
        all_digits(s),
    ensures
        trimmed(s) == s,
        free_of(s, ','),
        after_sign(s, false) == s,
{
}

/// The decimal texts of integers denote those integers.
pub proof fn lemma_ints_of_decimals(v: Seq<u32>)
    ensures
        ints_of(decimals(v)) == Ok::<Seq<u32>, Seq<char>>(v),
        all_free_of(decimals(v), ','),
    decreases v.len(),
{
    if v.len() == 0 {
        assert(v =~= Seq::<u32>::empty());
    } else {
        let front = v.drop_last();
        lemma_ints_of_decimals(front);
        assert(decimals(v).drop_last() =~= decimals(front));
        let last = decimal(v.last() as nat);
        lemma_decimal(v.last() as nat);
        lemma_digits_plain(last);
        assert(front.push(v.last()) =~= v);
        assert forall|i: int| 0 <= i < decimals(v).len() implies free_of(
            #[trigger] decimals(v)[i],
            ',',
        ) by {
            if i < front.len() {
                assert(decimals(v)[i] == decimals(front)[i]);
            }
        }
    }
}

/// Reading the text of a list of integers gives the list back.
pub proof fn law_int_list_round_trip(v: Seq<u32>)
    ensures
        int_list_of(int_list_text(v)) == Ok::<Seq<u32>, Seq<char>>(v),
{
    lemma_ints_of_decimals(v);
    if v.len() == 0 {
        let parts = seq![Seq::<char>::empty()];
        assert(ints_of(parts.drop_last()) == Ok::<Seq<u32>, Seq<char>>(Seq::empty()));
    } else {
        lemma_pieces_joined(decimals(v), ',');
    }
}

/// Reading the text of a non-empty list of strings, none of which holds a
/// comma, gives the list back.
pub proof fn law_string_list_round_trip(v: Seq<Seq<char>>)
    requires
        v.len() >= 1,
        all_free_of(v, ','),
    ensures
        string_list_of(string_list_text(v)) == v,
{
    lemma_pieces_joined(v, ',');
}

/// Writing the list of strings that a text denotes gives the text back, and
/// none of the strings of that list holds a comma.
pub proof fn law_string_list_text_round_trip(s: Seq<char>)
    ensures
        string_list_text(string_list_of(s)) == s,
        string_list_of(s).len() >= 1,
        all_free_of(string_list_of(s), ','),
{
    lemma_join_pieces(s, ',');
    lemma_pieces_free(s, ',');
}

/// Reads a list of unsigned integers separated by commas. White space
/// around an item is dropped and empty items are passed over. The error is
/// the first item that is not an unsigned integer.
pub fn parse_int_list(s: &str) -> (r: Result<Vec<u32>, String>)
    ensures
        int_list_outcome(r) == int_list_of(s@),
{
    let parts = split(s, ',');
    let mut out: Vec<u32> = Vec::new();
    let mut i: usize = 0;
    while i < parts.len()
        invariant
            i <= parts.len(),
            parts.deep_view() == pieces(s@, ','),
            ints_of(parts.deep_view().take(i as int)) == Ok::<Seq<u32>, Seq<char>>(out@),
        decreases parts.len() - i,
    {
        let token = trim(parts[i].as_str());
        proof {
            let next = parts.deep_view().take(i + 1);
            assert(next.drop_last() =~= parts.deep_view().take(i as int));
        }
        if !token.is_empty() {
            match parse_u32(token) {
                Some(n) => {
                    out.push(n);
                },
                None => {
                    proof {
                        lemma_ints_failure_stays(parts.deep_view(), i + 1);
                    }
                    return Err(token.to_owned());
                },
            }
        }
        i += 1;
    }
    assert(parts.deep_view().take(i as int) =~= parts.deep_view());
    Ok(out)
}

/// Writes a list of unsigned integers, separated by commas.
pub fn format_int_list(value: &[u32]) -> (s: String)
    ensures
        s@ == int_list_text(value@),
{
    let mut s = String::new();
    let mut i: usize = 0;
    while i < value.len()
        invariant
            i <= value.len(),
            s@ == joined(decimals(value@).take(i as int), seq![',']),
        decreases value.len() - i,
    {
        proof {
            let next = decimals(value@).take(i + 1);
            assert(next.drop_last() =~= decimals(value@).take(i as int));
            reveal_strlit(",");
        }
        if i > 0 {
            s.append(",");
        }
        push_decimal(&mut s, value[i] as u64);
        i += 1;
    }
    assert(decimals(value@).take(i as int) =~= decimals(value@));
    s
}

/// Reads a list of strings separated by commas. Every piece is kept as it
/// stands, white space included.
pub fn parse_string_list(s: &str) -> (r: Vec<String>)
    ensures
        r.deep_view() == string_list_of(s@),
{
    split(s, ',')
}

/// Writes a list of strings, separated by commas.
pub fn format_string_list(value: &[String]) -> (s: String)
    ensures
        s@ == string_list_text(value.deep_view()),
{
    proof {
        reveal_strlit(",");
        assert(","@ =~= seq![',']);
    }
    join(value, ",")
}

} // verus!
