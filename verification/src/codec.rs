//! The text persistence codec.
//!
//! A painting is saved as one line per placed block, `"x y code\n"`, in
//! coordinate order, where `code` is the palette code of the block's color.
//! Loading reads the whole file as whitespace-separated decimal integers
//! grouped in triples `(x, y, code)` and places each triple. A file with no
//! tokens at all is the distinct "no painting found" condition; any
//! non-integer token, an integer beyond the coordinate range, or a token
//! count not divisible by three makes the whole import fail before any block
//! is placed — a malformed file never partially mutates the store.

use vstd::prelude::*;
use crate::palette::{Color, spec_code_for_color, spec_color_for_code, spec_resolve, code_for_color,
    color_for_code};
use crate::store::{Entry, PlacedStore};

verus! {

/// Why a load failed: the file held no tokens at all, or held tokens that do
/// not form valid triples.
#[derive(Clone, Copy, PartialEq, Eq, Structural, Debug)]
pub enum LoadError {
    NoPainting,
    Malformed,
}

/// ASCII whitespace as the token separator: space, tab, newline, carriage
/// return.
pub open spec fn is_ws(b: u8) -> bool {
    b == 32 || b == 9 || b == 10 || b == 13
}

/// An ASCII decimal digit.
pub open spec fn is_digit(b: u8) -> bool {
    48 <= b && b <= 57
}

/// The token at the head of the input: its longest whitespace-free prefix.
pub open spec fn take_token(s: Seq<u8>) -> Seq<u8>
    decreases s.len(),
{
    if s.len() == 0 || is_ws(s[0]) {
        Seq::empty()
    } else {
        seq![s[0]] + take_token(s.drop_first())
    }
}

/// A head token is never longer than the input, and is nonempty when the
/// input starts with a non-whitespace byte.
pub proof fn lemma_take_token_len(s: Seq<u8>)
    ensures
        take_token(s).len() <= s.len(),
        s.len() > 0 && !is_ws(s[0]) ==> take_token(s).len() >= 1,
    decreases s.len(),
{
    if s.len() > 0 && !is_ws(s[0]) {
        lemma_take_token_len(s.drop_first());
    }
}

/// The input split into its whitespace-separated tokens, in order.
pub open spec fn tokenize(s: Seq<u8>) -> Seq<Seq<u8>>
    decreases s.len(),
    via tokenize_decreases
{
    if s.len() == 0 {
        Seq::empty()
    } else if is_ws(s[0]) {
        tokenize(s.drop_first())
    } else {
        seq![take_token(s)] + tokenize(s.skip(take_token(s).len() as int))
    }
}

#[via_fn]
proof fn tokenize_decreases(s: Seq<u8>) {
    if s.len() > 0 && !is_ws(s[0]) {
        lemma_take_token_len(s);
    }
}

/// Skipping one leading whitespace byte does not change the tokens.
pub proof fn lemma_tokenize_ws(b: u8, rest: Seq<u8>)
    requires
        is_ws(b),
    ensures
        tokenize(seq![b] + rest) == tokenize(rest),
{
    assert((seq![b] + rest).drop_first() =~= rest);
}

/// The head token of a token followed by a boundary is that token itself.
pub proof fn lemma_take_token_concat(t: Seq<u8>, rest: Seq<u8>)
    requires
        t.len() > 0,
        forall|i: int| 0 <= i < t.len() ==> !is_ws(#[trigger] t[i]),
        rest.len() == 0 || is_ws(rest[0]),
    ensures
        take_token(t + rest) == t,
    decreases t.len(),
{
    let s = t + rest;
    assert(s[0] == t[0]);
    if t.len() == 1 {
        assert(s.drop_first() =~= rest);
        assert(take_token(rest) == Seq::<u8>::empty());
        assert(seq![t[0]] + Seq::<u8>::empty() =~= t);
    } else {
        assert(s.drop_first() =~= t.drop_first() + rest);
        assert(forall|i: int|
            0 <= i < t.drop_first().len() ==> !is_ws(#[trigger] t.drop_first()[i]));
        lemma_take_token_concat(t.drop_first(), rest);
        assert(seq![t[0]] + t.drop_first() =~= t);
    }
}

/// Tokenizing a token followed by a boundary yields that token and then the
/// tokens of the remainder.
pub proof fn lemma_tokenize_token(t: Seq<u8>, rest: Seq<u8>)
    requires
        t.len() > 0,
        forall|i: int| 0 <= i < t.len() ==> !is_ws(#[trigger] t[i]),
        rest.len() == 0 || is_ws(rest[0]),
    ensures
        tokenize(t + rest) == seq![t] + tokenize(rest),
{
    let s = t + rest;
    lemma_take_token_concat(t, rest);
    assert(s.len() > 0 && !is_ws(s[0]));
    assert(s.skip(t.len() as int) =~= rest);
}

/// The decimal representation of a number, most significant digit first.
pub open spec fn dec_rep(n: nat) -> Seq<u8>
    decreases n,
{
    if n < 10 {
        seq![(48 + n) as u8]
    } else {
        dec_rep(n / 10) + seq![(48 + n % 10) as u8]
    }
}

/// A decimal representation is nonempty and all digits (hence free of
/// whitespace).
pub proof fn lemma_dec_rep_digits(n: nat)
    ensures
        dec_rep(n).len() >= 1,
        forall|i: int| 0 <= i < dec_rep(n).len() ==> is_digit(#[trigger] dec_rep(n)[i]),
        forall|i: int| 0 <= i < dec_rep(n).len() ==> !is_ws(#[trigger] dec_rep(n)[i]),
    decreases n,
{
    if n >= 10 {
        lemma_dec_rep_digits(n / 10);
    }
}

/// The number a digit string denotes, read most significant digit first.
pub open spec fn tok_val(t: Seq<u8>) -> int
    decreases t.len(),
{
    if t.len() == 0 {
        0
    } else {
        tok_val(t.drop_last()) * 10 + (t.last() - 48)
    }
}

/// Every byte of the token is a digit.
pub open spec fn all_digits(t: Seq<u8>) -> bool {
    forall|i: int| 0 <= i < t.len() ==> is_digit(#[trigger] t[i])
}

/// A digit string denotes a non-negative number.
pub proof fn lemma_tok_val_nonneg(t: Seq<u8>)
    requires
        all_digits(t),
    ensures
        tok_val(t) >= 0,
    decreases t.len(),
{
    if t.len() > 0 {
        assert(all_digits(t.drop_last()));
        lemma_tok_val_nonneg(t.drop_last());
    }
}

/// Reading more digits never decreases the value.
pub proof fn lemma_tok_val_mono(t: Seq<u8>, m: int)
    requires
        all_digits(t),
        0 <= m <= t.len(),
    ensures
        0 <= tok_val(t.take(m)) <= tok_val(t),
    decreases t.len() - m,
{
    assert(all_digits(t.take(m)));
    lemma_tok_val_nonneg(t.take(m));
    if m < t.len() {
        lemma_tok_val_mono(t, m + 1);
        assert(t.take(m + 1).drop_last() =~= t.take(m));
        assert(tok_val(t.take(m + 1)) == tok_val(t.take(m)) * 10 + (t[m] - 48));
    } else {
        assert(t.take(m) =~= t);
    }
}

/// What a token parses to: its value when it is a nonempty digit string
/// whose value fits the coordinate range, nothing otherwise.
pub open spec fn parse_u32_tok(t: Seq<u8>) -> Option<u32> {
    if t.len() > 0 && all_digits(t) && tok_val(t) <= u32::MAX {
        Some(tok_val(t) as u32)
    } else {
        None
    }
}

/// The decimal representation of `n` denotes `n`.
pub proof fn lemma_dec_rep_val(n: nat)
    ensures
        tok_val(dec_rep(n)) == n,
    decreases n,
{
    if n < 10 {
        let s = dec_rep(n);
        assert(s == seq![(48 + n) as u8]);
        assert(s.drop_last() =~= Seq::<u8>::empty());
        assert(s.last() == (48 + n) as u8);
        assert((48 + n) as u8 == 48 + n);
        assert(tok_val(s) == tok_val(s.drop_last()) * 10 + (s.last() - 48));
        assert(tok_val(s.drop_last()) == 0);
    } else {
        lemma_dec_rep_val(n / 10);
        let s = dec_rep(n);
        assert(s == dec_rep(n / 10) + seq![(48 + n % 10) as u8]);
        assert(s.drop_last() =~= dec_rep(n / 10));
        assert(s.last() == (48 + n % 10) as u8);
        assert(n % 10 < 10);
        assert((48 + n % 10) as u8 == 48 + n % 10);
        assert(tok_val(s) == tok_val(dec_rep(n / 10)) * 10 + (s.last() - 48));
        assert(tok_val(s) == (n / 10) * 10 + n % 10);
        vstd::arithmetic::div_mod::lemma_fundamental_div_mod(n as int, 10);
    }
}

/// Printing a number and parsing it back returns the number.
pub proof fn lemma_parse_dec_rep(n: u32)
    ensures
        parse_u32_tok(dec_rep(n as nat)) == Some(n),
{
    lemma_dec_rep_digits(n as nat);
    lemma_dec_rep_val(n as nat);
}

/// All tokens parsed in order, or nothing if any token fails to parse.
pub open spec fn parse_all(ts: Seq<Seq<u8>>) -> Option<Seq<u32>>
    decreases ts.len(),
{
    if ts.len() == 0 {
        Some(Seq::empty())
    } else {
        match parse_all(ts.drop_last()) {
            None => None,
            Some(vs) => match parse_u32_tok(ts.last()) {
                None => None,
                Some(v) => Some(vs.push(v)),
            },
        }
    }
}

/// A successful parse yields one value per token.
pub proof fn lemma_parse_all_len(ts: Seq<Seq<u8>>)
    ensures
        parse_all(ts) is Some ==> parse_all(ts)->Some_0.len() == ts.len(),
    decreases ts.len(),
{
    if ts.len() > 0 {
        lemma_parse_all_len(ts.drop_last());
    }
}

/// Parsing distributes over concatenation of token lists: both halves must
/// parse, and the values concatenate.
pub proof fn lemma_parse_all_concat(a: Seq<Seq<u8>>, b: Seq<Seq<u8>>)
    ensures
        parse_all(a + b) == match parse_all(a) {
            None => None::<Seq<u32>>,
            Some(x) => match parse_all(b) {
                None => None::<Seq<u32>>,
                Some(y) => Some(x + y),
            },
        },
    decreases b.len(),
{
    if b.len() == 0 {
        assert(a + b =~= a);
        if parse_all(a) is Some {
            assert(parse_all(a)->Some_0 + Seq::<u32>::empty() =~= parse_all(a)->Some_0);
        }
    } else {
        lemma_parse_all_concat(a, b.drop_last());
        assert((a + b).drop_last() =~= a + b.drop_last());
        assert((a + b).last() == b.last());
        if parse_all(a) is Some && parse_all(b) is Some {
            let x = parse_all(a)->Some_0;
            let yall = parse_all(b)->Some_0;
            let y = parse_all(b.drop_last())->Some_0;
            assert(yall == y.push(parse_u32_tok(b.last())->Some_0));
            assert((x + y).push(parse_u32_tok(b.last())->Some_0) =~= x + yall);
        }
    }
}

/// The values grouped in coordinate-color triples.
pub open spec fn spec_triples(vs: Seq<u32>) -> Seq<(u32, u32, u32)> {
    Seq::new((vs.len() / 3) as nat, |i: int| (vs[3 * i], vs[3 * i + 1], vs[3 * i + 2]))
}

/// What a save file's bytes decode to: the triples, or the error the import
/// reports.
pub open spec fn parse_save(s: Seq<u8>) -> Result<Seq<(u32, u32, u32)>, LoadError> {
    let ts = tokenize(s);
    if ts.len() == 0 {
        Err(LoadError::NoPainting)
    } else {
        match parse_all(ts) {
            None => Err(LoadError::Malformed),
            Some(vs) => if vs.len() % 3 == 0 {
                Ok(spec_triples(vs))
            } else {
                Err(LoadError::Malformed)
            },
        }
    }
}

/// The store after placing each triple in order: the triple's coordinate
/// takes the color its code resolves to.
pub open spec fn apply_triples(
    m: Map<(u32, u32), Color>,
    ts: Seq<(u32, u32, u32)>,
) -> Map<(u32, u32), Color>
    decreases ts.len(),
{
    if ts.len() == 0 {
        m
    } else {
        apply_triples(m, ts.drop_last()).insert(
            (ts.last().0, ts.last().1),
            spec_color_for_code(ts.last().2),
        )
    }
}

/// One line of the save format: `"x y code\n"` in decimal.
pub open spec fn line_of(x: u32, y: u32, code: u32) -> Seq<u8> {
    dec_rep(x as nat) + seq![32u8] + dec_rep(y as nat) + seq![32u8] + dec_rep(code as nat)
        + seq![10u8]
}

/// The whole save file: one line per entry, in entry order.
pub open spec fn encode_entries(es: Seq<Entry>) -> Seq<u8>
    decreases es.len(),
{
    if es.len() == 0 {
        Seq::empty()
    } else {
        encode_entries(es.drop_last()) + line_of(
            es.last().x,
            es.last().y,
            spec_code_for_color(es.last().color),
        )
    }
}

/// Append the decimal representation of `n`.
fn push_dec(n: u32, out: &mut Vec<u8>)
    ensures
        final(out)@ == old(out)@ + dec_rep(n as nat),
    decreases n,
{
    if n < 10 {
        out.push((48 + n) as u8);
        proof {
            assert(final(out)@ =~= old(out)@ + dec_rep(n as nat));
        }
    } else {
        push_dec(n / 10, out);
        out.push((48 + n % 10) as u8);
        proof {
            assert(final(out)@ =~= old(out)@ + dec_rep(n as nat));
        }
    }
}

/// Serialize the painting: one `"x y code\n"` line per placed block, in the
/// store's coordinate order.
pub fn export_text(store: &PlacedStore) -> (r: Vec<u8>)
    ensures
        r@ == encode_entries(store.entries@),
{
    let ghost es = store.entries@;
    let mut out: Vec<u8> = Vec::new();
    let mut i: usize = 0;
    proof {
        assert(es.take(0) =~= Seq::<Entry>::empty());
    }
    while i < store.entries.len()
        invariant
            i <= es.len(),
            es == store.entries@,
            out@ == encode_entries(es.take(i as int)),
        decreases es.len() - i,
    {
        let e = store.entries[i];
        push_dec(e.x, &mut out);
        out.push(32);
        push_dec(e.y, &mut out);
        out.push(32);
        push_dec(code_for_color(e.color), &mut out);
        out.push(10);
        i += 1;
        proof {
            assert(es.take(i as int).drop_last() =~= es.take(i as int - 1));
            assert(es.take(i as int).last() == es[i as int - 1]);
            assert(out@ =~= encode_entries(es.take(i as int - 1)) + line_of(
                es[i as int - 1].x,
                es[i as int - 1].y,
                spec_code_for_color(es[i as int - 1].color),
            ));
        }
    }
    proof {
        assert(es.take(es.len() as int) =~= es);
    }
    out
}

/// A token list with an unparseable token in it parses to nothing, wherever
/// the token stands.
proof fn lemma_parse_none(done: Seq<Seq<u8>>, t: Seq<u8>, rest: Seq<Seq<u8>>)
    requires
        parse_u32_tok(t) is None,
    ensures
        parse_all(done + (seq![t] + rest)) is None,
{
    assert(seq![t].drop_last() =~= Seq::<Seq<u8>>::empty());
    assert(seq![t].last() == t);
    assert(parse_all(seq![t]) is None);
    lemma_parse_all_concat(seq![t], rest);
    assert(parse_all(seq![t] + rest) is None);
    lemma_parse_all_concat(done, seq![t] + rest);
}

/// Read the input as whitespace-separated decimal integers, in order. Yields
/// nothing when any token is not an integer in range.
fn parse_values(data: &[u8]) -> (r: Option<Vec<u32>>)
    ensures
        match r {
            Some(vals) => parse_all(tokenize(data@)) == Some(vals@),
            None => parse_all(tokenize(data@)) is None,
        },
{
    let n = data.len();
    let mut i: usize = 0;
    let mut vals: Vec<u32> = Vec::new();
    let ghost mut done: Seq<Seq<u8>> = Seq::empty();
    proof {
        assert(data@.skip(0) =~= data@);
        assert(done + tokenize(data@) =~= tokenize(data@));
    }
    while i < n
        invariant
            n == data@.len(),
            i <= n,
            tokenize(data@) == done + tokenize(data@.skip(i as int)),
            parse_all(done) == Some(vals@),
        decreases n - i,
    {
        let b = data[i];
        if b == 32 || b == 9 || b == 10 || b == 13 {
            proof {
                assert(data@.skip(i as int) =~= seq![b] + data@.skip(i as int + 1));
                lemma_tokenize_ws(b, data@.skip(i as int + 1));
            }
            i = i + 1;
        } else {
            let start = i;
            let mut j = i;
            while j < n && !(data[j] == 32 || data[j] == 9 || data[j] == 10 || data[j] == 13)
                invariant
                    start <= j <= n,
                    n == data@.len(),
                    forall|p: int| start <= p < j ==> !is_ws(#[trigger] data@[p]),
                decreases n - j,
            {
                j = j + 1;
            }
            let ghost t = data@.subrange(start as int, j as int);
            proof {
                assert(!is_ws(data@[start as int]));
                assert(j > start);
                assert(forall|p: int| 0 <= p < t.len() ==> !is_ws(#[trigger] t[p]));
                assert(data@.skip(start as int) =~= t + data@.skip(j as int));
                if j == n {
                    assert(data@.skip(j as int) =~= Seq::<u8>::empty());
                } else {
                    assert(data@.skip(j as int)[0] == data@[j as int]);
                }
                lemma_tokenize_token(t, data@.skip(j as int));
                assert(t.take(0) =~= Seq::<u8>::empty());
            }
            let mut val: u64 = 0;
            let mut k = start;
            while k < j
                invariant
                    start <= k <= j <= n,
                    n == data@.len(),
                    t == data@.subrange(start as int, j as int),
                    all_digits(t.take(k as int - start as int)),
                    val as int == tok_val(t.take(k as int - start as int)),
                    val <= u32::MAX as u64,
                    tokenize(data@) == done + tokenize(data@.skip(start as int)),
                    tokenize(data@.skip(start as int)) == seq![t] + tokenize(data@.skip(j as int)),
                    parse_all(done) == Some(vals@),
                decreases j - k,
            {
                let b2 = data[k];
                proof {
                    assert(t[k as int - start as int] == b2);
                }
                if b2 < 48 || b2 > 57 {
                    proof {
                        assert(!is_digit(t[k as int - start as int]));
                        assert(parse_u32_tok(t) is None);
                        lemma_parse_none(done, t, tokenize(data@.skip(j as int)));
                    }
                    return None;
                }
                let v2 = val * 10 + (b2 - 48) as u64;
                proof {
                    let m = k as int - start as int;
                    assert(t.take(m + 1).drop_last() =~= t.take(m));
                    assert(t.take(m + 1).last() == b2);
                    assert(v2 as int == tok_val(t.take(m + 1)));
                }
                if v2 > 0xFFFF_FFFFu64 {
                    proof {
                        let m = k as int - start as int;
                        if all_digits(t) {
                            lemma_tok_val_mono(t, m + 1);
                            assert(t.take(t.len() as int) =~= t);
                            assert(tok_val(t) > u32::MAX);
                        }
                        assert(parse_u32_tok(t) is None);
                        lemma_parse_none(done, t, tokenize(data@.skip(j as int)));
                    }
                    return None;
                }
                val = v2;
                k = k + 1;
            }
            proof {
                assert(t.take(k as int - start as int) =~= t);
                assert(parse_u32_tok(t) == Some(val as u32));
            }
            vals.push(val as u32);
            proof {
                let done2 = done.push(t);
                assert(done2.drop_last() =~= done);
                assert(done2.last() == t);
                assert(parse_all(done2) == Some(vals@));
                assert(done2 + tokenize(data@.skip(j as int)) =~= done + (seq![t] + tokenize(
                    data@.skip(j as int),
                )));
                done = done2;
            }
            i = j;
        }
    }
    proof {
        assert(data@.skip(i as int) =~= Seq::<u8>::empty());
        assert(done + tokenize(Seq::<u8>::empty()) =~= done);
    }
    Some(vals)
}

/// Load a painting from save-file bytes into the store. On success every
/// triple of the file is placed in order; on any failure the store is left
/// untouched: an import never partially applies.
pub fn import_text(store: &mut PlacedStore, data: &[u8]) -> (r: Result<(), LoadError>)
    requires
        old(store).wf(),
    ensures
        final(store).wf(),
        match parse_save(data@) {
            Ok(ts) => r == Ok::<(), LoadError>(()) && final(store)@ == apply_triples(
                old(store)@,
                ts,
            ),
            Err(e) => r == Err::<(), LoadError>(e) && *final(store) == *old(store),
        },
{
    let vals = match parse_values(data) {
        None => {
            return Err(LoadError::Malformed);
        },
        Some(vals) => vals,
    };
    proof {
        lemma_parse_all_len(tokenize(data@));
    }
    if vals.len() == 0 {
        return Err(LoadError::NoPainting);
    }
    if vals.len() % 3 != 0 {
        return Err(LoadError::Malformed);
    }
    let ghost ts = spec_triples(vals@);
    let ghost m0 = store@;
    let count = vals.len() / 3;
    proof {
        vstd::arithmetic::div_mod::lemma_fundamental_div_mod(vals@.len() as int, 3);
        assert(3 * count == vals@.len());
        assert(ts.take(0) =~= Seq::<(u32, u32, u32)>::empty());
    }
    let mut idx: usize = 0;
    while idx < count
        invariant
            idx <= count,
            3 * count == vals@.len(),
            vals@.len() <= usize::MAX,
            ts == spec_triples(vals@),
            store.wf(),
            store@ == apply_triples(m0, ts.take(idx as int)),
        decreases count - idx,
    {
        let x = vals[3 * idx];
        let y = vals[3 * idx + 1];
        let code = vals[3 * idx + 2];
        let color = color_for_code(code);
        store.insert(x, y, color);
        idx = idx + 1;
        proof {
            assert(ts.take(idx as int).drop_last() =~= ts.take(idx as int - 1));
            assert(ts.take(idx as int).last() == ts[idx as int - 1]);
            assert(ts[idx as int - 1] == (x, y, code));
        }
    }
    proof {
        assert(ts.take(count as int) =~= ts);
    }
    Ok(())
}

/// The tokens a save file of these entries holds: each entry's coordinates
/// and palette code, in order.
pub open spec fn entry_tokens(es: Seq<Entry>) -> Seq<Seq<u8>>
    decreases es.len(),
{
    if es.len() == 0 {
        Seq::empty()
    } else {
        seq![
            dec_rep(es[0].x as nat),
            dec_rep(es[0].y as nat),
            dec_rep(spec_code_for_color(es[0].color) as nat),
        ] + entry_tokens(es.drop_first())
    }
}

/// The numbers a save file of these entries holds, flattened in order.
pub open spec fn entry_values(es: Seq<Entry>) -> Seq<u32>
    decreases es.len(),
{
    if es.len() == 0 {
        Seq::empty()
    } else {
        seq![es[0].x, es[0].y, spec_code_for_color(es[0].color)] + entry_values(es.drop_first())
    }
}

/// The triples a save file of these entries decodes to.
pub open spec fn entry_triples(es: Seq<Entry>) -> Seq<(u32, u32, u32)> {
    Seq::new(es.len(), |i: int| (es[i].x, es[i].y, spec_code_for_color(es[i].color)))
}

/// A store's contents with every color passed through the palette: the most
/// a text round trip can preserve.
pub open spec fn resolve_map(m: Map<(u32, u32), Color>) -> Map<(u32, u32), Color> {
    Map::new(|k: (u32, u32)| m.contains_key(k), |k: (u32, u32)| spec_resolve(m[k]))
}

/// One line followed by anything tokenizes to its three tokens and the
/// tokens of the remainder.
proof fn lemma_tokenize_line(x: u32, y: u32, code: u32, rest: Seq<u8>)
    ensures
        tokenize(line_of(x, y, code) + rest) == seq![
            dec_rep(x as nat),
            dec_rep(y as nat),
            dec_rep(code as nat),
        ] + tokenize(rest),
{
    let dx = dec_rep(x as nat);
    let dy = dec_rep(y as nat);
    let dc = dec_rep(code as nat);
    lemma_dec_rep_digits(x as nat);
    lemma_dec_rep_digits(y as nat);
    lemma_dec_rep_digits(code as nat);
    let r5 = seq![10u8] + rest;
    let r4 = dc + r5;
    let r3 = seq![32u8] + r4;
    let r2 = dy + r3;
    let r1 = seq![32u8] + r2;
    assert(line_of(x, y, code) + rest =~= dx + r1);
    assert(r1[0] == 32u8);
    lemma_tokenize_token(dx, r1);
    lemma_tokenize_ws(32u8, r2);
    assert(r3[0] == 32u8);
    lemma_tokenize_token(dy, r3);
    lemma_tokenize_ws(32u8, r4);
    assert(r5[0] == 10u8);
    lemma_tokenize_token(dc, r5);
    lemma_tokenize_ws(10u8, rest);
    assert(seq![dx] + (seq![dy] + (seq![dc] + tokenize(rest))) =~= seq![dx, dy, dc] + tokenize(
        rest,
    ));
}

/// A nonempty encoding decomposes as its first line followed by the encoding
/// of the remaining entries.
proof fn lemma_encode_cons(es: Seq<Entry>)
    requires
        es.len() > 0,
    ensures
        encode_entries(es) == line_of(
            es[0].x,
            es[0].y,
            spec_code_for_color(es[0].color),
        ) + encode_entries(es.drop_first()),
    decreases es.len(),
{
    let line0 = line_of(es[0].x, es[0].y, spec_code_for_color(es[0].color));
    if es.len() == 1 {
        assert(es.drop_last() =~= Seq::<Entry>::empty());
        assert(es.drop_first() =~= Seq::<Entry>::empty());
        assert(es.last() == es[0]);
        assert(Seq::<u8>::empty() + line0 =~= line0 + Seq::<u8>::empty());
    } else {
        lemma_encode_cons(es.drop_last());
        assert(es.drop_last()[0] == es[0]);
        let lastline = line_of(
            es.last().x,
            es.last().y,
            spec_code_for_color(es.last().color),
        );
        assert(es.drop_last().drop_first() =~= es.drop_first().drop_last());
        assert(es.drop_first().last() == es.last());
        assert(encode_entries(es.drop_first()) == encode_entries(es.drop_first().drop_last())
            + lastline);
        assert((line0 + encode_entries(es.drop_first().drop_last())) + lastline =~= line0 + (
        encode_entries(es.drop_first().drop_last()) + lastline));
    }
}

/// The encoding of the entries tokenizes to exactly their tokens.
proof fn lemma_tokenize_encode(es: Seq<Entry>)
    ensures
        tokenize(encode_entries(es)) == entry_tokens(es),
    decreases es.len(),
{
    if es.len() > 0 {
        lemma_encode_cons(es);
        lemma_tokenize_encode(es.drop_first());
        lemma_tokenize_line(
            es[0].x,
            es[0].y,
            spec_code_for_color(es[0].color),
            encode_entries(es.drop_first()),
        );
        assert(seq![
            dec_rep(es[0].x as nat),
            dec_rep(es[0].y as nat),
            dec_rep(spec_code_for_color(es[0].color) as nat),
        ] + entry_tokens(es.drop_first()) =~= entry_tokens(es));
    }
}

/// The entries' tokens parse to the entries' values, three per entry.
proof fn lemma_parse_entry_tokens(es: Seq<Entry>)
    ensures
        parse_all(entry_tokens(es)) == Some(entry_values(es)),
        entry_values(es).len() == 3 * es.len(),
    decreases es.len(),
{
    if es.len() == 0 {
        assert(entry_values(es) =~= Seq::<u32>::empty());
    } else {
        lemma_parse_entry_tokens(es.drop_first());
        let x = es[0].x;
        let y = es[0].y;
        let c = spec_code_for_color(es[0].color);
        let dx = dec_rep(x as nat);
        let dy = dec_rep(y as nat);
        let dc = dec_rep(c as nat);
        lemma_parse_dec_rep(x);
        lemma_parse_dec_rep(y);
        lemma_parse_dec_rep(c);
        let t3 = seq![dx, dy, dc];
        assert(t3.drop_last() =~= seq![dx, dy]);
        assert(seq![dx, dy].drop_last() =~= seq![dx]);
        assert(seq![dx].drop_last() =~= Seq::<Seq<u8>>::empty());
        assert(seq![dx].last() == dx);
        assert(seq![dx, dy].last() == dy);
        assert(t3.last() == dc);
        assert(parse_all(Seq::<Seq<u8>>::empty()) == Some(Seq::<u32>::empty()));
        assert(parse_all(seq![dx].drop_last()) == Some(Seq::<u32>::empty()));
        assert(parse_all(seq![dx]) == Some(Seq::<u32>::empty().push(x)));
        assert(Seq::<u32>::empty().push(x) =~= seq![x]);
        assert(parse_all(seq![dx, dy]) == Some(seq![x].push(y)));
        assert(seq![x].push(y) =~= seq![x, y]);
        assert(parse_all(t3) == Some(seq![x, y].push(c)));
        assert(seq![x, y].push(c) =~= seq![x, y, c]);
        lemma_parse_all_concat(t3, entry_tokens(es.drop_first()));
        assert(entry_tokens(es) == t3 + entry_tokens(es.drop_first()));
        assert(seq![x, y, c] + entry_values(es.drop_first()) =~= entry_values(es));
    }
}

/// Where each entry's numbers stand in the flattened value list.
proof fn lemma_entry_values_index(es: Seq<Entry>, i: int)
    requires
        0 <= i < es.len(),
    ensures
        entry_values(es)[3 * i] == es[i].x,
        entry_values(es)[3 * i + 1] == es[i].y,
        entry_values(es)[3 * i + 2] == spec_code_for_color(es[i].color),
    decreases i,
{
    lemma_parse_entry_tokens(es);
    lemma_parse_entry_tokens(es.drop_first());
    if i > 0 {
        lemma_entry_values_index(es.drop_first(), i - 1);
        assert(es.drop_first()[i - 1] == es[i]);
    }
}

/// Grouping the entries' values back in threes gives the entries' triples.
proof fn lemma_triples_of_values(es: Seq<Entry>)
    ensures
        spec_triples(entry_values(es)) == entry_triples(es),
{
    lemma_parse_entry_tokens(es);
    assert(entry_values(es).len() / 3 == es.len()) by {
        assert(3 * es.len() / 3 == es.len()) by (nonlinear_arith);
    }
    assert forall|i: int| 0 <= i < es.len() implies spec_triples(entry_values(es))[i]
        == entry_triples(es)[i] by {
        lemma_entry_values_index(es, i);
    }
    assert(spec_triples(entry_values(es)) =~= entry_triples(es));
}

/// Placing the entries' triples into an empty store rebuilds the entries'
/// mapping, with each color resolved through the palette.
proof fn lemma_apply_entry_triples(es: Seq<Entry>)
    ensures
        apply_triples(Map::empty(), entry_triples(es)) == resolve_map(crate::store::seq_to_map(es)),
    decreases es.len(),
{
    if es.len() == 0 {
        assert(entry_triples(es).len() == 0);
        assert(resolve_map(Map::<(u32, u32), Color>::empty()) =~= Map::<(u32, u32), Color>::empty());
    } else {
        lemma_apply_entry_triples(es.drop_last());
        let k = (es.last().x, es.last().y);
        let c = es.last().color;
        assert(entry_triples(es).drop_last() =~= entry_triples(es.drop_last()));
        assert(entry_triples(es).last() == (es.last().x, es.last().y, spec_code_for_color(c)));
        assert(resolve_map(crate::store::seq_to_map(es.drop_last()).insert(k, c)) =~= resolve_map(
            crate::store::seq_to_map(es.drop_last()),
        ).insert(k, spec_resolve(c)));
    }
}

/// Law: a nonempty painting exported as text decodes back to exactly its
/// entries' triples, and placing those triples into an empty store rebuilds
/// the painting with each color resolved through the palette — off-palette
/// colors land on the palette's fallback, everything else round-trips
/// unchanged. (An empty painting exports as an empty file, which imports as
/// the distinct "no painting found" condition instead.)
pub proof fn lemma_text_round_trip(store: PlacedStore)
    requires
        store.entries@.len() > 0,
    ensures
        parse_save(encode_entries(store.entries@)) == Ok::<Seq<(u32, u32, u32)>, LoadError>(
            entry_triples(store.entries@),
        ),
        apply_triples(Map::empty(), entry_triples(store.entries@)) == resolve_map(store@),
{
    let es = store.entries@;
    lemma_tokenize_encode(es);
    lemma_parse_entry_tokens(es);
    lemma_parse_all_len(entry_tokens(es));
    assert(entry_tokens(es).len() == 3 * es.len());
    assert((3 * es.len()) % 3 == 0) by (nonlinear_arith);
    lemma_triples_of_values(es);
    lemma_apply_entry_triples(es);
}

/// Law: when every placed color is a palette color — as it is for any
/// painting built only from key-selected colors and erasures — the text
/// round trip restores the store's contents exactly.
pub proof fn lemma_text_round_trip_exact(store: PlacedStore)
    requires
        store.wf(),
        store.entries@.len() > 0,
        forall|i: int|
            0 <= i < store.entries@.len() ==> crate::palette::spec_palette_color(
                (#[trigger] store.entries@[i]).color,
            ),
    ensures
        apply_triples(Map::empty(), entry_triples(store.entries@)) == store@,
{
    let es = store.entries@;
    lemma_text_round_trip(store);
    assert forall|k: (u32, u32)| #[trigger] store@.contains_key(k) implies spec_resolve(store@[k])
        == store@[k] by {
        crate::store::lemma_seq_to_map_contains(es, k);
        let i = choose|i: int| 0 <= i < es.len() && ((#[trigger] es[i]).x, es[i].y) == k;
        assert forall|j: int| 0 <= j < es.len() && j != i implies (((#[trigger] es[j]).x, es[j].y)
            != (es[i].x, es[i].y)) by {
            crate::store::lemma_sorted_unique(es, i, j);
        }
        crate::store::lemma_seq_to_map_value(es, i);
    }
    assert(resolve_map(store@) =~= store@);
}

} // verus!
