//! The persisted encodings of the two append-only logs, and their
//! round-trip guarantees.
//!
//! Move history is `(<token>;)*`; control history is
//! `(<turn>. <signal>;)*`. Both are delimiter-terminated concatenations
//! of tokens, decoded here back into the sequences they came from.

use vstd::prelude::*;
use vstd::seq_lib::lemma_concat_associative;
use vstd::string::StrSliceExecFns;

use crate::game_control::{ControlEntry, GameControl};
use crate::game_error::GameError;
use crate::text::{chars_to_string, push_str_chars};

verus! {

// ---------------------------------------------------------------------
// Decimal digits
// ---------------------------------------------------------------------
/// The character for one decimal digit.
pub open spec fn digit_char(d: int) -> char {
    if d == 0 {
        '0'
    } else if d == 1 {
        '1'
    } else if d == 2 {
        '2'
    } else if d == 3 {
        '3'
    } else if d == 4 {
        '4'
    } else if d == 5 {
        '5'
    } else if d == 6 {
        '6'
    } else if d == 7 {
        '7'
    } else if d == 8 {
        '8'
    } else {
        '9'
    }
}

/// The value of a digit character, or -1 for any other character.
pub open spec fn digit_val(c: char) -> int {
    if c == '0' {
        0
    } else if c == '1' {
        1
    } else if c == '2' {
        2
    } else if c == '3' {
        3
    } else if c == '4' {
        4
    } else if c == '5' {
        5
    } else if c == '6' {
        6
    } else if c == '7' {
        7
    } else if c == '8' {
        8
    } else if c == '9' {
        9
    } else {
        -1
    }
}

pub open spec fn is_digit_char(c: char) -> bool {
    digit_val(c) >= 0
}

pub open spec fn all_digits(s: Seq<char>) -> bool {
    forall|i: int| 0 <= i < s.len() ==> is_digit_char(#[trigger] s[i])
}

/// The decimal form of `n`, most significant digit first, no leading
/// zeros (except for `n == 0` itself).
pub open spec fn spec_digits(n: nat) -> Seq<char>
    decreases n,
{
    if n < 10 {
        seq![digit_char(n as int)]
    } else {
        spec_digits(n / 10).push(digit_char((n % 10) as int))
    }
}

/// The number a digit string denotes.
pub open spec fn spec_digits_val(s: Seq<char>) -> int
    decreases s.len(),
{
    if s.len() == 0 {
        0
    } else {
        spec_digits_val(s.drop_last()) * 10 + digit_val(s.last())
    }
}

/// The decimal form of `n` is non-empty, consists of digits, and
/// denotes `n`.
pub proof fn lemma_digits_roundtrip(n: nat)
    ensures
        spec_digits(n).len() >= 1,
        all_digits(spec_digits(n)),
        spec_digits_val(spec_digits(n)) == n,
    decreases n,
{
    if n < 10 {
        assert(spec_digits(n) =~= seq![digit_char(n as int)]);
        assert(spec_digits(n).len() == 1);
        assert(spec_digits(n).drop_last() =~= Seq::<char>::empty());
        assert(spec_digits(n).last() == digit_char(n as int));
        assert(digit_val(digit_char(n as int)) == n as int);
        assert(spec_digits_val(Seq::<char>::empty()) == 0);
        assert(spec_digits_val(spec_digits(n)) == spec_digits_val(spec_digits(n).drop_last()) * 10
            + digit_val(spec_digits(n).last()));
    } else {
        lemma_digits_roundtrip(n / 10);
        let d = spec_digits(n / 10);
        let c = digit_char((n % 10) as int);
        assert(d.push(c).drop_last() =~= d);
        assert(d.push(c).last() == c);
        assert(digit_val(c) == n % 10);
        assert(spec_digits_val(d.push(c)) == spec_digits_val(d) * 10 + digit_val(c));
        assert(n / 10 * 10 + n % 10 == n) by (nonlinear_arith);
        assert(forall|i: int|
            0 <= i < d.push(c).len() ==> is_digit_char(#[trigger] d.push(c)[i]));
    }
}

/// The value of a digit string is non-negative.
pub proof fn lemma_digits_val_nonneg(s: Seq<char>)
    requires
        all_digits(s),
    ensures
        spec_digits_val(s) >= 0,
    decreases s.len(),
{
    if s.len() > 0 {
        assert(all_digits(s.drop_last()));
        lemma_digits_val_nonneg(s.drop_last());
    }
}

/// Extending a digit string can only grow its value.
pub proof fn lemma_digits_val_prefix(s: Seq<char>, i: int)
    requires
        all_digits(s),
        0 <= i <= s.len(),
    ensures
        spec_digits_val(s.take(i)) <= spec_digits_val(s),
    decreases s.len(),
{
    if i == s.len() {
        assert(s.take(i) =~= s);
    } else {
        assert(all_digits(s.drop_last()));
        assert(s.take(i) =~= s.drop_last().take(i));
        lemma_digits_val_prefix(s.drop_last(), i);
        lemma_digits_val_nonneg(s.drop_last());
        assert(spec_digits_val(s) == spec_digits_val(s.drop_last()) * 10 + digit_val(s.last()));
    }
}

/// One digit character.
fn digit_to_char(d: u32) -> (c: char)
    requires
        d < 10,
    ensures
        c == digit_char(d as int),
{
    match d {
        0 => '0',
        1 => '1',
        2 => '2',
        3 => '3',
        4 => '4',
        5 => '5',
        6 => '6',
        7 => '7',
        8 => '8',
        _ => '9',
    }
}

/// The value of a digit character.
fn char_to_digit(c: char) -> (r: Option<u32>)
    ensures
        match r {
            Some(d) => digit_val(c) == d && d < 10,
            None => digit_val(c) == -1,
        },
{
    match c {
        '0' => Some(0),
        '1' => Some(1),
        '2' => Some(2),
        '3' => Some(3),
        '4' => Some(4),
        '5' => Some(5),
        '6' => Some(6),
        '7' => Some(7),
        '8' => Some(8),
        '9' => Some(9),
        _ => None,
    }
}

/// Appends the decimal form of `n`.
pub(crate) fn push_digits(v: &mut Vec<char>, n: u32)
    ensures
        final(v)@ == old(v)@ + spec_digits(n as nat),
    decreases n,
{
    if n >= 10 {
        push_digits(v, n / 10);
        v.push(digit_to_char(n % 10));
        proof {
            assert(v@ =~= old(v)@ + spec_digits(n as nat));
        }
    } else {
        v.push(digit_to_char(n));
        proof {
            assert(v@ =~= old(v)@ + spec_digits(n as nat));
        }
    }
}

// ---------------------------------------------------------------------
// First occurrence of a character
// ---------------------------------------------------------------------
/// The index of the first occurrence of `c` in `s`, or -1 if absent.
pub open spec fn spec_find_idx(s: Seq<char>, c: char) -> int
    decreases s.len(),
{
    if s.len() == 0 {
        -1
    } else if s[0] == c {
        0
    } else {
        let r = spec_find_idx(s.drop_first(), c);
        if r < 0 {
            -1
        } else {
            r + 1
        }
    }
}

/// `spec_find_idx` really is the first occurrence.
pub proof fn lemma_find_idx(s: Seq<char>, c: char)
    ensures
        spec_find_idx(s, c) == -1 ==> forall|m: int| 0 <= m < s.len() ==> s[m] != c,
        spec_find_idx(s, c) != -1 ==> {
            let k = spec_find_idx(s, c);
            &&& 0 <= k < s.len()
            &&& s[k] == c
            &&& forall|m: int| 0 <= m < k ==> s[m] != c
        },
    decreases s.len(),
{
    if s.len() > 0 && s[0] != c {
        lemma_find_idx(s.drop_first(), c);
        let t = s.drop_first();
        let rt = spec_find_idx(t, c);
        if rt == -1 {
            assert forall|m: int| 0 <= m < s.len() implies s[m] != c by {
                if m > 0 {
                    assert(t[m - 1] == s[m]);
                    assert(t[m - 1] != c);
                }
            }
        } else {
            assert(spec_find_idx(s, c) == rt + 1);
            assert(t[rt] == s[rt + 1]);
            assert forall|m: int| 0 <= m < rt + 1 implies s[m] != c by {
                if m > 0 {
                    assert(t[m - 1] == s[m]);
                    assert(t[m - 1] != c);
                }
            }
        }
    }
}

/// An index with the first-occurrence property is what `spec_find_idx`
/// returns.
pub proof fn lemma_find_idx_is(s: Seq<char>, c: char, k: int)
    requires
        0 <= k < s.len(),
        s[k] == c,
        forall|m: int| 0 <= m < k ==> s[m] != c,
    ensures
        spec_find_idx(s, c) == k,
{
    lemma_find_idx(s, c);
    let r = spec_find_idx(s, c);
    if r == -1 {
        assert(s[k] != c);
    } else if r < k {
        assert(s[r] != c);
    } else if k < r {
        assert(s[k] != c);
    }
}

// ---------------------------------------------------------------------
// Delimiter-terminated token lists
// ---------------------------------------------------------------------
/// A token may not contain the delimiter.
pub open spec fn valid_token(t: Seq<char>) -> bool {
    forall|i: int| 0 <= i < t.len() ==> t[i] != ';'
}

/// `(<token>;)*`: each token followed by the delimiter.
pub open spec fn spec_encode_tokens(ts: Seq<Seq<char>>) -> Seq<char>
    decreases ts.len(),
{
    if ts.len() == 0 {
        Seq::empty()
    } else {
        ts[0] + seq![';'] + spec_encode_tokens(ts.drop_first())
    }
}

/// Splits a delimiter-terminated concatenation back into its tokens;
/// `None` when the text does not end each token with the delimiter.
pub open spec fn spec_decode_tokens(s: Seq<char>) -> Option<Seq<Seq<char>>>
    decreases s.len(),
{
    if s.len() == 0 {
        Some(Seq::empty())
    } else {
        let k = spec_find_idx(s, ';');
        if !(0 <= k < s.len()) {
            None
        } else {
            match spec_decode_tokens(s.skip(k + 1)) {
                None => None,
                Some(rest) => Some(seq![s.take(k)] + rest),
            }
        }
    }
}

/// Appending one token to the list appends its encoding to the text.
pub proof fn lemma_encode_tokens_snoc(ts: Seq<Seq<char>>, t: Seq<char>)
    ensures
        spec_encode_tokens(ts.push(t)) == spec_encode_tokens(ts) + t + seq![';'],
    decreases ts.len(),
{
    if ts.len() == 0 {
        assert(ts.push(t).len() == 1);
        assert(ts.push(t)[0] == t);
        assert(ts.push(t).drop_first() =~= Seq::<Seq<char>>::empty());
        assert(spec_encode_tokens(ts.push(t).drop_first()) == Seq::<char>::empty());
        assert(spec_encode_tokens(ts.push(t)) == t + seq![';'] + Seq::<char>::empty());
        assert(spec_encode_tokens(ts) == Seq::<char>::empty());
        assert(spec_encode_tokens(ts.push(t)) =~= spec_encode_tokens(ts) + t + seq![';']);
    } else {
        lemma_encode_tokens_snoc(ts.drop_first(), t);
        assert(ts.push(t).drop_first() =~= ts.drop_first().push(t));
        assert(ts.push(t)[0] == ts[0]);
        let head = ts[0] + seq![';'];
        let c = spec_encode_tokens(ts.drop_first());
        assert(spec_encode_tokens(ts.push(t)) == head + (c + t + seq![';']));
        lemma_concat_associative(head, c + t, seq![';']);
        lemma_concat_associative(head, c, t);
        assert(spec_encode_tokens(ts.push(t)) == head + c + t + seq![';']);
    }
}

/// Round trip at the token-list level: encoding any sequence of
/// delimiter-free tokens and decoding it yields the original sequence,
/// the empty sequence included.
pub proof fn lemma_tokens_roundtrip(ts: Seq<Seq<char>>)
    requires
        forall|i: int| 0 <= i < ts.len() ==> valid_token(#[trigger] ts[i]),
    ensures
        spec_decode_tokens(spec_encode_tokens(ts)) == Some(ts),
    decreases ts.len(),
{
    if ts.len() == 0 {
        assert(spec_encode_tokens(ts) =~= Seq::<char>::empty());
        assert(spec_decode_tokens(spec_encode_tokens(ts)) == Some(Seq::<Seq<char>>::empty()));
        assert(ts =~= Seq::<Seq<char>>::empty());
    } else {
        let t = ts[0];
        let s = spec_encode_tokens(ts);
        let rest_enc = spec_encode_tokens(ts.drop_first());
        assert(s == t + seq![';'] + rest_enc);
        let n = t.len() as int;
        assert(s.len() == n + 1 + rest_enc.len());
        assert(s[n] == ';');
        assert(valid_token(t));
        assert forall|m: int| 0 <= m < n implies s[m] != ';' by {
            assert(s[m] == t[m]);
        }
        lemma_find_idx_is(s, ';', n);
        assert(s.take(n) =~= t);
        assert(s.skip(n + 1) =~= rest_enc);
        lemma_tokens_roundtrip(ts.drop_first());
        assert(seq![t] + ts.drop_first() =~= ts);
    }
}

/// The views of a sequence of strings.
pub open spec fn strings_view(ms: Seq<String>) -> Seq<Seq<char>> {
    ms.map_values(|m: String| m@)
}

/// Encodes a move-history log: each token followed by the delimiter.
pub fn encode_history(moves: &Vec<String>) -> (r: String)
    ensures
        r@ == spec_encode_tokens(strings_view(moves@)),
{
    let mut v: Vec<char> = Vec::new();
    let mut i: usize = 0;
    while i < moves.len()
        invariant
            0 <= i <= moves@.len(),
            v@ == spec_encode_tokens(strings_view(moves@).take(i as int)),
        decreases moves@.len() - i,
    {
        push_str_chars(&mut v, moves[i].as_str());
        v.push(';');
        proof {
            let mv = strings_view(moves@);
            assert(mv.take(i + 1) =~= mv.take(i as int).push(mv[i as int]));
            lemma_encode_tokens_snoc(mv.take(i as int), mv[i as int]);
            assert(v@ =~= spec_encode_tokens(mv.take(i as int)) + mv[i as int] + seq![';']);
        }
        i += 1;
    }
    proof {
        assert(strings_view(moves@).take(moves@.len() as int) =~= strings_view(moves@));
    }
    chars_to_string(&v)
}

/// Decodes a move-history log back into its tokens: succeeds exactly
/// when the text is a delimiter-terminated concatenation.
pub fn decode_history(s: &str) -> (r: Result<Vec<String>, GameError>)
    ensures
        match r {
            Ok(ms) => spec_decode_tokens(s@) == Some(strings_view(ms@)) && (forall|x: int|
                0 <= x < ms@.len() ==> valid_token(#[trigger] strings_view(ms@)[x])),
            Err(e) => spec_decode_tokens(s@) is None && e.is_parsing_error(),
        },
{
    proof {
        assert(s@.skip(0) =~= s@);
    }
    decode_tokens_from(s, 0)
}

/// Decodes the suffix of `s` that starts at `i`.
fn decode_tokens_from(s: &str, i: usize) -> (r: Result<Vec<String>, GameError>)
    requires
        i <= s@.len(),
    ensures
        match r {
            Ok(ms) => spec_decode_tokens(s@.skip(i as int)) == Some(strings_view(ms@)) && (
            forall|x: int| 0 <= x < ms@.len() ==> valid_token(#[trigger] strings_view(ms@)[x])),
            Err(e) => spec_decode_tokens(s@.skip(i as int)) is None && e.is_parsing_error(),
        },
    decreases s@.len() - i,
{
    let len = s.unicode_len();
    if i == len {
        let ms: Vec<String> = Vec::new();
        proof {
            assert(s@.skip(i as int) =~= Seq::<char>::empty());
            assert(strings_view(ms@) =~= Seq::<Seq<char>>::empty());
        }
        return Ok(ms);
    }
    let ghost suffix = s@.skip(i as int);
    let mut j: usize = i;
    while j < len && s.get_char(j) != ';'
        invariant
            i <= j <= len,
            len == s@.len(),
            forall|m: int| i <= m < j ==> s@[m] != ';',
        decreases len - j,
    {
        j += 1;
    }
    proof {
        assert(forall|m: int| 0 <= m < suffix.len() ==> suffix[m] == s@[i + m]);
    }
    if j == len {
        proof {
            lemma_find_idx(suffix, ';');
            let k = spec_find_idx(suffix, ';');
            if k != -1 {
                assert(suffix[k] == ';');
                assert(s@[i + k] == ';');
            }
        }
        return Err(GameError::ParsingError {
            found: s.substring_char(i, len).to_owned(),
            typ: "delimiter-terminated token".to_owned(),
        });
    }
    proof {
        assert(suffix[j - i] == s@[j as int]);
        lemma_find_idx_is(suffix, ';', j - i);
        assert(suffix.take(j - i) =~= s@.subrange(i as int, j as int));
        assert(suffix.skip(j - i + 1) =~= s@.skip(j + 1));
    }
    let tok: String = s.substring_char(i, j).to_owned();
    let rest = decode_tokens_from(s, j + 1)?;
    let ghost rest_view = rest@;
    let mut ms = rest;
    ms.insert(0, tok);
    proof {
        assert(strings_view(ms@) =~= seq![s@.subrange(i as int, j as int)] + strings_view(
            rest_view,
        ));
        assert forall|x: int|
            0 <= x < ms@.len() implies valid_token(#[trigger] strings_view(ms@)[x]) by {
            if x == 0 {
                assert(strings_view(ms@)[0] == s@.subrange(i as int, j as int));
                assert forall|m: int|
                    0 <= m < s@.subrange(i as int, j as int).len() implies s@.subrange(
                    i as int,
                    j as int,
                )[m] != ';' by {
                    assert(s@.subrange(i as int, j as int)[m] == s@[i + m]);
                }
            } else {
                assert(strings_view(ms@)[x] == strings_view(rest_view)[x - 1]);
            }
        }
    }
    Ok(ms)
}

// ---------------------------------------------------------------------
// Control-history records: `<turn>. <signal>`
// ---------------------------------------------------------------------
/// The token for one control record: the turn in decimal, a dot and a
/// space, then the signal's token.
pub open spec fn spec_encode_entry(e: ControlEntry) -> Seq<char> {
    spec_digits(e.turn as nat) + seq!['.', ' '] + e.control.spec_str()
}

/// What parsing yields on one control token: the record it encodes, if
/// it has the shape `<digits>. <signal>` with a turn that fits.
pub open spec fn spec_parse_entry(t: Seq<char>) -> Option<ControlEntry> {
    let k = spec_find_idx(t, '.');
    if k < 1 {
        None
    } else if t.len() < k + 2 {
        None
    } else if t[k + 1] != ' ' {
        None
    } else if !all_digits(t.take(k)) {
        None
    } else if spec_digits_val(t.take(k)) > i32::MAX {
        None
    } else {
        match GameControl::spec_parse(t.skip(k + 2)) {
            None => None,
            Some(gc) => Some(
                ControlEntry { turn: spec_digits_val(t.take(k)) as i32, control: gc },
            ),
        }
    }
}

/// No control signal's token contains the delimiter.
pub proof fn lemma_control_no_semi(gc: GameControl)
    ensures
        forall|i: int| 0 <= i < gc.spec_str().len() ==> gc.spec_str()[i] != ';',
{
    crate::game_control::lemma_game_control_token_facts();
    let w = gc.spec_str();
    assert forall|i: int| 0 <= i < w.len() implies w[i] != ';' by {
        reveal_strlit("TakebackRequest(White)");
        reveal_strlit("TakebackRequest(Black)");
        reveal_strlit("TakebackAccept");
        reveal_strlit("TakebackReject(White)");
        reveal_strlit("TakebackReject(Black)");
        reveal_strlit("DrawOffer(White)");
        reveal_strlit("DrawOffer(Black)");
        reveal_strlit("DrawAccept");
        reveal_strlit("DrawReject(White)");
        reveal_strlit("DrawReject(Black)");
        reveal_strlit("Resign(White)");
        reveal_strlit("Resign(Black)");
    }
}

/// Encoding then parsing one control record yields it back, and its
/// token is delimiter-free.
pub proof fn lemma_entry_roundtrip(e: ControlEntry)
    requires
        e.turn >= 0,
    ensures
        valid_token(spec_encode_entry(e)),
        spec_parse_entry(spec_encode_entry(e)) == Some(e),
{
    let d = spec_digits(e.turn as nat);
    lemma_digits_roundtrip(e.turn as nat);
    let w = e.control.spec_str();
    lemma_control_no_semi(e.control);
    let t = spec_encode_entry(e);
    let n = d.len() as int;
    assert(t.len() == n + 2 + w.len());
    assert forall|i: int| 0 <= i < n implies d[i] != '.' && d[i] != ';' by {
        assert(is_digit_char(d[i]));
    }
    assert(t[n] == '.');
    assert forall|m: int| 0 <= m < n implies t[m] != '.' by {
        assert(t[m] == d[m]);
    }
    lemma_find_idx_is(t, '.', n);
    assert(t[n + 1] == ' ');
    assert(t.take(n) =~= d);
    assert(t.skip(n + 2) =~= w);
    crate::game_control::lemma_game_control_roundtrip(e.control);
    assert forall|i: int| 0 <= i < t.len() implies t[i] != ';' by {
        if i < n {
            assert(t[i] == d[i]);
        } else if i >= n + 2 {
            assert(t[i] == w[i - n - 2]);
        }
    }
    assert(spec_parse_entry(t) == Some(e));
}

/// The tokens of a control log.
pub open spec fn entry_tokens(log: Seq<ControlEntry>) -> Seq<Seq<char>> {
    log.map_values(|e: ControlEntry| spec_encode_entry(e))
}

/// The persisted form of a control log.
pub open spec fn spec_encode_control_log(log: Seq<ControlEntry>) -> Seq<char> {
    spec_encode_tokens(entry_tokens(log))
}

/// What decoding a persisted control log yields: the records, when the
/// text splits into tokens and each token parses.
pub open spec fn spec_decode_control_log(s: Seq<char>) -> Option<Seq<ControlEntry>> {
    match spec_decode_tokens(s) {
        None => None,
        Some(toks) => {
            if forall|i: int| 0 <= i < toks.len() ==> (#[trigger] spec_parse_entry(toks[i])) is Some {
                Some(
                    Seq::new(
                        toks.len(),
                        |i: int|
                            match spec_parse_entry(toks[i]) {
                                Some(e) => e,
                                None => ControlEntry { turn: 0, control: GameControl::DrawAccept },
                            },
                    ),
                )
            } else {
                None
            }
        },
    }
}

/// Round trip for the control log: encoding any sequence of records and
/// decoding it yields the original sequence, the empty one included.
pub proof fn lemma_control_log_roundtrip(log: Seq<ControlEntry>)
    requires
        forall|i: int| 0 <= i < log.len() ==> 0 <= (#[trigger] log[i]).turn,
    ensures
        spec_decode_control_log(spec_encode_control_log(log)) == Some(log),
{
    let toks = entry_tokens(log);
    assert forall|i: int| 0 <= i < toks.len() implies valid_token(#[trigger] toks[i]) by {
        lemma_entry_roundtrip(log[i]);
    }
    lemma_tokens_roundtrip(toks);
    assert forall|i: int|
        0 <= i < toks.len() implies (#[trigger] spec_parse_entry(toks[i])) == Some(log[i]) by {
        lemma_entry_roundtrip(log[i]);
    }
    let decoded = spec_decode_control_log(spec_encode_control_log(log));
    assert(decoded is Some);
    assert(decoded->Some_0 =~= log);
}

/// Parses one `<turn>. <signal>` token.
fn parse_entry(t: &str) -> (r: Result<ControlEntry, GameError>)
    ensures
        match r {
            Ok(e) => spec_parse_entry(t@) == Some(e) && e.turn >= 0,
            Err(err) => spec_parse_entry(t@) is None && err.is_parsing_error(),
        },
{
    let len = t.unicode_len();
    let mut j: usize = 0;
    while j < len && t.get_char(j) != '.'
        invariant
            0 <= j <= len,
            len == t@.len(),
            forall|m: int| 0 <= m < j ==> t@[m] != '.',
        decreases len - j,
    {
        j += 1;
    }
    if j == len {
        proof {
            lemma_find_idx(t@, '.');
            let k = spec_find_idx(t@, '.');
            if k != -1 {
                assert(t@[k] == '.');
            }
        }
        return Err(GameError::ParsingError {
            found: t.to_owned(),
            typ: "game control record".to_owned(),
        });
    }
    proof {
        lemma_find_idx_is(t@, '.', j as int);
    }
    if j == 0 {
        return Err(GameError::ParsingError {
            found: t.to_owned(),
            typ: "game control record".to_owned(),
        });
    }
    if j + 1 >= len {
        return Err(GameError::ParsingError {
            found: t.to_owned(),
            typ: "game control record".to_owned(),
        });
    }
    if t.get_char(j + 1) != ' ' {
        return Err(GameError::ParsingError {
            found: t.to_owned(),
            typ: "game control record".to_owned(),
        });
    }
    let ghost digits = t@.take(j as int);
    let mut acc: u64 = 0;
    let mut m: usize = 0;
    while m < j
        invariant
            0 <= m <= j,
            1 <= j,
            j + 1 < len,
            len == t@.len(),
            spec_find_idx(t@, '.') == j as int,
            t@[j + 1] == ' ',
            digits == t@.take(j as int),
            forall|x: int| 0 <= x < m ==> is_digit_char(#[trigger] t@[x]),
            acc == spec_digits_val(t@.take(m as int)),
            acc <= i32::MAX as u64,
        decreases j - m,
    {
        match char_to_digit(t.get_char(m)) {
            None => {
                proof {
                    assert(!is_digit_char(digits[m as int]));
                    assert(!all_digits(digits));
                }
                return Err(GameError::ParsingError {
                    found: t.to_owned(),
                    typ: "game control record".to_owned(),
                });
            },
            Some(d) => {
                let next: u64 = acc * 10 + (d as u64);
                proof {
                    assert(t@.take(m + 1).drop_last() =~= t@.take(m as int));
                    assert(t@.take(m + 1).last() == t@[m as int]);
                    assert(next == spec_digits_val(t@.take(m + 1)));
                }
                if next > 2147483647u64 {
                    proof {
                        if all_digits(digits) {
                            lemma_digits_val_prefix(digits, m + 1);
                            assert(digits.take(m + 1) =~= t@.take(m + 1));
                            assert(spec_digits_val(digits) > i32::MAX);
                        }
                    }
                    return Err(GameError::ParsingError {
                        found: t.to_owned(),
                        typ: "game control record".to_owned(),
                    });
                }
                acc = next;
            },
        }
        m += 1;
    }
    proof {
        assert(all_digits(digits));
        lemma_digits_val_nonneg(digits);
    }
    let ctl = t.substring_char(j + 2, len);
    match GameControl::from_str(ctl) {
        Ok(gc) => {
            proof {
                assert(t@.skip(j + 2) =~= ctl@);
            }
            Ok(ControlEntry { turn: acc as i32, control: gc })
        },
        Err(e) => {
            proof {
                assert(t@.skip(j + 2) =~= ctl@);
            }
            Err(e)
        },
    }
}

/// Encodes a control-history log.
pub fn encode_control_history(log: &Vec<ControlEntry>) -> (r: String)
    requires
        forall|i: int| 0 <= i < log@.len() ==> 0 <= (#[trigger] log@[i]).turn,
    ensures
        r@ == spec_encode_control_log(log@),
{
    let mut v: Vec<char> = Vec::new();
    let mut i: usize = 0;
    while i < log.len()
        invariant
            0 <= i <= log@.len(),
            forall|x: int| 0 <= x < log@.len() ==> 0 <= (#[trigger] log@[x]).turn,
            v@ == spec_encode_tokens(entry_tokens(log@).take(i as int)),
        decreases log@.len() - i,
    {
        let e = log[i];
        push_digits(&mut v, e.turn as u32);
        v.push('.');
        v.push(' ');
        let cs = e.control.to_string();
        push_str_chars(&mut v, cs.as_str());
        v.push(';');
        proof {
            let tv = entry_tokens(log@);
            assert(tv.take(i + 1) =~= tv.take(i as int).push(tv[i as int]));
            lemma_encode_tokens_snoc(tv.take(i as int), tv[i as int]);
            assert(v@ =~= spec_encode_tokens(tv.take(i as int)) + tv[i as int] + seq![';']);
        }
        i += 1;
    }
    proof {
        assert(entry_tokens(log@).take(log@.len() as int) =~= entry_tokens(log@));
    }
    chars_to_string(&v)
}

/// Decodes a persisted control-history log back into its records:
/// succeeds exactly when every token has the shape `<turn>. <signal>`.
pub fn decode_control_history(s: &str) -> (r: Result<Vec<ControlEntry>, GameError>)
    ensures
        match r {
            Ok(es) => spec_decode_control_log(s@) == Some(es@) && (forall|i: int|
                0 <= i < es@.len() ==> 0 <= (#[trigger] es@[i]).turn),
            Err(e) => spec_decode_control_log(s@) is None && e.is_parsing_error(),
        },
{
    proof {
        assert(s@.skip(0) =~= s@);
    }
    let toks = decode_tokens_from(s, 0)?;
    let ghost tv = strings_view(toks@);
    let mut es: Vec<ControlEntry> = Vec::new();
    let mut i: usize = 0;
    while i < toks.len()
        invariant
            0 <= i <= toks@.len(),
            tv == strings_view(toks@),
            spec_decode_tokens(s@) == Some(tv),
            es@.len() == i,
            forall|m: int|
                0 <= m < i ==> (#[trigger] spec_parse_entry(tv[m])) == Some(es@[m]),
            forall|m: int| 0 <= m < i ==> 0 <= (#[trigger] es@[m]).turn,
        decreases toks@.len() - i,
    {
        match parse_entry(toks[i].as_str()) {
            Ok(e) => {
                es.push(e);
            },
            Err(err) => {
                proof {
                    assert(spec_parse_entry(tv[i as int]) is None);
                }
                return Err(err);
            },
        }
        i += 1;
    }
    proof {
        let decoded = spec_decode_control_log(s@);
        assert(forall|m: int|
            0 <= m < tv.len() ==> (#[trigger] spec_parse_entry(tv[m])) is Some);
        assert(decoded is Some);
        assert(decoded->Some_0 =~= es@);
    }
    Ok(es)
}

} // verus!
