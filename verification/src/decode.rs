use vstd::prelude::*;
use crate::numbers::{
    is_digit, is_hex_digit, digit_val, hex_val, sp_dec_val, lemma_dec_val_prefix_le,
};
use crate::event::{Event, EventV};
use crate::filter::{Filter, FilterV, TagQuery, TagQueryV};
use crate::messages::{ClientMessage, ClientMessageV, DecodeError};
use crate::strings::chars_to_string;

verus! {

// The inbound grammar is parsed positionally: every parser takes the frame's
// characters and a position, and on success returns the parsed value and the
// position just after it. The relay accepts the canonical writing of each
// message — the field order of the protocol description, no stray
// whitespace — and answers anything else with a decode error, which the
// connection survives.

/// Consumes the exact literal `lit` at position `i`.
pub open spec fn sp_lit(s: Seq<char>, i: int, lit: Seq<char>) -> Option<int> {
    if 0 <= i && i + lit.len() <= s.len() && s.subrange(i, i + lit.len()) == lit {
        Some(i + lit.len())
    } else {
        None
    }
}

/// Prepends a character to the string a parser returned.
pub open spec fn sp_cons_str(c: char, r: Option<(Seq<char>, int)>) -> Option<(Seq<char>, int)> {
    match r {
        Some((t, j)) => Some((seq![c] + t, j)),
        None => None,
    }
}

/// Consumes the body of a JSON string up to and including the closing quote,
/// undoing escapes. Control characters must arrive escaped.
pub open spec fn sp_str_body(s: Seq<char>, i: int) -> Option<(Seq<char>, int)>
    decreases s.len() - i,
{
    if i < 0 || i >= s.len() {
        None
    } else if s[i] == '"' {
        Some((Seq::empty(), i + 1))
    } else if s[i] == '\\' {
        if i + 1 >= s.len() {
            None
        } else if s[i + 1] == '"' {
            sp_cons_str('"', sp_str_body(s, i + 2))
        } else if s[i + 1] == '\\' {
            sp_cons_str('\\', sp_str_body(s, i + 2))
        } else if s[i + 1] == '/' {
            sp_cons_str('/', sp_str_body(s, i + 2))
        } else if s[i + 1] == 'n' {
            sp_cons_str('\n', sp_str_body(s, i + 2))
        } else if s[i + 1] == 'r' {
            sp_cons_str('\r', sp_str_body(s, i + 2))
        } else if s[i + 1] == 't' {
            sp_cons_str('\t', sp_str_body(s, i + 2))
        } else if s[i + 1] == 'u' {
            if i + 6 <= s.len() && s[i + 2] == '0' && s[i + 3] == '0' && is_hex_digit(s[i + 4])
                && is_hex_digit(s[i + 5]) {
                sp_cons_str(
                    (((hex_val(s[i + 4]) * 16 + hex_val(s[i + 5])) as u32) as char),
                    sp_str_body(s, i + 6),
                )
            } else {
                None
            }
        } else {
            None
        }
    } else if (s[i] as u32) < 32 {
        None
    } else {
        sp_cons_str(s[i], sp_str_body(s, i + 1))
    }
}

/// Consumes a whole JSON string, opening quote included.
pub open spec fn sp_jstring(s: Seq<char>, i: int) -> Option<(Seq<char>, int)> {
    if 0 <= i && i < s.len() && s[i] == '"' {
        sp_str_body(s, i + 1)
    } else {
        None
    }
}

/// A string-body parse always moves forward and never runs past the end.
pub proof fn lemma_str_body_advances(s: Seq<char>, i: int)
    ensures
        sp_str_body(s, i) matches Some((t, j)) ==> i < j <= s.len(),
    decreases s.len() - i,
{
    if 0 <= i && i < s.len() {
        lemma_str_body_advances(s, i + 1);
        if i + 2 <= s.len() {
            lemma_str_body_advances(s, i + 2);
        }
        if i + 6 <= s.len() {
            lemma_str_body_advances(s, i + 6);
        }
    }
}

/// A string parse always moves forward and never runs past the end.
pub proof fn lemma_jstring_advances(s: Seq<char>, i: int)
    ensures
        sp_jstring(s, i) matches Some((t, j)) ==> i < j <= s.len(),
{
    lemma_str_body_advances(s, i + 1);
}

/// The position just after the run of decimal digits starting at `i`.
pub open spec fn digit_run_end(s: Seq<char>, i: int) -> int
    decreases s.len() - i,
{
    if 0 <= i && i < s.len() && is_digit(s[i]) {
        digit_run_end(s, i + 1)
    } else {
        i
    }
}

/// A digit run stays inside the string and is made of digits.
pub proof fn lemma_digit_run_end(s: Seq<char>, i: int)
    requires
        0 <= i <= s.len(),
    ensures
        i <= digit_run_end(s, i) <= s.len(),
        forall|k: int| i <= k < digit_run_end(s, i) ==> is_digit(#[trigger] s[k]),
        digit_run_end(s, i) < s.len() ==> !is_digit(s[digit_run_end(s, i)]),
    decreases s.len() - i,
{
    if i < s.len() && is_digit(s[i]) {
        lemma_digit_run_end(s, i + 1);
    }
}

/// Consumes a decimal number: at least one digit, value fitting a `u64`.
pub open spec fn sp_num(s: Seq<char>, i: int) -> Option<(u64, int)> {
    let j = digit_run_end(s, i);
    if j > i && sp_dec_val(s.subrange(i, j)) <= u64::MAX {
        Some((sp_dec_val(s.subrange(i, j)) as u64, j))
    } else {
        None
    }
}

/// Matches the exact literal `lit` at position `i`.
pub fn p_lit(s: &Vec<char>, i: usize, lit: &str) -> (r: Option<usize>)
    ensures
        match r {
            Some(j) => sp_lit(s@, i as int, lit@) == Some(j as int) && i <= j <= s@.len() && (lit@.len()
                > 0 ==> i < j),
            None => sp_lit(s@, i as int, lit@) is None,
        },
{
    let v = crate::strings::string_to_chars(lit);
    if i > s.len() || v.len() > s.len() - i {
        return None;
    }
    if v.len() == 0 {
        proof {
            assert(s@.subrange(i as int, i as int) =~= lit@);
        }
        return Some(i);
    }
    let mut k: usize = 0;
    while k < v.len()
        invariant
            0 <= k <= v@.len(),
            v@ == lit@,
            i + v@.len() <= s@.len(),
            s@.len() <= usize::MAX,
            forall|m: int| 0 <= m < k ==> s@[i + m] == v@[m],
        decreases v@.len() - k,
    {
        if s[i + k] != v[k] {
            proof {
                assert(s@.subrange(i as int, i + lit@.len()) != lit@) by {
                    assert(s@.subrange(i as int, i + lit@.len())[k as int] == s@[i + k]);
                }
            }
            return None;
        }
        k = k + 1;
    }
    proof {
        assert(s@.subrange(i as int, i + lit@.len()) =~= lit@);
    }
    Some(i + v.len())
}

/// Prepends a character to a parsed string fragment.
fn cons_char(c: char, r: Option<(Vec<char>, usize)>) -> (res: Option<(Vec<char>, usize)>)
    ensures
        match res {
            Some((t, j)) => r matches Some((t0, j0)) && t@ == seq![c] + t0@ && j == j0,
            None => r is None,
        },
{
    match r {
        Some((mut t, j)) => {
            t.insert(0, c);
            proof {
                assert(t@ =~= seq![c] + t@.subrange(1, t@.len() as int));
            }
            Some((t, j))
        },
        None => None,
    }
}

/// The numeric value of a hexadecimal digit.
fn hex_val_of(c: char) -> (n: u32)
    requires
        is_hex_digit(c),
    ensures
        n == hex_val(c),
        n < 16,
{
    let cu = c as u32;
    if 48 <= cu && cu <= 57 {
        cu - 48
    } else if 97 <= cu && cu <= 102 {
        cu - 87
    } else {
        cu - 55
    }
}

/// Reads the body of a JSON string, undoing escapes, up to and including the
/// closing quote.
pub fn p_str_body(s: &Vec<char>, i: usize) -> (r: Option<(Vec<char>, usize)>)
    ensures
        match r {
            Some((t, j)) => sp_str_body(s@, i as int) == Some((t@, j as int)) && i < j <= s@.len(),
            None => sp_str_body(s@, i as int) is None,
        },
    decreases s@.len() - i,
{
    proof {
        lemma_str_body_advances(s@, i as int);
    }
    if i >= s.len() {
        return None;
    }
    let c = s[i];
    if c == '"' {
        let t: Vec<char> = Vec::new();
        proof {
            assert(t@ =~= Seq::<char>::empty());
        }
        return Some((t, i + 1));
    }
    if c == '\\' {
        if s.len() - i < 2 {
            return None;
        }
        let e = s[i + 1];
        if e == '"' {
            return cons_char('"', p_str_body(s, i + 2));
        }
        if e == '\\' {
            return cons_char('\\', p_str_body(s, i + 2));
        }
        if e == '/' {
            return cons_char('/', p_str_body(s, i + 2));
        }
        if e == 'n' {
            return cons_char('\n', p_str_body(s, i + 2));
        }
        if e == 'r' {
            return cons_char('\r', p_str_body(s, i + 2));
        }
        if e == 't' {
            return cons_char('\t', p_str_body(s, i + 2));
        }
        if e == 'u' {
            if s.len() - i < 6 {
                return None;
            }
            if s[i + 2] != '0' || s[i + 3] != '0' {
                return None;
            }
            let h1 = s[i + 4];
            let h2 = s[i + 5];
            let h1u = h1 as u32;
            let h2u = h2 as u32;
            let h1_ok = (48 <= h1u && h1u <= 57) || (97 <= h1u && h1u <= 102) || (65 <= h1u && h1u
                <= 70);
            let h2_ok = (48 <= h2u && h2u <= 57) || (97 <= h2u && h2u <= 102) || (65 <= h2u && h2u
                <= 70);
            if !h1_ok || !h2_ok {
                return None;
            }
            let code: u32 = hex_val_of(h1) * 16 + hex_val_of(h2);
            let parsed: char = (code as u8) as char;
            proof {
                assert(code < 256);
                assert(parsed == ((hex_val(s@[i + 4]) * 16 + hex_val(s@[i + 5])) as u32) as char);
            }
            return cons_char(parsed, p_str_body(s, i + 6));
        }
        return None;
    }
    if (c as u32) < 32 {
        return None;
    }
    cons_char(c, p_str_body(s, i + 1))
}

/// Reads a whole JSON string, opening quote included.
pub fn p_jstring(s: &Vec<char>, i: usize) -> (r: Option<(Vec<char>, usize)>)
    ensures
        match r {
            Some((t, j)) => sp_jstring(s@, i as int) == Some((t@, j as int)) && i < j <= s@.len(),
            None => sp_jstring(s@, i as int) is None,
        },
{
    if i >= s.len() {
        return None;
    }
    if s[i] != '"' {
        return None;
    }
    p_str_body(s, i + 1)
}

/// Reads a decimal number: at least one digit, value fitting a `u64`.
pub fn p_num(s: &Vec<char>, i: usize) -> (r: Option<(u64, usize)>)
    ensures
        match r {
            Some((n, j)) => sp_num(s@, i as int) == Some((n, j as int)) && i < j <= s@.len(),
            None => sp_num(s@, i as int) is None,
        },
{
    if i > s.len() {
        proof {
            assert(digit_run_end(s@, i as int) == i as int);
        }
        return None;
    }
    proof {
        lemma_digit_run_end(s@, i as int);
    }
    let mut j: usize = i;
    while j < s.len() && 48 <= (s[j] as u32) && (s[j] as u32) <= 57
        invariant
            i <= j <= s@.len(),
            digit_run_end(s@, i as int) == digit_run_end(s@, j as int),
            forall|k: int| i <= k < j ==> is_digit(#[trigger] s@[k]),
        decreases s@.len() - j,
    {
        j = j + 1;
    }
    proof {
        assert(digit_run_end(s@, j as int) == j as int);
    }
    let ghost run = s@.subrange(i as int, j as int);
    if j == i {
        return None;
    }
    let mut acc: u64 = 0;
    let mut k: usize = i;
    while k < j
        invariant
            i <= k <= j <= s@.len(),
            i < j,
            digit_run_end(s@, i as int) == j as int,
            run == s@.subrange(i as int, j as int),
            forall|m: int| i <= m < j ==> is_digit(#[trigger] s@[m]),
            acc == sp_dec_val(s@.subrange(i as int, k as int)),
        decreases j - k,
    {
        let d: u64 = (s[k] as u32 - 48) as u64;
        proof {
            assert(s@.subrange(i as int, k + 1).drop_last() =~= s@.subrange(i as int, k as int));
            assert(s@.subrange(i as int, k + 1).last() == s@[k as int]);
        }
        if acc > (u64::MAX - d) / 10 {
            proof {
                let ghost mx: int = u64::MAX as int;
                assert(sp_dec_val(s@.subrange(i as int, k + 1)) == sp_dec_val(
                    s@.subrange(i as int, k as int),
                ) * 10 + digit_val(s@[k as int]));
                assert(acc * 10 + d > mx) by (nonlinear_arith)
                    requires
                        acc > (mx - d) / 10,
                        0 <= d <= 9,
                        acc >= 0,
                        mx == 18446744073709551615,
                ;
                assert(sp_dec_val(s@.subrange(i as int, k + 1)) > u64::MAX);
                assert(run.subrange(0, k + 1 - i) =~= s@.subrange(i as int, k + 1));
                lemma_dec_val_prefix_le(run, k + 1 - i);
            }
            return None;
        }
        acc = acc * 10 + d;
        k = k + 1;
    }
    proof {
        assert(s@.subrange(i as int, j as int) == run);
    }
    Some((acc, j))
}

/// The items of a string array after the first: a comma and a string each,
/// closed by `]`.
pub open spec fn sp_str_items(s: Seq<char>, i: int) -> Option<(Seq<Seq<char>>, int)>
    decreases s.len() - i,
    via sp_str_items_dec
{
    if i < 0 || i >= s.len() {
        None
    } else if s[i] == ']' {
        Some((Seq::empty(), i + 1))
    } else if s[i] == ',' {
        match sp_jstring(s, i + 1) {
            Some((x, j)) => match sp_str_items(s, j) {
                Some((xs, k)) => Some((seq![x] + xs, k)),
                None => None,
            },
            None => None,
        }
    } else {
        None
    }
}

#[via_fn]
proof fn sp_str_items_dec(s: Seq<char>, i: int) {
    lemma_jstring_advances(s, i + 1);
}

/// A JSON array of strings.
pub open spec fn sp_str_array_p(s: Seq<char>, i: int) -> Option<(Seq<Seq<char>>, int)> {
    if 0 <= i && i < s.len() && s[i] == '[' {
        if i + 1 < s.len() && s[i + 1] == ']' {
            Some((Seq::empty(), i + 2))
        } else {
            match sp_jstring(s, i + 1) {
                Some((x, j)) => match sp_str_items(s, j) {
                    Some((xs, k)) => Some((seq![x] + xs, k)),
                    None => None,
                },
                None => None,
            }
        }
    } else {
        None
    }
}

/// A string-items parse always moves forward and never runs past the end.
pub proof fn lemma_str_items_advances(s: Seq<char>, i: int)
    ensures
        sp_str_items(s, i) matches Some((xs, j)) ==> i < j <= s.len(),
    decreases s.len() - i,
{
    if 0 <= i && i < s.len() && s[i] == ',' {
        lemma_jstring_advances(s, i + 1);
        match sp_jstring(s, i + 1) {
            Some((x, j)) => lemma_str_items_advances(s, j),
            None => {},
        }
    }
}

/// A string-array parse always moves forward and never runs past the end.
pub proof fn lemma_str_array_advances(s: Seq<char>, i: int)
    ensures
        sp_str_array_p(s, i) matches Some((xs, j)) ==> i < j <= s.len(),
{
    lemma_jstring_advances(s, i + 1);
    match sp_jstring(s, i + 1) {
        Some((x, j)) => lemma_str_items_advances(s, j),
        None => {},
    }
}

/// The items of a tags array after the first: a comma and a string array
/// each, closed by `]`.
pub open spec fn sp_tag_items(s: Seq<char>, i: int) -> Option<(Seq<Seq<Seq<char>>>, int)>
    decreases s.len() - i,
    via sp_tag_items_dec
{
    if i < 0 || i >= s.len() {
        None
    } else if s[i] == ']' {
        Some((Seq::empty(), i + 1))
    } else if s[i] == ',' {
        match sp_str_array_p(s, i + 1) {
            Some((x, j)) => match sp_tag_items(s, j) {
                Some((xs, k)) => Some((seq![x] + xs, k)),
                None => None,
            },
            None => None,
        }
    } else {
        None
    }
}

#[via_fn]
proof fn sp_tag_items_dec(s: Seq<char>, i: int) {
    lemma_str_array_advances(s, i + 1);
}

/// A JSON array of string arrays: the writing of an event's tags.
pub open spec fn sp_tags_p(s: Seq<char>, i: int) -> Option<(Seq<Seq<Seq<char>>>, int)> {
    if 0 <= i && i < s.len() && s[i] == '[' {
        if i + 1 < s.len() && s[i + 1] == ']' {
            Some((Seq::empty(), i + 2))
        } else {
            match sp_str_array_p(s, i + 1) {
                Some((x, j)) => match sp_tag_items(s, j) {
                    Some((xs, k)) => Some((seq![x] + xs, k)),
                    None => None,
                },
                None => None,
            }
        }
    } else {
        None
    }
}

/// A tags parse always moves forward and never runs past the end.
pub proof fn lemma_tag_items_advances(s: Seq<char>, i: int)
    ensures
        sp_tag_items(s, i) matches Some((xs, j)) ==> i < j <= s.len(),
    decreases s.len() - i,
{
    if 0 <= i && i < s.len() && s[i] == ',' {
        lemma_str_array_advances(s, i + 1);
        match sp_str_array_p(s, i + 1) {
            Some((x, j)) => lemma_tag_items_advances(s, j),
            None => {},
        }
    }
}

/// A tags-array parse always moves forward and never runs past the end.
pub proof fn lemma_tags_advances(s: Seq<char>, i: int)
    ensures
        sp_tags_p(s, i) matches Some((xs, j)) ==> i < j <= s.len(),
{
    lemma_str_array_advances(s, i + 1);
    match sp_str_array_p(s, i + 1) {
        Some((x, j)) => lemma_tag_items_advances(s, j),
        None => {},
    }
}

/// Prepends a parsed string to a parsed list of strings.
fn cons_string(x: Vec<char>, r: Option<(Vec<String>, usize)>) -> (res: Option<(Vec<String>, usize)>)
    ensures
        match res {
            Some((xs, j)) => r matches Some((xs0, j0)) && xs.deep_view() == seq![x@]
                + xs0.deep_view() && j == j0,
            None => r is None,
        },
{
    match r {
        Some((mut xs, j)) => {
            let ghost before = xs.deep_view();
            xs.insert(0, crate::strings::chars_to_string(&x));
            proof {
                assert(forall|m: int| 0 <= m < before.len() ==> xs.deep_view()[m + 1]
                    == before[m]);
                assert(xs.deep_view() =~= seq![x@] + before);
            }
            Some((xs, j))
        },
        None => None,
    }
}

/// Prepends a parsed string array to a parsed list of them.
fn cons_tag(x: Vec<String>, r: Option<(Vec<Vec<String>>, usize)>) -> (res: Option<(
    Vec<Vec<String>>,
    usize,
)>)
    ensures
        match res {
            Some((xs, j)) => r matches Some((xs0, j0)) && xs.deep_view() == seq![x.deep_view()]
                + xs0.deep_view() && j == j0,
            None => r is None,
        },
{
    match r {
        Some((mut xs, j)) => {
            let ghost before = xs.deep_view();
            let ghost xv = x.deep_view();
            xs.insert(0, x);
            proof {
                assert(forall|m: int| 0 <= m < before.len() ==> xs.deep_view()[m + 1]
                    == before[m]);
                assert(xs.deep_view() =~= seq![xv] + before);
            }
            Some((xs, j))
        },
        None => None,
    }
}

/// Reads the items of a string array after the first.
pub fn p_str_items(s: &Vec<char>, i: usize) -> (r: Option<(Vec<String>, usize)>)
    ensures
        match r {
            Some((xs, j)) => sp_str_items(s@, i as int) == Some((xs.deep_view(), j as int)) && i < j
                <= s@.len(),
            None => sp_str_items(s@, i as int) is None,
        },
    decreases s@.len() - i,
{
    if i >= s.len() {
        return None;
    }
    let c = s[i];
    if c == ']' {
        let xs: Vec<String> = Vec::new();
        proof {
            assert(xs.deep_view() =~= Seq::<Seq<char>>::empty());
        }
        return Some((xs, i + 1));
    }
    if c != ',' {
        return None;
    }
    match p_jstring(s, i + 1) {
        Some((x, j)) => cons_string(x, p_str_items(s, j)),
        None => None,
    }
}

/// Reads a JSON array of strings.
pub fn p_str_array(s: &Vec<char>, i: usize) -> (r: Option<(Vec<String>, usize)>)
    ensures
        match r {
            Some((xs, j)) => sp_str_array_p(s@, i as int) == Some((xs.deep_view(), j as int)) && i
                < j <= s@.len(),
            None => sp_str_array_p(s@, i as int) is None,
        },
{
    if i >= s.len() {
        return None;
    }
    if s[i] != '[' {
        return None;
    }
    if i + 1 < s.len() && s[i + 1] == ']' {
        let xs: Vec<String> = Vec::new();
        proof {
            assert(xs.deep_view() =~= Seq::<Seq<char>>::empty());
        }
        return Some((xs, i + 2));
    }
    match p_jstring(s, i + 1) {
        Some((x, j)) => cons_string(x, p_str_items(s, j)),
        None => None,
    }
}

/// Reads the items of a tags array after the first.
pub fn p_tag_items(s: &Vec<char>, i: usize) -> (r: Option<(Vec<Vec<String>>, usize)>)
    ensures
        match r {
            Some((xs, j)) => sp_tag_items(s@, i as int) == Some((xs.deep_view(), j as int)) && i < j
                <= s@.len(),
            None => sp_tag_items(s@, i as int) is None,
        },
    decreases s@.len() - i,
{
    if i >= s.len() {
        return None;
    }
    let c = s[i];
    if c == ']' {
        let xs: Vec<Vec<String>> = Vec::new();
        proof {
            assert(xs.deep_view() =~= Seq::<Seq<Seq<char>>>::empty());
        }
        return Some((xs, i + 1));
    }
    if c != ',' {
        return None;
    }
    match p_str_array(s, i + 1) {
        Some((x, j)) => cons_tag(x, p_tag_items(s, j)),
        None => None,
    }
}

/// Reads a JSON array of string arrays.
pub fn p_tags(s: &Vec<char>, i: usize) -> (r: Option<(Vec<Vec<String>>, usize)>)
    ensures
        match r {
            Some((xs, j)) => sp_tags_p(s@, i as int) == Some((xs.deep_view(), j as int)) && i < j
                <= s@.len(),
            None => sp_tags_p(s@, i as int) is None,
        },
{
    if i >= s.len() {
        return None;
    }
    if s[i] != '[' {
        return None;
    }
    if i + 1 < s.len() && s[i + 1] == ']' {
        let xs: Vec<Vec<String>> = Vec::new();
        proof {
            assert(xs.deep_view() =~= Seq::<Seq<Seq<char>>>::empty());
        }
        return Some((xs, i + 2));
    }
    match p_str_array(s, i + 1) {
        Some((x, j)) => cons_tag(x, p_tag_items(s, j)),
        None => None,
    }
}

/// A number parse always moves forward and never runs past the end.
pub proof fn lemma_num_advances(s: Seq<char>, i: int)
    ensures
        sp_num(s, i) matches Some((n, j)) ==> i < j <= s.len(),
{
    if 0 <= i && i <= s.len() {
        lemma_digit_run_end(s, i);
    }
}

/// The items of a kind array after the first: a comma and a kind number each,
/// closed by `]`.
pub open spec fn sp_u16_items(s: Seq<char>, i: int) -> Option<(Seq<u16>, int)>
    decreases s.len() - i,
    via sp_u16_items_dec
{
    if i < 0 || i >= s.len() {
        None
    } else if s[i] == ']' {
        Some((Seq::empty(), i + 1))
    } else if s[i] == ',' {
        match sp_num(s, i + 1) {
            Some((n, j)) => if n <= u16::MAX {
                match sp_u16_items(s, j) {
                    Some((xs, k)) => Some((seq![n as u16] + xs, k)),
                    None => None,
                }
            } else {
                None
            },
            None => None,
        }
    } else {
        None
    }
}

#[via_fn]
proof fn sp_u16_items_dec(s: Seq<char>, i: int) {
    lemma_num_advances(s, i + 1);
}

/// A JSON array of kind numbers.
pub open spec fn sp_u16_array_p(s: Seq<char>, i: int) -> Option<(Seq<u16>, int)> {
    if 0 <= i && i < s.len() && s[i] == '[' {
        if i + 1 < s.len() && s[i + 1] == ']' {
            Some((Seq::empty(), i + 2))
        } else {
            match sp_num(s, i + 1) {
                Some((n, j)) => if n <= u16::MAX {
                    match sp_u16_items(s, j) {
                        Some((xs, k)) => Some((seq![n as u16] + xs, k)),
                        None => None,
                    }
                } else {
                    None
                },
                None => None,
            }
        }
    } else {
        None
    }
}

/// A kind-items parse always moves forward and never runs past the end.
pub proof fn lemma_u16_items_advances(s: Seq<char>, i: int)
    ensures
        sp_u16_items(s, i) matches Some((xs, j)) ==> i < j <= s.len(),
    decreases s.len() - i,
{
    if 0 <= i && i < s.len() && s[i] == ',' {
        lemma_num_advances(s, i + 1);
        match sp_num(s, i + 1) {
            Some((n, j)) => lemma_u16_items_advances(s, j),
            None => {},
        }
    }
}

/// A kind-array parse always moves forward and never runs past the end.
pub proof fn lemma_u16_array_advances(s: Seq<char>, i: int)
    ensures
        sp_u16_array_p(s, i) matches Some((xs, j)) ==> i < j <= s.len(),
{
    lemma_num_advances(s, i + 1);
    match sp_num(s, i + 1) {
        Some((n, j)) => lemma_u16_items_advances(s, j),
        None => {},
    }
}

/// Prepends a parsed kind to a parsed list of kinds.
fn cons_u16(n: u16, r: Option<(Vec<u16>, usize)>) -> (res: Option<(Vec<u16>, usize)>)
    ensures
        match res {
            Some((xs, j)) => r matches Some((xs0, j0)) && xs@ == seq![n] + xs0@ && j == j0,
            None => r is None,
        },
{
    match r {
        Some((mut xs, j)) => {
            xs.insert(0, n);
            proof {
                assert(xs@ =~= seq![n] + xs@.subrange(1, xs@.len() as int));
            }
            Some((xs, j))
        },
        None => None,
    }
}

/// Reads the items of a kind array after the first.
pub fn p_u16_items(s: &Vec<char>, i: usize) -> (r: Option<(Vec<u16>, usize)>)
    ensures
        match r {
            Some((xs, j)) => sp_u16_items(s@, i as int) == Some((xs@, j as int)) && i < j
                <= s@.len(),
            None => sp_u16_items(s@, i as int) is None,
        },
    decreases s@.len() - i,
{
    if i >= s.len() {
        return None;
    }
    let c = s[i];
    if c == ']' {
        let xs: Vec<u16> = Vec::new();
        proof {
            assert(xs@ =~= Seq::<u16>::empty());
        }
        return Some((xs, i + 1));
    }
    if c != ',' {
        return None;
    }
    match p_num(s, i + 1) {
        Some((n, j)) => if n <= u16::MAX as u64 {
            cons_u16(n as u16, p_u16_items(s, j))
        } else {
            None
        },
        None => None,
    }
}

/// Reads a JSON array of kind numbers.
pub fn p_u16_array(s: &Vec<char>, i: usize) -> (r: Option<(Vec<u16>, usize)>)
    ensures
        match r {
            Some((xs, j)) => sp_u16_array_p(s@, i as int) == Some((xs@, j as int)) && i < j
                <= s@.len(),
            None => sp_u16_array_p(s@, i as int) is None,
        },
{
    if i >= s.len() {
        return None;
    }
    if s[i] != '[' {
        return None;
    }
    if i + 1 < s.len() && s[i + 1] == ']' {
        let xs: Vec<u16> = Vec::new();
        proof {
            assert(xs@ =~= Seq::<u16>::empty());
        }
        return Some((xs, i + 2));
    }
    match p_num(s, i + 1) {
        Some((n, j)) => if n <= u16::MAX as u64 {
            cons_u16(n as u16, p_u16_items(s, j))
        } else {
            None
        },
        None => None,
    }
}

/// Consumes the JSON object for an event, fields in their canonical order,
/// all required.
pub open spec fn sp_event_p(s: Seq<char>, i: int) -> Option<(EventV, int)> {
    match sp_lit(s, i, "{\"id\":"@) {
        None => None,
        Some(i1) => match sp_jstring(s, i1) {
            None => None,
            Some((id, i2)) => match sp_lit(s, i2, ",\"pubkey\":"@) {
                None => None,
                Some(i3) => match sp_jstring(s, i3) {
                    None => None,
                    Some((pubkey, i4)) => match sp_lit(s, i4, ",\"created_at\":"@) {
                        None => None,
                        Some(i5) => match sp_num(s, i5) {
                            None => None,
                            Some((created_at, i6)) => match sp_lit(s, i6, ",\"kind\":"@) {
                                None => None,
                                Some(i7) => match sp_num(s, i7) {
                                    None => None,
                                    Some((kind, i8)) => if kind > u16::MAX {
                                        None
                                    } else {
                                        match sp_lit(s, i8, ",\"tags\":"@) {
                                            None => None,
                                            Some(i9) => match sp_tags_p(s, i9) {
                                                None => None,
                                                Some((tags, i10)) => match sp_lit(
                                                    s,
                                                    i10,
                                                    ",\"content\":"@,
                                                ) {
                                                    None => None,
                                                    Some(i11) => match sp_jstring(s, i11) {
                                                        None => None,
                                                        Some((content, i12)) => match sp_lit(
                                                            s,
                                                            i12,
                                                            ",\"sig\":"@,
                                                        ) {
                                                            None => None,
                                                            Some(i13) => match sp_jstring(s, i13) {
                                                                None => None,
                                                                Some((sig, i14)) => match sp_lit(
                                                                    s,
                                                                    i14,
                                                                    "}"@,
                                                                ) {
                                                                    None => None,
                                                                    Some(i15) => Some(
                                                                        (
                                                                            EventV {
                                                                                id,
                                                                                pubkey,
                                                                                created_at,
                                                                                kind: kind as u16,
                                                                                tags,
                                                                                content,
                                                                                sig,
                                                                            },
                                                                            i15,
                                                                        ),
                                                                    ),
                                                                },
                                                            },
                                                        },
                                                    },
                                                },
                                            },
                                        }
                                    },
                                },
                            },
                        },
                    },
                },
            },
        },
    }
}

/// Reads the JSON object for an event.
pub fn p_event(s: &Vec<char>, i: usize) -> (r: Option<(Event, usize)>)
    ensures
        match r {
            Some((e, j)) => sp_event_p(s@, i as int) == Some((e@, j as int)) && i < j <= s@.len(),
            None => sp_event_p(s@, i as int) is None,
        },
{
    let i1 = match p_lit(s, i, "{\"id\":") {
        Some(v) => v,
        None => return None,
    };
    let (id, i2) = match p_jstring(s, i1) {
        Some(v) => v,
        None => return None,
    };
    let i3 = match p_lit(s, i2, ",\"pubkey\":") {
        Some(v) => v,
        None => return None,
    };
    let (pubkey, i4) = match p_jstring(s, i3) {
        Some(v) => v,
        None => return None,
    };
    let i5 = match p_lit(s, i4, ",\"created_at\":") {
        Some(v) => v,
        None => return None,
    };
    let (created_at, i6) = match p_num(s, i5) {
        Some(v) => v,
        None => return None,
    };
    let i7 = match p_lit(s, i6, ",\"kind\":") {
        Some(v) => v,
        None => return None,
    };
    let (kind, i8) = match p_num(s, i7) {
        Some(v) => v,
        None => return None,
    };
    if kind > u16::MAX as u64 {
        return None;
    }
    let i9 = match p_lit(s, i8, ",\"tags\":") {
        Some(v) => v,
        None => return None,
    };
    let (tags, i10) = match p_tags(s, i9) {
        Some(v) => v,
        None => return None,
    };
    let i11 = match p_lit(s, i10, ",\"content\":") {
        Some(v) => v,
        None => return None,
    };
    let (content, i12) = match p_jstring(s, i11) {
        Some(v) => v,
        None => return None,
    };
    let i13 = match p_lit(s, i12, ",\"sig\":") {
        Some(v) => v,
        None => return None,
    };
    let (sig, i14) = match p_jstring(s, i13) {
        Some(v) => v,
        None => return None,
    };
    let i15 = match p_lit(s, i14, "}") {
        Some(v) => v,
        None => return None,
    };
    let e = Event {
        id: chars_to_string(&id),
        pubkey: chars_to_string(&pubkey),
        created_at,
        kind: kind as u16,
        tags,
        content: chars_to_string(&content),
        sig: chars_to_string(&sig),
    };
    Some((e, i15))
}

/// Consumes a field key: when an earlier field was already read, the key
/// arrives with a leading comma.
pub open spec fn sp_key(s: Seq<char>, i: int, any: bool, pre: Seq<char>, bare: Seq<char>) -> Option<
    int,
> {
    if any {
        sp_lit(s, i, pre)
    } else {
        sp_lit(s, i, bare)
    }
}

/// One optional filter field holding an array of strings: absent, present
/// with a value, or a hard failure.
pub open spec fn sp_f_strs(s: Seq<char>, i: int, any: bool, pre: Seq<char>, bare: Seq<char>) -> Option<
    (Option<Seq<Seq<char>>>, int, bool),
> {
    match sp_key(s, i, any, pre, bare) {
        Some(j) => match sp_str_array_p(s, j) {
            Some((xs, k)) => Some((Some(xs), k, true)),
            None => None,
        },
        None => Some((None, i, any)),
    }
}

/// One optional filter field holding an array of kind numbers.
pub open spec fn sp_f_u16s(s: Seq<char>, i: int, any: bool, pre: Seq<char>, bare: Seq<char>) -> Option<
    (Option<Seq<u16>>, int, bool),
> {
    match sp_key(s, i, any, pre, bare) {
        Some(j) => match sp_u16_array_p(s, j) {
            Some((xs, k)) => Some((Some(xs), k, true)),
            None => None,
        },
        None => Some((None, i, any)),
    }
}

/// One optional filter field holding a number.
pub open spec fn sp_f_num(s: Seq<char>, i: int, any: bool, pre: Seq<char>, bare: Seq<char>) -> Option<
    (Option<u64>, int, bool),
> {
    match sp_key(s, i, any, pre, bare) {
        Some(j) => match sp_num(s, j) {
            Some((n, k)) => Some((Some(n), k, true)),
            None => None,
        },
        None => Some((None, i, any)),
    }
}

/// Whether `c` can be the letter of a tag constraint.
pub open spec fn is_tag_letter(c: char) -> bool {
    (97 <= c as u32 <= 122) || (65 <= c as u32 <= 90)
}

/// The tag constraints of a filter: zero or more `#X` keys, each holding an
/// array of strings.
pub open spec fn sp_tagq_items(s: Seq<char>, i: int, any: bool) -> Option<(Seq<TagQueryV>, int)>
    decreases s.len() - i,
    via sp_tagq_items_dec
{
    match sp_key(s, i, any, ",\"#"@, "\"#"@) {
        None => Some((Seq::empty(), i)),
        Some(j) => if j < s.len() && is_tag_letter(s[j]) {
            match sp_lit(s, j + 1, "\":"@) {
                Some(j2) => match sp_str_array_p(s, j2) {
                    Some((vals, j3)) => match sp_tagq_items(s, j3, true) {
                        Some((rest, j4)) => Some(
                            (seq![TagQueryV { letter: s[j], values: vals }] + rest, j4),
                        ),
                        None => None,
                    },
                    None => None,
                },
                None => None,
            }
        } else {
            None
        },
    }
}

#[via_fn]
proof fn sp_tagq_items_dec(s: Seq<char>, i: int, any: bool) {
    reveal_strlit(",\"#");
    reveal_strlit("\"#");
    reveal_strlit("\":");
    match sp_key(s, i, any, ",\"#"@, "\"#"@) {
        None => {},
        Some(j) => {
            if j < s.len() && is_tag_letter(s[j]) {
                match sp_lit(s, j + 1, "\":"@) {
                    Some(j2) => {
                        lemma_str_array_advances(s, j2);
                    },
                    None => {},
                }
            }
        },
    }
}

/// Consumes a filter object: the optional fields in canonical order, then any
/// tag constraints, inside braces.
pub open spec fn sp_filter_p(s: Seq<char>, i: int) -> Option<(FilterV, int)> {
    if !(0 <= i && i < s.len() && s[i] == '{') {
        None
    } else {
        match sp_f_strs(s, i + 1, false, ",\"ids\":"@, "\"ids\":"@) {
            None => None,
            Some((ids, i1, a1)) => match sp_f_strs(s, i1, a1, ",\"authors\":"@, "\"authors\":"@) {
                None => None,
                Some((authors, i2, a2)) => match sp_f_u16s(
                    s,
                    i2,
                    a2,
                    ",\"kinds\":"@,
                    "\"kinds\":"@,
                ) {
                    None => None,
                    Some((kinds, i3, a3)) => match sp_f_num(
                        s,
                        i3,
                        a3,
                        ",\"since\":"@,
                        "\"since\":"@,
                    ) {
                        None => None,
                        Some((since, i4, a4)) => match sp_f_num(
                            s,
                            i4,
                            a4,
                            ",\"until\":"@,
                            "\"until\":"@,
                        ) {
                            None => None,
                            Some((until, i5, a5)) => match sp_f_num(
                                s,
                                i5,
                                a5,
                                ",\"limit\":"@,
                                "\"limit\":"@,
                            ) {
                                None => None,
                                Some((limit, i6, a6)) => match sp_tagq_items(s, i6, a6) {
                                    None => None,
                                    Some((tqs, i7)) => match sp_lit(s, i7, "}"@) {
                                        None => None,
                                        Some(i8) => Some(
                                            (
                                                FilterV {
                                                    ids,
                                                    authors,
                                                    kinds,
                                                    since,
                                                    until,
                                                    limit,
                                                    tag_queries: tqs,
                                                },
                                                i8,
                                            ),
                                        ),
                                    },
                                },
                            },
                        },
                    },
                },
            },
        }
    }
}

/// Reads one optional filter field holding an array of strings.
fn p_f_strs(s: &Vec<char>, i: usize, any: bool, pre: &str, bare: &str) -> (r: Option<
    (Option<Vec<String>>, usize, bool),
>)
    requires
        i <= s@.len(),
    ensures
        match r {
            Some((v, j, a)) => sp_f_strs(s@, i as int, any, pre@, bare@) == Some(
                (
                    match v {
                        Some(xs) => Some(xs.deep_view()),
                        None => None,
                    },
                    j as int,
                    a,
                ),
            ) && i <= j <= s@.len(),
            None => sp_f_strs(s@, i as int, any, pre@, bare@) is None,
        },
{
    let key = if any {
        p_lit(s, i, pre)
    } else {
        p_lit(s, i, bare)
    };
    match key {
        Some(j) => match p_str_array(s, j) {
            Some((xs, k)) => Some((Some(xs), k, true)),
            None => None,
        },
        None => Some((None, i, any)),
    }
}

/// Reads one optional filter field holding an array of kind numbers.
fn p_f_u16s(s: &Vec<char>, i: usize, any: bool, pre: &str, bare: &str) -> (r: Option<
    (Option<Vec<u16>>, usize, bool),
>)
    requires
        i <= s@.len(),
    ensures
        match r {
            Some((v, j, a)) => sp_f_u16s(s@, i as int, any, pre@, bare@) == Some(
                (
                    match v {
                        Some(xs) => Some(xs@),
                        None => None,
                    },
                    j as int,
                    a,
                ),
            ) && i <= j <= s@.len(),
            None => sp_f_u16s(s@, i as int, any, pre@, bare@) is None,
        },
{
    let key = if any {
        p_lit(s, i, pre)
    } else {
        p_lit(s, i, bare)
    };
    match key {
        Some(j) => match p_u16_array(s, j) {
            Some((xs, k)) => Some((Some(xs), k, true)),
            None => None,
        },
        None => Some((None, i, any)),
    }
}

/// Reads one optional filter field holding a number.
fn p_f_num(s: &Vec<char>, i: usize, any: bool, pre: &str, bare: &str) -> (r: Option<
    (Option<u64>, usize, bool),
>)
    requires
        i <= s@.len(),
    ensures
        match r {
            Some((v, j, a)) => sp_f_num(s@, i as int, any, pre@, bare@) == Some((v, j as int, a))
                && i <= j <= s@.len(),
            None => sp_f_num(s@, i as int, any, pre@, bare@) is None,
        },
{
    let key = if any {
        p_lit(s, i, pre)
    } else {
        p_lit(s, i, bare)
    };
    match key {
        Some(j) => match p_num(s, j) {
            Some((n, k)) => Some((Some(n), k, true)),
            None => None,
        },
        None => Some((None, i, any)),
    }
}

/// Prepends a parsed tag constraint to a parsed list of them.
fn cons_tagq(q: TagQuery, r: Option<(Vec<TagQuery>, usize)>) -> (res: Option<(Vec<TagQuery>, usize)>)
    ensures
        match res {
            Some((xs, j)) => r matches Some((xs0, j0)) && xs.deep_view() == seq![q@]
                + xs0.deep_view() && j == j0,
            None => r is None,
        },
{
    match r {
        Some((mut xs, j)) => {
            let ghost before = xs.deep_view();
            let ghost qv = q@;
            xs.insert(0, q);
            proof {
                assert(forall|m: int| 0 <= m < before.len() ==> xs.deep_view()[m + 1]
                    == before[m]);
                assert(xs.deep_view() =~= seq![qv] + before);
            }
            Some((xs, j))
        },
        None => None,
    }
}

/// Reads the tag constraints of a filter.
fn p_tagq_items(s: &Vec<char>, i: usize, any: bool) -> (r: Option<(Vec<TagQuery>, usize)>)
    requires
        i <= s@.len(),
    ensures
        match r {
            Some((xs, j)) => sp_tagq_items(s@, i as int, any) == Some((xs.deep_view(), j as int))
                && i <= j <= s@.len(),
            None => sp_tagq_items(s@, i as int, any) is None,
        },
    decreases s@.len() - i,
{
    let key = if any {
        p_lit(s, i, ",\"#")
    } else {
        p_lit(s, i, "\"#")
    };
    proof {
        reveal_strlit(",\"#");
        reveal_strlit("\"#");
    }
    match key {
        None => {
            let xs: Vec<TagQuery> = Vec::new();
            proof {
                assert(xs.deep_view() =~= Seq::<TagQueryV>::empty());
            }
            Some((xs, i))
        },
        Some(j) => {
            if j >= s.len() {
                return None;
            }
            let letter = s[j];
            let lu = letter as u32;
            if !((97 <= lu && lu <= 122) || (65 <= lu && lu <= 90)) {
                return None;
            }
            let j2 = match p_lit(s, j + 1, "\":") {
                Some(v) => v,
                None => return None,
            };
            let (vals, j3) = match p_str_array(s, j2) {
                Some(v) => v,
                None => return None,
            };
            let q = TagQuery { letter, values: vals };
            cons_tagq(q, p_tagq_items(s, j3, true))
        },
    }
}

/// Reads a filter object.
pub fn p_filter(s: &Vec<char>, i: usize) -> (r: Option<(Filter, usize)>)
    ensures
        match r {
            Some((f, j)) => sp_filter_p(s@, i as int) == Some((f@, j as int)) && i < j <= s@.len(),
            None => sp_filter_p(s@, i as int) is None,
        },
{
    if i >= s.len() {
        return None;
    }
    if s[i] != '{' {
        return None;
    }
    let (ids, i1, a1) = match p_f_strs(s, i + 1, false, ",\"ids\":", "\"ids\":") {
        Some(v) => v,
        None => return None,
    };
    let (authors, i2, a2) = match p_f_strs(s, i1, a1, ",\"authors\":", "\"authors\":") {
        Some(v) => v,
        None => return None,
    };
    let (kinds, i3, a3) = match p_f_u16s(s, i2, a2, ",\"kinds\":", "\"kinds\":") {
        Some(v) => v,
        None => return None,
    };
    let (since, i4, a4) = match p_f_num(s, i3, a3, ",\"since\":", "\"since\":") {
        Some(v) => v,
        None => return None,
    };
    let (until, i5, a5) = match p_f_num(s, i4, a4, ",\"until\":", "\"until\":") {
        Some(v) => v,
        None => return None,
    };
    let (limit, i6, a6) = match p_f_num(s, i5, a5, ",\"limit\":", "\"limit\":") {
        Some(v) => v,
        None => return None,
    };
    let (tqs, i7) = match p_tagq_items(s, i6, a6) {
        Some(v) => v,
        None => return None,
    };
    let i8 = match p_lit(s, i7, "}") {
        Some(v) => v,
        None => return None,
    };
    let f = Filter { ids, authors, kinds, since, until, limit, tag_queries: tqs };
    Some((f, i8))
}

/// Decodes one inbound text frame into a client message: a JSON array in the
/// canonical writing of the protocol, discriminator first. A frame that is
/// not such an array fails as malformed; a well-formed array whose
/// discriminator the relay does not know fails as unknown.
pub open spec fn sp_decode_client(s: Seq<char>) -> Result<ClientMessageV, DecodeError> {
    match sp_lit(s, 0, "[\"EVENT\","@) {
        Some(i) => match sp_event_p(s, i) {
            Some((e, j)) => if sp_lit(s, j, "]"@) == Some(s.len() as int) {
                Ok(ClientMessageV::Event(e))
            } else {
                Err(DecodeError::Malformed)
            },
            None => Err(DecodeError::Malformed),
        },
        None => match sp_lit(s, 0, "[\"REQ\","@) {
            Some(i) => match sp_jstring(s, i) {
                Some((sid, j)) => match sp_lit(s, j, ","@) {
                    Some(j2) => match sp_filter_p(s, j2) {
                        Some((f, j3)) => if sp_lit(s, j3, "]"@) == Some(s.len() as int) {
                            Ok(ClientMessageV::Req { subscription_id: sid, filter: f })
                        } else {
                            Err(DecodeError::Malformed)
                        },
                        None => Err(DecodeError::Malformed),
                    },
                    None => Err(DecodeError::Malformed),
                },
                None => Err(DecodeError::Malformed),
            },
            None => match sp_lit(s, 0, "[\"CLOSE\","@) {
                Some(i) => match sp_jstring(s, i) {
                    Some((sid, j)) => if sp_lit(s, j, "]"@) == Some(s.len() as int) {
                        Ok(ClientMessageV::Close(sid))
                    } else {
                        Err(DecodeError::Malformed)
                    },
                    None => Err(DecodeError::Malformed),
                },
                None => match sp_lit(s, 0, "[\"COUNT\","@) {
                    Some(i) => match sp_jstring(s, i) {
                        Some((sid, j)) => match sp_lit(s, j, ","@) {
                            Some(j2) => match sp_filter_p(s, j2) {
                                Some((f, j3)) => if sp_lit(s, j3, "]"@) == Some(s.len() as int) {
                                    Ok(ClientMessageV::Count { subscription_id: sid, filter: f })
                                } else {
                                    Err(DecodeError::Malformed)
                                },
                                None => Err(DecodeError::Malformed),
                            },
                            None => Err(DecodeError::Malformed),
                        },
                        None => Err(DecodeError::Malformed),
                    },
                    None => match sp_lit(s, 0, "[\"AUTH\","@) {
                        Some(i) => match sp_event_p(s, i) {
                            Some((e, j)) => if sp_lit(s, j, "]"@) == Some(s.len() as int) {
                                Ok(ClientMessageV::Auth(e))
                            } else {
                                Err(DecodeError::Malformed)
                            },
                            None => Err(DecodeError::Malformed),
                        },
                        None => if s.len() >= 2 && s[0] == '[' && s[1] == '"' && sp_jstring(s, 1)
                            is Some {
                            Err(DecodeError::UnknownMessageType)
                        } else {
                            Err(DecodeError::Malformed)
                        },
                    },
                },
            },
        },
    }
}

/// Decodes one inbound text frame. A pure parse: nothing is mutated, and a
/// failure names whether the frame was malformed or merely unknown.
pub fn decode_client_message(text: &str) -> (r: Result<ClientMessage, DecodeError>)
    ensures
        match r {
            Ok(m) => sp_decode_client(text@) == Ok::<ClientMessageV, DecodeError>(m@),
            Err(e) => sp_decode_client(text@) == Err::<ClientMessageV, DecodeError>(e),
        },
{
    let s = crate::strings::string_to_chars(text);
    if let Some(i) = p_lit(&s, 0, "[\"EVENT\",") {
        match p_event(&s, i) {
            Some((e, j)) => {
                match p_lit(&s, j, "]") {
                    Some(end) => if end == s.len() {
                        return Ok(ClientMessage::Event(e));
                    } else {
                        return Err(DecodeError::Malformed);
                    },
                    None => return Err(DecodeError::Malformed),
                }
            },
            None => return Err(DecodeError::Malformed),
        }
    }
    if let Some(i) = p_lit(&s, 0, "[\"REQ\",") {
        match p_jstring(&s, i) {
            Some((sid, j)) => {
                let j2 = match p_lit(&s, j, ",") {
                    Some(v) => v,
                    None => return Err(DecodeError::Malformed),
                };
                match p_filter(&s, j2) {
                    Some((f, j3)) => {
                        match p_lit(&s, j3, "]") {
                            Some(end) => if end == s.len() {
                                return Ok(ClientMessage::Req {
                                    subscription_id: chars_to_string(&sid),
                                    filter: f,
                                });
                            } else {
                                return Err(DecodeError::Malformed);
                            },
                            None => return Err(DecodeError::Malformed),
                        }
                    },
                    None => return Err(DecodeError::Malformed),
                }
            },
            None => return Err(DecodeError::Malformed),
        }
    }
    if let Some(i) = p_lit(&s, 0, "[\"CLOSE\",") {
        match p_jstring(&s, i) {
            Some((sid, j)) => {
                match p_lit(&s, j, "]") {
                    Some(end) => if end == s.len() {
                        return Ok(ClientMessage::Close(chars_to_string(&sid)));
                    } else {
                        return Err(DecodeError::Malformed);
                    },
                    None => return Err(DecodeError::Malformed),
                }
            },
            None => return Err(DecodeError::Malformed),
        }
    }
    if let Some(i) = p_lit(&s, 0, "[\"COUNT\",") {
        match p_jstring(&s, i) {
            Some((sid, j)) => {
                let j2 = match p_lit(&s, j, ",") {
                    Some(v) => v,
                    None => return Err(DecodeError::Malformed),
                };
                match p_filter(&s, j2) {
                    Some((f, j3)) => {
                        match p_lit(&s, j3, "]") {
                            Some(end) => if end == s.len() {
                                return Ok(ClientMessage::Count {
                                    subscription_id: chars_to_string(&sid),
                                    filter: f,
                                });
                            } else {
                                return Err(DecodeError::Malformed);
                            },
                            None => return Err(DecodeError::Malformed),
                        }
                    },
                    None => return Err(DecodeError::Malformed),
                }
            },
            None => return Err(DecodeError::Malformed),
        }
    }
    if let Some(i) = p_lit(&s, 0, "[\"AUTH\",") {
        match p_event(&s, i) {
            Some((e, j)) => {
                match p_lit(&s, j, "]") {
                    Some(end) => if end == s.len() {
                        return Ok(ClientMessage::Auth(e));
                    } else {
                        return Err(DecodeError::Malformed);
                    },
                    None => return Err(DecodeError::Malformed),
                }
            },
            None => return Err(DecodeError::Malformed),
        }
    }
    if s.len() >= 2 {
        if s[0] == '[' && s[1] == '"' {
            match p_jstring(&s, 1) {
                Some(_) => return Err(DecodeError::UnknownMessageType),
                None => return Err(DecodeError::Malformed),
            }
        }
    }
    Err(DecodeError::Malformed)
}

} // verus!
