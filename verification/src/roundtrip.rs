use vstd::prelude::*;
use crate::numbers::{
    is_digit, digit_val, digit_char, hex_char, hex_val, is_hex_digit, sp_dec_val, dec_digits,
};
use crate::encode::{escape_char, sp_escape, sp_jstr};
use crate::decode::{
    sp_lit, sp_str_body, sp_jstring, sp_num, digit_run_end,
};

verus! {

// Wire-format fidelity: parsing the encoder's output gives back exactly the
// value that was encoded. Each lemma here says that where the writing of a
// value stands in a frame, the parser reads exactly that value and stops
// just after it; the chapter ends with the round trip for whole outbound
// messages.

/// A literal placed at `i` is matched at `i`.
pub proof fn lemma_lit_at(s: Seq<char>, i: int, lit: Seq<char>)
    requires
        0 <= i,
        i + lit.len() <= s.len(),
        s.subrange(i, i + lit.len()) == lit,
    ensures
        sp_lit(s, i, lit) == Some(i + lit.len()),
{
}

/// A literal that disagrees with the frame at one position does not match.
pub proof fn lemma_lit_mismatch(s: Seq<char>, i: int, lit: Seq<char>, k: int)
    requires
        0 <= i,
        0 <= k < lit.len(),
        i + k < s.len(),
        s[i + k] != lit[k],
    ensures
        sp_lit(s, i, lit) is None,
{
    if i + lit.len() <= s.len() {
        assert(s.subrange(i, i + lit.len())[k] == s[i + k]);
    }
}

/// The digit characters carry their values.
pub proof fn lemma_digit_char_val(n: nat)
    requires
        n < 10,
    ensures
        is_digit(digit_char(n)),
        digit_val(digit_char(n)) == n,
{
}

/// The hex characters are hex digits and carry their values.
pub proof fn lemma_hex_char_val(n: nat)
    requires
        n < 16,
    ensures
        is_hex_digit(hex_char(n)),
        hex_val(hex_char(n)) == n,
{
}

/// The decimal writing of `n` is all digits and reads back as `n`.
pub proof fn lemma_dec_digits_value(n: nat)
    ensures
        dec_digits(n).len() >= 1,
        forall|k: int| 0 <= k < dec_digits(n).len() ==> is_digit(#[trigger] dec_digits(n)[k]),
        sp_dec_val(dec_digits(n)) == n,
    decreases n,
{
    if n < 10 {
        lemma_digit_char_val(n);
        assert(dec_digits(n) == seq![digit_char(n)]);
        assert(dec_digits(n).drop_last() =~= Seq::<char>::empty());
        assert(dec_digits(n).last() == digit_char(n));
        assert(sp_dec_val(Seq::<char>::empty()) == 0);
        assert(sp_dec_val(dec_digits(n)) == sp_dec_val(dec_digits(n).drop_last()) * 10 + digit_val(
            dec_digits(n).last(),
        ));
    } else {
        lemma_dec_digits_value(n / 10);
        lemma_digit_char_val(n % 10);
        assert(dec_digits(n) == dec_digits(n / 10).push(digit_char(n % 10)));
        assert(dec_digits(n).drop_last() =~= dec_digits(n / 10));
        assert(dec_digits(n).last() == digit_char(n % 10));
        assert(sp_dec_val(dec_digits(n)) == sp_dec_val(dec_digits(n).drop_last()) * 10 + digit_val(
            dec_digits(n).last(),
        ));
    }
}

/// A digit run that stops at a non-digit ends exactly there.
pub proof fn lemma_run_end_exact(s: Seq<char>, i: int, j: int)
    requires
        0 <= i <= j <= s.len(),
        forall|k: int| i <= k < j ==> is_digit(#[trigger] s[k]),
        j < s.len(),
        !is_digit(s[j]),
    ensures
        digit_run_end(s, i) == j,
    decreases j - i,
{
    if i < j {
        lemma_run_end_exact(s, i + 1, j);
    }
}

/// The decimal writing of `n` placed at `i`, followed by a non-digit, parses
/// back to `n`.
pub proof fn lemma_parse_num(s: Seq<char>, i: int, n: u64)
    requires
        0 <= i,
        i + dec_digits(n as nat).len() < s.len(),
        s.subrange(i, i + dec_digits(n as nat).len()) == dec_digits(n as nat),
        !is_digit(s[i + dec_digits(n as nat).len()]),
    ensures
        sp_num(s, i) == Some((n, i + dec_digits(n as nat).len())),
{
    let d = dec_digits(n as nat);
    lemma_dec_digits_value(n as nat);
    assert forall|k: int| i <= k < i + d.len() implies is_digit(#[trigger] s[k]) by {
        assert(s[k] == s.subrange(i, i + d.len())[k - i]);
        assert(is_digit(d[k - i]));
    }
    lemma_run_end_exact(s, i, i + d.len());
    assert(s.subrange(i, digit_run_end(s, i)) == d);
}

/// A string body written by the escaper, closed by a quote, parses back to
/// the original characters.
pub proof fn lemma_parse_str_body(s: Seq<char>, i: int, t: Seq<char>)
    requires
        0 <= i,
        i + sp_escape(t).len() + 1 <= s.len(),
        s.subrange(i, i + sp_escape(t).len() + 1) == sp_escape(t) + seq!['"'],
    ensures
        sp_str_body(s, i) == Some((t, i + sp_escape(t).len() + 1)),
    decreases t.len(),
{
    let e = sp_escape(t);
    let whole = e + seq!['"'];
    assert forall|k: int| 0 <= k < whole.len() implies s[i + k] == #[trigger] whole[k] by {
        assert(s.subrange(i, i + e.len() + 1)[k] == s[i + k]);
    }
    if t.len() == 0 {
        assert(e.len() == 0);
        assert(whole[0] == '"');
        assert(s[i + 0] == whole[0]);
        assert(s[i] == '"');
    } else {
        let c = t[0];
        let t2 = t.drop_first();
        let ec = escape_char(c);
        assert(e == ec + sp_escape(t2));
        assert forall|k: int| 0 <= k < ec.len() implies s[i + k] == #[trigger] ec[k] by {
            assert(s[i + k] == whole[k]);
            assert(whole[k] == (ec + sp_escape(t2) + seq!['"'])[k]);
        }
        let i2 = i + ec.len();
        assert(s.subrange(i2, i2 + sp_escape(t2).len() + 1) =~= sp_escape(t2) + seq!['"']) by {
            assert forall|k: int| 0 <= k < sp_escape(t2).len() + 1 implies #[trigger] s.subrange(
                i2,
                i2 + sp_escape(t2).len() + 1,
            )[k] == (sp_escape(t2) + seq!['"'])[k] by {
                assert(s.subrange(i2, i2 + sp_escape(t2).len() + 1)[k] == s[i2 + k]);
                assert(s[i2 + k] == whole[ec.len() + k]);
            }
        }
        lemma_parse_str_body(s, i2, t2);
        assert(seq![c] + t2 =~= t);
        assert(ec.len() >= 1);
        assert(s[i + 0] == whole[0]);
        if c == '"' {
            assert(s[i] == '\\' && s[i + 1] == '"');
        } else if c == '\\' {
            assert(s[i] == '\\' && s[i + 1] == '\\');
        } else if c == '\n' {
            assert(s[i] == '\\' && s[i + 1] == 'n');
        } else if c == '\r' {
            assert(s[i] == '\\' && s[i + 1] == 'r');
        } else if c == '\t' {
            assert(s[i] == '\\' && s[i + 1] == 't');
        } else if (c as u32) < 32 {
            let cu = c as u32;
            assert(s[i] == '\\' && s[i + 1] == 'u' && s[i + 2] == '0' && s[i + 3] == '0');
            assert(s[i + 4] == hex_char((cu / 16) as nat));
            assert(s[i + 5] == hex_char((cu % 16) as nat));
            lemma_hex_char_val((cu / 16) as nat);
            lemma_hex_char_val((cu % 16) as nat);
            assert(hex_val(s[i + 4]) * 16 + hex_val(s[i + 5]) == cu);
            vstd::utf8::char_u32_cast(c, cu);
            assert((((hex_val(s[i + 4]) * 16 + hex_val(s[i + 5])) as u32) as char) == c);
        } else {
            assert(s[i] == c);
            assert(s[i] != '"' && s[i] != '\\' && !((s[i] as u32) < 32));
        }
    }
}

/// A JSON string written by the encoder parses back to the original.
pub proof fn lemma_parse_jstr(s: Seq<char>, i: int, t: Seq<char>)
    requires
        0 <= i,
        i + sp_jstr(t).len() <= s.len(),
        s.subrange(i, i + sp_jstr(t).len()) == sp_jstr(t),
    ensures
        sp_jstring(s, i) == Some((t, i + sp_jstr(t).len())),
{
    let w = sp_jstr(t);
    assert forall|k: int| 0 <= k < w.len() implies s[i + k] == #[trigger] w[k] by {
        assert(s.subrange(i, i + w.len())[k] == s[i + k]);
    }
    assert(w[0] == '"');
    assert(s[i + 0] == w[0]);
    assert(s[i] == '"');
    assert(s.subrange(i + 1, i + 1 + sp_escape(t).len() + 1) =~= sp_escape(t) + seq!['"']) by {
        assert forall|k: int| 0 <= k < sp_escape(t).len() + 1 implies #[trigger] s.subrange(
            i + 1,
            i + 1 + sp_escape(t).len() + 1,
        )[k] == (sp_escape(t) + seq!['"'])[k] by {
            assert(s.subrange(i + 1, i + 1 + sp_escape(t).len() + 1)[k] == s[i + 1 + k]);
            assert(s[i + 1 + k] == w[1 + k]);
            assert(w[1 + k] == (seq!['"'] + sp_escape(t) + seq!['"'])[1 + k]);
        }
    }
    lemma_parse_str_body(s, i + 1, t);
}

/// A piece of a matched window is matched where it stands.
pub proof fn lemma_sub_at(s: Seq<char>, i: int, w: Seq<char>, off: int, part: Seq<char>)
    requires
        0 <= i,
        i + w.len() <= s.len(),
        s.subrange(i, i + w.len()) == w,
        0 <= off,
        off + part.len() <= w.len(),
        w.subrange(off, off + part.len()) == part,
    ensures
        s.subrange(i + off, i + off + part.len()) == part,
{
    assert forall|k: int| 0 <= k < part.len() implies #[trigger] s.subrange(
        i + off,
        i + off + part.len(),
    )[k] == part[k] by {
        assert(s.subrange(i + off, i + off + part.len())[k] == s[i + off + k]);
        assert(s[i + off + k] == s.subrange(i, i + w.len())[off + k]);
        assert(w.subrange(off, off + part.len())[k] == w[off + k]);
    }
    assert(s.subrange(i + off, i + off + part.len()) =~= part);
}

/// String-array items written by the encoder, closed by a bracket, parse
/// back to the items after `k`.
pub proof fn lemma_parse_jstr_items(s: Seq<char>, i: int, xs: Seq<Seq<char>>, k: int)
    requires
        0 <= k <= xs.len(),
        0 <= i,
        i + crate::encode::sp_jstr_items(xs, k).len() + 1 <= s.len(),
        s.subrange(i, i + crate::encode::sp_jstr_items(xs, k).len() + 1)
            == crate::encode::sp_jstr_items(xs, k) + seq![']'],
    ensures
        crate::decode::sp_str_items(s, i) == Some(
            (xs.skip(k), i + crate::encode::sp_jstr_items(xs, k).len() + 1),
        ),
    decreases xs.len() - k,
{
    let e = crate::encode::sp_jstr_items(xs, k);
    let w = e + seq![']'];
    assert forall|m: int| 0 <= m < w.len() implies s[i + m] == #[trigger] w[m] by {
        assert(s.subrange(i, i + e.len() + 1)[m] == s[i + m]);
    }
    if k >= xs.len() {
        assert(e.len() == 0);
        assert(s[i + 0] == w[0]);
        assert(s[i] == ']');
        assert(xs.skip(k) =~= Seq::<Seq<char>>::empty());
    } else {
        let js = sp_jstr(xs[k]);
        let rest = crate::encode::sp_jstr_items(xs, k + 1);
        assert(e == seq![','] + js + rest);
        assert(s[i + 0] == w[0]);
        assert(w[0] == ',');
        assert(s[i] == ',');
        assert(w.subrange(1, 1 + js.len() as int) =~= js);
        lemma_sub_at(s, i, w, 1, js);
        lemma_parse_jstr(s, i + 1, xs[k]);
        let j = i + 1 + js.len();
        assert(s.subrange(j, j + rest.len() + 1) =~= rest + seq![']']) by {
            assert forall|m: int| 0 <= m < rest.len() + 1 implies #[trigger] s.subrange(
                j,
                j + rest.len() + 1,
            )[m] == (rest + seq![']'])[m] by {
                assert(s.subrange(j, j + rest.len() + 1)[m] == s[j + m]);
                assert(s[j + m] == w[1 + js.len() + m]);
            }
        }
        lemma_parse_jstr_items(s, j, xs, k + 1);
        assert(seq![xs[k]] + xs.skip(k + 1) =~= xs.skip(k));
    }
}

/// A string array written by the encoder parses back to the original.
pub proof fn lemma_parse_str_array(s: Seq<char>, i: int, xs: Seq<Seq<char>>)
    requires
        0 <= i,
        i + crate::encode::sp_str_array(xs).len() <= s.len(),
        s.subrange(i, i + crate::encode::sp_str_array(xs).len())
            == crate::encode::sp_str_array(xs),
    ensures
        crate::decode::sp_str_array_p(s, i) == Some(
            (xs, i + crate::encode::sp_str_array(xs).len()),
        ),
{
    let w = crate::encode::sp_str_array(xs);
    assert forall|m: int| 0 <= m < w.len() implies s[i + m] == #[trigger] w[m] by {
        assert(s.subrange(i, i + w.len())[m] == s[i + m]);
    }
    if xs.len() == 0 {
        assert(s[i + 0] == w[0]);
        assert(s[i + 1] == w[1]);
        assert(s[i] == '[' && s[i + 1] == ']');
    } else {
        let js = sp_jstr(xs[0]);
        let items = crate::encode::sp_jstr_items(xs, 1);
        assert(w == seq!['['] + js + items + seq![']']);
        assert(s[i + 0] == w[0]);
        assert(s[i] == '[');
        assert(js[0] == '"');
        assert(s[i + 1] == w[1]);
        assert(w[1] == '"');
        assert(w.subrange(1, 1 + js.len() as int) =~= js);
        lemma_sub_at(s, i, w, 1, js);
        lemma_parse_jstr(s, i + 1, xs[0]);
        let j = i + 1 + js.len();
        assert(s.subrange(j, j + items.len() + 1) =~= items + seq![']']) by {
            assert forall|m: int| 0 <= m < items.len() + 1 implies #[trigger] s.subrange(
                j,
                j + items.len() + 1,
            )[m] == (items + seq![']'])[m] by {
                assert(s.subrange(j, j + items.len() + 1)[m] == s[j + m]);
                assert(s[j + m] == w[1 + js.len() + m]);
            }
        }
        lemma_parse_jstr_items(s, j, xs, 1);
        assert(seq![xs[0]] + xs.skip(1) =~= xs);
    }
}

/// Tags-array items written by the encoder, closed by a bracket, parse back
/// to the items after `k`.
pub proof fn lemma_parse_tag_items(s: Seq<char>, i: int, ts: Seq<Seq<Seq<char>>>, k: int)
    requires
        0 <= k <= ts.len(),
        0 <= i,
        i + crate::encode::sp_tags_items(ts, k).len() + 1 <= s.len(),
        s.subrange(i, i + crate::encode::sp_tags_items(ts, k).len() + 1)
            == crate::encode::sp_tags_items(ts, k) + seq![']'],
    ensures
        crate::decode::sp_tag_items(s, i) == Some(
            (ts.skip(k), i + crate::encode::sp_tags_items(ts, k).len() + 1),
        ),
    decreases ts.len() - k,
{
    let e = crate::encode::sp_tags_items(ts, k);
    let w = e + seq![']'];
    assert forall|m: int| 0 <= m < w.len() implies s[i + m] == #[trigger] w[m] by {
        assert(s.subrange(i, i + e.len() + 1)[m] == s[i + m]);
    }
    if k >= ts.len() {
        assert(e.len() == 0);
        assert(s[i + 0] == w[0]);
        assert(s[i] == ']');
        assert(ts.skip(k) =~= Seq::<Seq<Seq<char>>>::empty());
    } else {
        let arr = crate::encode::sp_str_array(ts[k]);
        let rest = crate::encode::sp_tags_items(ts, k + 1);
        assert(e == seq![','] + arr + rest);
        assert(s[i + 0] == w[0]);
        assert(s[i] == ',');
        assert(w.subrange(1, 1 + arr.len() as int) =~= arr);
        lemma_sub_at(s, i, w, 1, arr);
        lemma_parse_str_array(s, i + 1, ts[k]);
        let j = i + 1 + arr.len();
        assert(s.subrange(j, j + rest.len() + 1) =~= rest + seq![']']) by {
            assert forall|m: int| 0 <= m < rest.len() + 1 implies #[trigger] s.subrange(
                j,
                j + rest.len() + 1,
            )[m] == (rest + seq![']'])[m] by {
                assert(s.subrange(j, j + rest.len() + 1)[m] == s[j + m]);
                assert(s[j + m] == w[1 + arr.len() + m]);
            }
        }
        lemma_parse_tag_items(s, j, ts, k + 1);
        assert(seq![ts[k]] + ts.skip(k + 1) =~= ts.skip(k));
    }
}

/// A tags array written by the encoder parses back to the original.
pub proof fn lemma_parse_tags(s: Seq<char>, i: int, ts: Seq<Seq<Seq<char>>>)
    requires
        0 <= i,
        i + crate::encode::sp_tags_array(ts).len() <= s.len(),
        s.subrange(i, i + crate::encode::sp_tags_array(ts).len())
            == crate::encode::sp_tags_array(ts),
    ensures
        crate::decode::sp_tags_p(s, i) == Some((ts, i + crate::encode::sp_tags_array(ts).len())),
{
    let w = crate::encode::sp_tags_array(ts);
    assert forall|m: int| 0 <= m < w.len() implies s[i + m] == #[trigger] w[m] by {
        assert(s.subrange(i, i + w.len())[m] == s[i + m]);
    }
    if ts.len() == 0 {
        assert(s[i + 0] == w[0]);
        assert(s[i + 1] == w[1]);
        assert(s[i] == '[' && s[i + 1] == ']');
    } else {
        let arr = crate::encode::sp_str_array(ts[0]);
        let items = crate::encode::sp_tags_items(ts, 1);
        assert(w == seq!['['] + arr + items + seq![']']);
        assert(s[i + 0] == w[0]);
        assert(s[i] == '[');
        assert(arr[0] == '[');
        assert(s[i + 1] == w[1]);
        assert(w[1] == '[');
        assert(w.subrange(1, 1 + arr.len() as int) =~= arr);
        lemma_sub_at(s, i, w, 1, arr);
        lemma_parse_str_array(s, i + 1, ts[0]);
        let j = i + 1 + arr.len();
        assert(s.subrange(j, j + items.len() + 1) =~= items + seq![']']) by {
            assert forall|m: int| 0 <= m < items.len() + 1 implies #[trigger] s.subrange(
                j,
                j + items.len() + 1,
            )[m] == (items + seq![']'])[m] by {
                assert(s.subrange(j, j + items.len() + 1)[m] == s[j + m]);
                assert(s[j + m] == w[1 + arr.len() + m]);
            }
        }
        lemma_parse_tag_items(s, j, ts, 1);
        assert(seq![ts[0]] + ts.skip(1) =~= ts);
    }
}

/// An event object written by the encoder parses back to the original event.
#[verifier::rlimit(60)]
pub proof fn lemma_parse_event(s: Seq<char>, i: int, e: crate::event::EventV)
    requires
        0 <= i,
        i + crate::encode::sp_event(e).len() <= s.len(),
        s.subrange(i, i + crate::encode::sp_event(e).len()) == crate::encode::sp_event(e),
    ensures
        crate::decode::sp_event_p(s, i) == Some((e, i + crate::encode::sp_event(e).len())),
{
    reveal_strlit("{\"id\":");
    reveal_strlit(",\"pubkey\":");
    reveal_strlit(",\"created_at\":");
    reveal_strlit(",\"kind\":");
    reveal_strlit(",\"tags\":");
    reveal_strlit(",\"content\":");
    reveal_strlit(",\"sig\":");
    reveal_strlit("}");
    let w = crate::encode::sp_event(e);
    let a0 = "{\"id\":"@;
    let c1 = sp_jstr(e.id);
    let a1 = ",\"pubkey\":"@;
    let c2 = sp_jstr(e.pubkey);
    let a2 = ",\"created_at\":"@;
    let c3 = dec_digits(e.created_at as nat);
    let a3 = ",\"kind\":"@;
    let c4 = dec_digits(e.kind as nat);
    let a4 = ",\"tags\":"@;
    let c5 = crate::encode::sp_tags_array(e.tags);
    let a5 = ",\"content\":"@;
    let c6 = sp_jstr(e.content);
    let a6 = ",\"sig\":"@;
    let c7 = sp_jstr(e.sig);
    let a7 = "}"@;
    assert(w == a0 + c1 + a1 + c2 + a2 + c3 + a3 + c4 + a4 + c5 + a5 + c6 + a6 + c7 + a7);
    lemma_dec_digits_value(e.created_at as nat);
    lemma_dec_digits_value(e.kind as nat);
    let o0: int = 0;
    let o1 = o0 + a0.len();
    let o2 = o1 + c1.len();
    let o3 = o2 + a1.len();
    let o4 = o3 + c2.len();
    let o5 = o4 + a2.len();
    let o6 = o5 + c3.len();
    let o7 = o6 + a3.len();
    let o8 = o7 + c4.len();
    let o9 = o8 + a4.len();
    let o10 = o9 + c5.len();
    let o11 = o10 + a5.len();
    let o12 = o11 + c6.len();
    let o13 = o12 + a6.len();
    let o14 = o13 + c7.len();
    assert(w.len() == o14 + 1);
    assert(w.subrange(o0, o1) =~= a0);
    lemma_sub_at(s, i, w, o0, a0);
    lemma_lit_at(s, i + o0, a0);
    assert(w.subrange(o1, o2) =~= c1);
    lemma_sub_at(s, i, w, o1, c1);
    lemma_parse_jstr(s, i + o1, e.id);
    assert(w.subrange(o2, o3) =~= a1);
    lemma_sub_at(s, i, w, o2, a1);
    lemma_lit_at(s, i + o2, a1);
    assert(w.subrange(o3, o4) =~= c2);
    lemma_sub_at(s, i, w, o3, c2);
    lemma_parse_jstr(s, i + o3, e.pubkey);
    assert(w.subrange(o4, o5) =~= a2);
    lemma_sub_at(s, i, w, o4, a2);
    lemma_lit_at(s, i + o4, a2);
    assert(w.subrange(o5, o6) =~= c3);
    lemma_sub_at(s, i, w, o5, c3);
    assert(s[i + o6] == s.subrange(i, i + w.len())[o6]);
    assert(w[o6] == a3[0]);
    assert(s[i + o6] == ',');
    assert(!is_digit(','));
    lemma_parse_num(s, i + o5, e.created_at);
    assert(w.subrange(o6, o7) =~= a3);
    lemma_sub_at(s, i, w, o6, a3);
    lemma_lit_at(s, i + o6, a3);
    assert(w.subrange(o7, o8) =~= c4);
    lemma_sub_at(s, i, w, o7, c4);
    assert(s[i + o8] == s.subrange(i, i + w.len())[o8]);
    assert(w[o8] == a4[0]);
    assert(s[i + o8] == ',');
    assert((e.kind as u64) as nat == e.kind as nat);
    lemma_parse_num(s, i + o7, e.kind as u64);
    assert(w.subrange(o8, o9) =~= a4);
    lemma_sub_at(s, i, w, o8, a4);
    lemma_lit_at(s, i + o8, a4);
    assert(w.subrange(o9, o10) =~= c5);
    lemma_sub_at(s, i, w, o9, c5);
    lemma_parse_tags(s, i + o9, e.tags);
    assert(w.subrange(o10, o11) =~= a5);
    lemma_sub_at(s, i, w, o10, a5);
    lemma_lit_at(s, i + o10, a5);
    assert(w.subrange(o11, o12) =~= c6);
    lemma_sub_at(s, i, w, o11, c6);
    lemma_parse_jstr(s, i + o11, e.content);
    assert(w.subrange(o12, o13) =~= a6);
    lemma_sub_at(s, i, w, o12, a6);
    lemma_lit_at(s, i + o12, a6);
    assert(w.subrange(o13, o14) =~= c7);
    lemma_sub_at(s, i, w, o13, c7);
    lemma_parse_jstr(s, i + o13, e.sig);
    assert(w.subrange(o14, o14 + 1) =~= a7);
    lemma_sub_at(s, i, w, o14, a7);
    lemma_lit_at(s, i + o14, a7);
    assert((crate::event::EventV {
        id: e.id,
        pubkey: e.pubkey,
        created_at: e.created_at,
        kind: (e.kind as u64) as u16,
        tags: e.tags,
        content: e.content,
        sig: e.sig,
    }) == e);
}

/// A compliant client-side reading of one outbound frame: the same canonical
/// grammar the encoder writes, one shape per discriminator.
pub open spec fn sp_decode_relay(s: Seq<char>) -> Option<crate::messages::RelayMessageV> {
    match sp_lit(s, 0, "[\"OK\","@) {
        Some(i) => match sp_jstring(s, i) {
            Some((event_id, j)) => match sp_lit(s, j, ","@) {
                Some(j2) => match sp_lit(s, j2, "true"@) {
                    Some(j3) => match sp_lit(s, j3, ","@) {
                        Some(j4) => match sp_jstring(s, j4) {
                            Some((message, j5)) => if sp_lit(s, j5, "]"@) == Some(s.len() as int) {
                                Some(
                                    crate::messages::RelayMessageV::Okay {
                                        event_id,
                                        accepted: true,
                                        message,
                                    },
                                )
                            } else {
                                None
                            },
                            None => None,
                        },
                        None => None,
                    },
                    None => match sp_lit(s, j2, "false"@) {
                        Some(j3) => match sp_lit(s, j3, ","@) {
                            Some(j4) => match sp_jstring(s, j4) {
                                Some((message, j5)) => if sp_lit(s, j5, "]"@) == Some(
                                    s.len() as int,
                                ) {
                                    Some(
                                        crate::messages::RelayMessageV::Okay {
                                            event_id,
                                            accepted: false,
                                            message,
                                        },
                                    )
                                } else {
                                    None
                                },
                                None => None,
                            },
                            None => None,
                        },
                        None => None,
                    },
                },
                None => None,
            },
            None => None,
        },
        None => match sp_lit(s, 0, "[\"NOTICE\","@) {
            Some(i) => match sp_jstring(s, i) {
                Some((message, j)) => if sp_lit(s, j, "]"@) == Some(s.len() as int) {
                    Some(crate::messages::RelayMessageV::Notice { message })
                } else {
                    None
                },
                None => None,
            },
            None => match sp_lit(s, 0, "[\"EVENT\","@) {
                Some(i) => match sp_jstring(s, i) {
                    Some((sid, j)) => match sp_lit(s, j, ","@) {
                        Some(j2) => match crate::decode::sp_event_p(s, j2) {
                            Some((e, j3)) => if sp_lit(s, j3, "]"@) == Some(s.len() as int) {
                                Some(
                                    crate::messages::RelayMessageV::Event {
                                        subscription_id: sid,
                                        event: e,
                                    },
                                )
                            } else {
                                None
                            },
                            None => None,
                        },
                        None => None,
                    },
                    None => None,
                },
                None => match sp_lit(s, 0, "[\"EOSE\","@) {
                    Some(i) => match sp_jstring(s, i) {
                        Some((sid, j)) => if sp_lit(s, j, "]"@) == Some(s.len() as int) {
                            Some(crate::messages::RelayMessageV::Eose { subscription_id: sid })
                        } else {
                            None
                        },
                        None => None,
                    },
                    None => match sp_lit(s, 0, "[\"CLOSED\","@) {
                        Some(i) => match sp_jstring(s, i) {
                            Some((sid, j)) => match sp_lit(s, j, ","@) {
                                Some(j2) => match sp_jstring(s, j2) {
                                    Some((message, j3)) => if sp_lit(s, j3, "]"@) == Some(
                                        s.len() as int,
                                    ) {
                                        Some(
                                            crate::messages::RelayMessageV::Closed {
                                                subscription_id: sid,
                                                message,
                                            },
                                        )
                                    } else {
                                        None
                                    },
                                    None => None,
                                },
                                None => None,
                            },
                            None => None,
                        },
                        None => None,
                    },
                },
            },
        },
    }
}

/// Round trip for an `OK` frame.
#[verifier::rlimit(30)]
proof fn lemma_rt_okay(event_id: Seq<char>, accepted: bool, message: Seq<char>)
    ensures
        sp_decode_relay(
            crate::encode::sp_relay(
                crate::messages::RelayMessageV::Okay { event_id, accepted, message },
            ),
        ) == Some(crate::messages::RelayMessageV::Okay { event_id, accepted, message }),
{
    reveal_strlit("[\"OK\",");
    reveal_strlit("true");
    reveal_strlit("false");
    reveal_strlit(",");
    reveal_strlit("]");
    let m = crate::messages::RelayMessageV::Okay { event_id, accepted, message };
    let s = crate::encode::sp_relay(m);
    let a0 = "[\"OK\","@;
    let c1 = sp_jstr(event_id);
    let b = if accepted { "true"@ } else { "false"@ };
    let c2 = sp_jstr(message);
    assert(s == a0 + c1 + seq![','] + b + seq![','] + c2 + seq![']']);
    assert(s.subrange(0, s.len() as int) =~= s);
    let o1 = a0.len() as int;
    let o2 = o1 + c1.len();
    let o3 = o2 + 1;
    let o4 = o3 + b.len();
    let o5 = o4 + 1;
    let o6 = o5 + c2.len();
    assert(s.len() == o6 + 1);
    assert(","@ =~= seq![',']);
    assert("]"@ =~= seq![']']);
    assert(s.subrange(0, o1) =~= a0);
    lemma_lit_at(s, 0, a0);
    assert(s.subrange(o1, o2) =~= c1);
    lemma_parse_jstr(s, o1, event_id);
    assert(s.subrange(o2, o3) =~= ","@);
    lemma_lit_at(s, o2, ","@);
    assert(s.subrange(o3, o4) =~= b);
    lemma_lit_at(s, o3, b);
    if !accepted {
        assert(s[o3 + 0] == b[0]);
        assert(s[o3] == 'f');
        lemma_lit_mismatch(s, o3, "true"@, 0);
    }
    assert(s.subrange(o4, o5) =~= ","@);
    lemma_lit_at(s, o4, ","@);
    assert(s.subrange(o5, o6) =~= c2);
    lemma_parse_jstr(s, o5, message);
    assert(s.subrange(o6, o6 + 1) =~= "]"@);
    lemma_lit_at(s, o6, "]"@);
}

/// Round trip for a `NOTICE` frame.
proof fn lemma_rt_notice(message: Seq<char>)
    ensures
        sp_decode_relay(
            crate::encode::sp_relay(crate::messages::RelayMessageV::Notice { message }),
        ) == Some(crate::messages::RelayMessageV::Notice { message }),
{
    reveal_strlit("[\"OK\",");
    reveal_strlit("[\"NOTICE\",");
    reveal_strlit("]");
    let m = crate::messages::RelayMessageV::Notice { message };
    let s = crate::encode::sp_relay(m);
    let a0 = "[\"NOTICE\","@;
    let c1 = sp_jstr(message);
    assert(s == a0 + c1 + seq![']']);
    assert(s.subrange(0, s.len() as int) =~= s);
    let o1 = a0.len() as int;
    let o2 = o1 + c1.len();
    assert(s.len() == o2 + 1);
    assert("]"@ =~= seq![']']);
    assert(s[2] == a0[2]);
    lemma_lit_mismatch(s, 0, "[\"OK\","@, 2);
    assert(s.subrange(0, o1) =~= a0);
    lemma_lit_at(s, 0, a0);
    assert(s.subrange(o1, o2) =~= c1);
    lemma_parse_jstr(s, o1, message);
    assert(s.subrange(o2, o2 + 1) =~= "]"@);
    lemma_lit_at(s, o2, "]"@);
}

/// Round trip for an `EVENT` frame.
#[verifier::rlimit(30)]
proof fn lemma_rt_event(sid: Seq<char>, e: crate::event::EventV)
    ensures
        sp_decode_relay(
            crate::encode::sp_relay(
                crate::messages::RelayMessageV::Event { subscription_id: sid, event: e },
            ),
        ) == Some(crate::messages::RelayMessageV::Event { subscription_id: sid, event: e }),
{
    reveal_strlit("[\"OK\",");
    reveal_strlit("[\"NOTICE\",");
    reveal_strlit("[\"EVENT\",");
    reveal_strlit(",");
    reveal_strlit("]");
    let m = crate::messages::RelayMessageV::Event { subscription_id: sid, event: e };
    let s = crate::encode::sp_relay(m);
    let a0 = "[\"EVENT\","@;
    let c1 = sp_jstr(sid);
    let c2 = crate::encode::sp_event(e);
    assert(s == a0 + c1 + seq![','] + c2 + seq![']']);
    assert(s.subrange(0, s.len() as int) =~= s);
    let o1 = a0.len() as int;
    let o2 = o1 + c1.len();
    let o3 = o2 + 1;
    let o4 = o3 + c2.len();
    assert(s.len() == o4 + 1);
    assert(","@ =~= seq![',']);
    assert("]"@ =~= seq![']']);
    assert(s[2] == a0[2]);
    lemma_lit_mismatch(s, 0, "[\"OK\","@, 2);
    lemma_lit_mismatch(s, 0, "[\"NOTICE\","@, 2);
    assert(s.subrange(0, o1) =~= a0);
    lemma_lit_at(s, 0, a0);
    assert(s.subrange(o1, o2) =~= c1);
    lemma_parse_jstr(s, o1, sid);
    assert(s.subrange(o2, o3) =~= ","@);
    lemma_lit_at(s, o2, ","@);
    assert(s.subrange(o3, o4) =~= c2);
    lemma_parse_event(s, o3, e);
    assert(s.subrange(o4, o4 + 1) =~= "]"@);
    lemma_lit_at(s, o4, "]"@);
}

/// Round trip for an `EOSE` frame.
proof fn lemma_rt_eose(sid: Seq<char>)
    ensures
        sp_decode_relay(
            crate::encode::sp_relay(crate::messages::RelayMessageV::Eose { subscription_id: sid }),
        ) == Some(crate::messages::RelayMessageV::Eose { subscription_id: sid }),
{
    reveal_strlit("[\"OK\",");
    reveal_strlit("[\"NOTICE\",");
    reveal_strlit("[\"EVENT\",");
    reveal_strlit("[\"EOSE\",");
    reveal_strlit("]");
    let m = crate::messages::RelayMessageV::Eose { subscription_id: sid };
    let s = crate::encode::sp_relay(m);
    let a0 = "[\"EOSE\","@;
    let c1 = sp_jstr(sid);
    assert(s == a0 + c1 + seq![']']);
    assert(s.subrange(0, s.len() as int) =~= s);
    let o1 = a0.len() as int;
    let o2 = o1 + c1.len();
    assert(s.len() == o2 + 1);
    assert("]"@ =~= seq![']']);
    assert(s[2] == a0[2]);
    assert(s[3] == a0[3]);
    lemma_lit_mismatch(s, 0, "[\"OK\","@, 2);
    lemma_lit_mismatch(s, 0, "[\"NOTICE\","@, 2);
    lemma_lit_mismatch(s, 0, "[\"EVENT\","@, 3);
    assert(s.subrange(0, o1) =~= a0);
    lemma_lit_at(s, 0, a0);
    assert(s.subrange(o1, o2) =~= c1);
    lemma_parse_jstr(s, o1, sid);
    assert(s.subrange(o2, o2 + 1) =~= "]"@);
    lemma_lit_at(s, o2, "]"@);
}

/// Round trip for a `CLOSED` frame.
proof fn lemma_rt_closed(sid: Seq<char>, message: Seq<char>)
    ensures
        sp_decode_relay(
            crate::encode::sp_relay(
                crate::messages::RelayMessageV::Closed { subscription_id: sid, message },
            ),
        ) == Some(crate::messages::RelayMessageV::Closed { subscription_id: sid, message }),
{
    reveal_strlit("[\"OK\",");
    reveal_strlit("[\"NOTICE\",");
    reveal_strlit("[\"EVENT\",");
    reveal_strlit("[\"EOSE\",");
    reveal_strlit("[\"CLOSED\",");
    reveal_strlit(",");
    reveal_strlit("]");
    let m = crate::messages::RelayMessageV::Closed { subscription_id: sid, message };
    let s = crate::encode::sp_relay(m);
    let a0 = "[\"CLOSED\","@;
    let c1 = sp_jstr(sid);
    let c2 = sp_jstr(message);
    assert(s == a0 + c1 + seq![','] + c2 + seq![']']);
    assert(s.subrange(0, s.len() as int) =~= s);
    let o1 = a0.len() as int;
    let o2 = o1 + c1.len();
    let o3 = o2 + 1;
    let o4 = o3 + c2.len();
    assert(s.len() == o4 + 1);
    assert(","@ =~= seq![',']);
    assert("]"@ =~= seq![']']);
    assert(s[2] == a0[2]);
    lemma_lit_mismatch(s, 0, "[\"OK\","@, 2);
    lemma_lit_mismatch(s, 0, "[\"NOTICE\","@, 2);
    lemma_lit_mismatch(s, 0, "[\"EVENT\","@, 2);
    lemma_lit_mismatch(s, 0, "[\"EOSE\","@, 2);
    assert(s.subrange(0, o1) =~= a0);
    lemma_lit_at(s, 0, a0);
    assert(s.subrange(o1, o2) =~= c1);
    lemma_parse_jstr(s, o1, sid);
    assert(s.subrange(o2, o3) =~= ","@);
    lemma_lit_at(s, o2, ","@);
    assert(s.subrange(o3, o4) =~= c2);
    lemma_parse_jstr(s, o3, message);
    assert(s.subrange(o4, o4 + 1) =~= "]"@);
    lemma_lit_at(s, o4, "]"@);
}

/// Wire-format fidelity: encoding any outbound message and reading it back
/// through the compliant client-side decoder reproduces the original
/// discriminator and field values exactly.
pub proof fn lemma_relay_round_trip(m: crate::messages::RelayMessageV)
    ensures
        sp_decode_relay(crate::encode::sp_relay(m)) == Some(m),
{
    match m {
        crate::messages::RelayMessageV::Okay { event_id, accepted, message } => {
            lemma_rt_okay(event_id, accepted, message);
        },
        crate::messages::RelayMessageV::Notice { message } => {
            lemma_rt_notice(message);
        },
        crate::messages::RelayMessageV::Event { subscription_id, event } => {
            lemma_rt_event(subscription_id, event);
        },
        crate::messages::RelayMessageV::Eose { subscription_id } => {
            lemma_rt_eose(subscription_id);
        },
        crate::messages::RelayMessageV::Closed { subscription_id, message } => {
            lemma_rt_closed(subscription_id, message);
        },
    }
}

} // verus!
