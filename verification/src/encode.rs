use vstd::prelude::*;
use crate::event::{Event, EventV};
use crate::messages::{RelayMessage, RelayMessageV};
use crate::numbers::{dec_digits, hex_char};
use crate::strings::{string_to_chars, chars_to_string};

verus! {

/// How one character is written inside a JSON string: quote and backslash get
/// a backslash escape, the common control characters their short escapes, the
/// remaining control characters a `\u00XX` escape, and everything else stands
/// for itself.
pub open spec fn escape_char(c: char) -> Seq<char> {
    if c == '"' {
        seq!['\\', '"']
    } else if c == '\\' {
        seq!['\\', '\\']
    } else if c == '\n' {
        seq!['\\', 'n']
    } else if c == '\r' {
        seq!['\\', 'r']
    } else if c == '\t' {
        seq!['\\', 't']
    } else if (c as u32) < 32 {
        seq!['\\', 'u', '0', '0', hex_char((c as u32 / 16) as nat), hex_char((c as u32 % 16) as nat)]
    } else {
        seq![c]
    }
}

/// The body of a JSON string: every character escaped, in order.
pub open spec fn sp_escape(s: Seq<char>) -> Seq<char>
    decreases s.len(),
{
    if s.len() == 0 {
        Seq::empty()
    } else {
        escape_char(s[0]) + sp_escape(s.drop_first())
    }
}

/// A JSON string: quoted, escaped body.
pub open spec fn sp_jstr(s: Seq<char>) -> Seq<char> {
    seq!['"'] + sp_escape(s) + seq!['"']
}

/// The items of a JSON array of strings after the first, each preceded by a
/// comma, starting at index `k`.
pub open spec fn sp_jstr_items(xs: Seq<Seq<char>>, k: int) -> Seq<char>
    decreases xs.len() - k,
{
    if k < 0 || k >= xs.len() {
        Seq::empty()
    } else {
        seq![','] + sp_jstr(xs[k]) + sp_jstr_items(xs, k + 1)
    }
}

/// A JSON array of strings.
pub open spec fn sp_str_array(xs: Seq<Seq<char>>) -> Seq<char> {
    if xs.len() == 0 {
        seq!['[', ']']
    } else {
        seq!['['] + sp_jstr(xs[0]) + sp_jstr_items(xs, 1) + seq![']']
    }
}

/// The items of a JSON array of string arrays after the first.
pub open spec fn sp_tags_items(ts: Seq<Seq<Seq<char>>>, k: int) -> Seq<char>
    decreases ts.len() - k,
{
    if k < 0 || k >= ts.len() {
        Seq::empty()
    } else {
        seq![','] + sp_str_array(ts[k]) + sp_tags_items(ts, k + 1)
    }
}

/// A JSON array of string arrays: the writing of an event's tags.
pub open spec fn sp_tags_array(ts: Seq<Seq<Seq<char>>>) -> Seq<char> {
    if ts.len() == 0 {
        seq!['[', ']']
    } else {
        seq!['['] + sp_str_array(ts[0]) + sp_tags_items(ts, 1) + seq![']']
    }
}

/// The JSON object for an event, fields in their canonical order.
pub open spec fn sp_event(e: EventV) -> Seq<char> {
    "{\"id\":"@ + sp_jstr(e.id) + ",\"pubkey\":"@ + sp_jstr(e.pubkey) + ",\"created_at\":"@
        + dec_digits(e.created_at as nat) + ",\"kind\":"@ + dec_digits(e.kind as nat) + ",\"tags\":"@
        + sp_tags_array(e.tags) + ",\"content\":"@ + sp_jstr(e.content) + ",\"sig\":"@
        + sp_jstr(e.sig) + "}"@
}

/// The wire form of an outbound message: a JSON array, discriminator first,
/// positionally typed.
pub open spec fn sp_relay(m: RelayMessageV) -> Seq<char> {
    match m {
        RelayMessageV::Okay { event_id, accepted, message } => "[\"OK\","@ + sp_jstr(event_id)
            + seq![','] + (if accepted { "true"@ } else { "false"@ }) + seq![','] + sp_jstr(message)
            + seq![']'],
        RelayMessageV::Notice { message } => "[\"NOTICE\","@ + sp_jstr(message) + seq![']'],
        RelayMessageV::Event { subscription_id, event } => "[\"EVENT\","@ + sp_jstr(subscription_id)
            + seq![','] + sp_event(event) + seq![']'],
        RelayMessageV::Eose { subscription_id } => "[\"EOSE\","@ + sp_jstr(subscription_id)
            + seq![']'],
        RelayMessageV::Closed { subscription_id, message } => "[\"CLOSED\","@
            + sp_jstr(subscription_id) + seq![','] + sp_jstr(message) + seq![']'],
    }
}

/// Appending one character to the input appends its escape to the output.
pub proof fn lemma_escape_push(s: Seq<char>, c: char)
    ensures
        sp_escape(s.push(c)) == sp_escape(s) + escape_char(c),
    decreases s.len(),
{
    if s.len() == 0 {
        assert(s.push(c) =~= seq![c]);
        assert(seq![c][0] == c);
        assert(seq![c].drop_first() =~= Seq::<char>::empty());
        assert(sp_escape(seq![c]) == escape_char(c) + sp_escape(seq![c].drop_first()));
        assert(sp_escape(Seq::<char>::empty()) == Seq::<char>::empty());
        assert(escape_char(c) + Seq::<char>::empty() =~= escape_char(c));
        assert(sp_escape(s) + escape_char(c) =~= escape_char(c));
    } else {
        assert(s.push(c).drop_first() =~= s.drop_first().push(c));
        lemma_escape_push(s.drop_first(), c);
        assert(s.push(c)[0] == s[0]);
        assert(sp_escape(s.push(c)) == escape_char(s[0]) + (sp_escape(s.drop_first())
            + escape_char(c)));
        assert(escape_char(s[0]) + (sp_escape(s.drop_first()) + escape_char(c)) =~= (escape_char(
            s[0],
        ) + sp_escape(s.drop_first())) + escape_char(c));
    }
}

/// Appends the characters of `s` to `out`.
pub fn append_chars(out: &mut Vec<char>, s: &Vec<char>)
    ensures
        final(out)@ == old(out)@ + s@,
{
    let mut i: usize = 0;
    proof {
        assert(out@ =~= old(out)@ + s@.take(0));
    }
    while i < s.len()
        invariant
            0 <= i <= s@.len(),
            out@ == old(out)@ + s@.take(i as int),
        decreases s@.len() - i,
    {
        out.push(s[i]);
        proof {
            assert(old(out)@ + s@.take(i + 1) =~= (old(out)@ + s@.take(i as int)).push(s@[i as int]));
        }
        i = i + 1;
    }
    proof {
        assert(s@.take(s@.len() as int) =~= s@);
    }
}

/// Appends a literal piece of the wire format to `out`.
pub fn append_lit(out: &mut Vec<char>, lit: &str)
    ensures
        final(out)@ == old(out)@ + lit@,
{
    let v = string_to_chars(lit);
    append_chars(out, &v);
}

/// The lowercase character of a hexadecimal digit value.
pub fn hex_char_of(n: u32) -> (c: char)
    requires
        n < 16,
    ensures
        c == hex_char(n as nat),
{
    if n == 0 { '0' }
    else if n == 1 { '1' }
    else if n == 2 { '2' }
    else if n == 3 { '3' }
    else if n == 4 { '4' }
    else if n == 5 { '5' }
    else if n == 6 { '6' }
    else if n == 7 { '7' }
    else if n == 8 { '8' }
    else if n == 9 { '9' }
    else if n == 10 { 'a' }
    else if n == 11 { 'b' }
    else if n == 12 { 'c' }
    else if n == 13 { 'd' }
    else if n == 14 { 'e' }
    else { 'f' }
}

/// Appends one character of a JSON string body, escaped.
pub fn append_escaped_char(out: &mut Vec<char>, c: char)
    ensures
        final(out)@ == old(out)@ + escape_char(c),
{
    if c == '"' {
        out.push('\\');
        out.push('"');
        proof {
            assert(out@ =~= old(out)@ + escape_char(c));
        }
    } else if c == '\\' {
        out.push('\\');
        out.push('\\');
        proof {
            assert(out@ =~= old(out)@ + escape_char(c));
        }
    } else if c == '\n' {
        out.push('\\');
        out.push('n');
        proof {
            assert(out@ =~= old(out)@ + escape_char(c));
        }
    } else if c == '\r' {
        out.push('\\');
        out.push('r');
        proof {
            assert(out@ =~= old(out)@ + escape_char(c));
        }
    } else if c == '\t' {
        out.push('\\');
        out.push('t');
        proof {
            assert(out@ =~= old(out)@ + escape_char(c));
        }
    } else {
        let cu = c as u32;
        if cu < 32 {
            out.push('\\');
            out.push('u');
            out.push('0');
            out.push('0');
            out.push(hex_char_of(cu / 16));
            out.push(hex_char_of(cu % 16));
            proof {
                assert(out@ =~= old(out)@ + escape_char(c));
            }
        } else {
            out.push(c);
            proof {
                assert(out@ =~= old(out)@ + escape_char(c));
            }
        }
    }
}

/// Appends the escaped body of a JSON string to `out`.
pub fn append_escaped(out: &mut Vec<char>, s: &Vec<char>)
    ensures
        final(out)@ == old(out)@ + sp_escape(s@),
{
    let mut i: usize = 0;
    proof {
        assert(s@.take(0) =~= Seq::<char>::empty());
        assert(out@ =~= old(out)@ + sp_escape(s@.take(0)));
    }
    while i < s.len()
        invariant
            0 <= i <= s@.len(),
            out@ == old(out)@ + sp_escape(s@.take(i as int)),
        decreases s@.len() - i,
    {
        append_escaped_char(out, s[i]);
        proof {
            assert(s@.take(i + 1) =~= s@.take(i as int).push(s@[i as int]));
            lemma_escape_push(s@.take(i as int), s@[i as int]);
            assert(out@ =~= old(out)@ + sp_escape(s@.take(i + 1)));
        }
        i = i + 1;
    }
    proof {
        assert(s@.take(s@.len() as int) =~= s@);
    }
}

/// Appends a whole JSON string — quotes, escaped body — to `out`.
pub fn append_jstr(out: &mut Vec<char>, s: &str)
    ensures
        final(out)@ == old(out)@ + sp_jstr(s@),
{
    let v = string_to_chars(s);
    out.push('"');
    append_escaped(out, &v);
    out.push('"');
    proof {
        assert(out@ =~= old(out)@ + sp_jstr(s@));
    }
}

/// The character of a decimal digit value.
pub fn digit_char_of(n: u64) -> (c: char)
    requires
        n < 10,
    ensures
        c == crate::numbers::digit_char(n as nat),
{
    if n == 0 { '0' }
    else if n == 1 { '1' }
    else if n == 2 { '2' }
    else if n == 3 { '3' }
    else if n == 4 { '4' }
    else if n == 5 { '5' }
    else if n == 6 { '6' }
    else if n == 7 { '7' }
    else if n == 8 { '8' }
    else { '9' }
}

/// Appends the decimal writing of `n` to `out`.
pub fn append_u64_dec(out: &mut Vec<char>, n: u64)
    ensures
        final(out)@ == old(out)@ + dec_digits(n as nat),
    decreases n,
{
    if n < 10 {
        out.push(digit_char_of(n));
        proof {
            assert(out@ =~= old(out)@ + dec_digits(n as nat));
        }
    } else {
        append_u64_dec(out, n / 10);
        out.push(digit_char_of(n % 10));
        proof {
            assert(out@ =~= old(out)@ + dec_digits(n as nat));
        }
    }
}

/// Appends a JSON array of strings to `out`.
pub fn append_str_array(out: &mut Vec<char>, xs: &Vec<String>)
    ensures
        final(out)@ == old(out)@ + sp_str_array(xs.deep_view()),
{
    let ghost dv: Seq<Seq<char>> = xs.deep_view();
    if xs.len() == 0 {
        out.push('[');
        out.push(']');
        proof {
            assert(out@ =~= old(out)@ + sp_str_array(dv));
        }
        return;
    }
    out.push('[');
    append_jstr(out, xs[0].as_str());
    let mut k: usize = 1;
    proof {
        assert(dv[0] == xs@[0]@);
        assert(out@ + sp_jstr_items(dv, 1) + seq![']'] =~= old(out)@ + sp_str_array(dv));
    }
    while k < xs.len()
        invariant
            1 <= k <= xs@.len(),
            dv == xs.deep_view(),
            dv.len() == xs@.len(),
            out@ + sp_jstr_items(dv, k as int) + seq![']'] == old(out)@ + sp_str_array(dv),
        decreases xs@.len() - k,
    {
        let ghost before = out@;
        out.push(',');
        append_jstr(out, xs[k].as_str());
        proof {
            assert(dv[k as int] == xs@[k as int]@);
            assert(out@ =~= before + (seq![','] + sp_jstr(dv[k as int])));
            assert(out@ + sp_jstr_items(dv, k + 1) + seq![']'] =~= before + sp_jstr_items(
                dv,
                k as int,
            ) + seq![']']);
        }
        k = k + 1;
    }
    out.push(']');
    proof {
        assert(sp_jstr_items(dv, xs@.len() as int) =~= Seq::<char>::empty());
        assert(out@ =~= old(out)@ + sp_str_array(dv));
    }
}

/// Appends the JSON writing of an event's tags to `out`.
pub fn append_tags_array(out: &mut Vec<char>, ts: &Vec<Vec<String>>)
    ensures
        final(out)@ == old(out)@ + sp_tags_array(ts.deep_view()),
{
    let ghost dv: Seq<Seq<Seq<char>>> = ts.deep_view();
    if ts.len() == 0 {
        out.push('[');
        out.push(']');
        proof {
            assert(out@ =~= old(out)@ + sp_tags_array(dv));
        }
        return;
    }
    out.push('[');
    append_str_array(out, &ts[0]);
    let mut k: usize = 1;
    proof {
        assert(dv[0] == ts@[0].deep_view());
        assert(out@ + sp_tags_items(dv, 1) + seq![']'] =~= old(out)@ + sp_tags_array(dv));
    }
    while k < ts.len()
        invariant
            1 <= k <= ts@.len(),
            dv == ts.deep_view(),
            dv.len() == ts@.len(),
            out@ + sp_tags_items(dv, k as int) + seq![']'] == old(out)@ + sp_tags_array(dv),
        decreases ts@.len() - k,
    {
        let ghost before = out@;
        out.push(',');
        append_str_array(out, &ts[k]);
        proof {
            assert(dv[k as int] == ts@[k as int].deep_view());
            assert(out@ =~= before + (seq![','] + sp_str_array(dv[k as int])));
            assert(out@ + sp_tags_items(dv, k + 1) + seq![']'] =~= before + sp_tags_items(
                dv,
                k as int,
            ) + seq![']']);
        }
        k = k + 1;
    }
    out.push(']');
    proof {
        assert(sp_tags_items(dv, ts@.len() as int) =~= Seq::<char>::empty());
        assert(out@ =~= old(out)@ + sp_tags_array(dv));
    }
}

/// Appends the JSON object for an event to `out`, fields in canonical order.
pub fn append_event(out: &mut Vec<char>, e: &Event)
    ensures
        final(out)@ == old(out)@ + sp_event(e@),
{
    append_lit(out, "{\"id\":");
    append_jstr(out, e.id.as_str());
    append_lit(out, ",\"pubkey\":");
    append_jstr(out, e.pubkey.as_str());
    append_lit(out, ",\"created_at\":");
    append_u64_dec(out, e.created_at);
    append_lit(out, ",\"kind\":");
    append_u64_dec(out, e.kind as u64);
    append_lit(out, ",\"tags\":");
    append_tags_array(out, &e.tags);
    append_lit(out, ",\"content\":");
    append_jstr(out, e.content.as_str());
    append_lit(out, ",\"sig\":");
    append_jstr(out, e.sig.as_str());
    append_lit(out, "}");
    proof {
        assert(out@ =~= old(out)@ + sp_event(e@));
    }
}

/// Serializes an outbound message into its wire form. Pure: the result is a
/// function of the message alone, its exact character sequence given by
/// [`sp_relay`].
pub fn encode_relay_message(m: &RelayMessage) -> (s: String)
    ensures
        s@ == sp_relay(m@),
{
    let mut out: Vec<char> = Vec::new();
    match m {
        RelayMessage::Okay { event_id, accepted, message } => {
            append_lit(&mut out, "[\"OK\",");
            append_jstr(&mut out, event_id.as_str());
            out.push(',');
            if *accepted {
                append_lit(&mut out, "true");
            } else {
                append_lit(&mut out, "false");
            }
            out.push(',');
            append_jstr(&mut out, message.as_str());
            out.push(']');
        },
        RelayMessage::Notice { message } => {
            append_lit(&mut out, "[\"NOTICE\",");
            append_jstr(&mut out, message.as_str());
            out.push(']');
        },
        RelayMessage::Event { subscription_id, event } => {
            append_lit(&mut out, "[\"EVENT\",");
            append_jstr(&mut out, subscription_id.as_str());
            out.push(',');
            append_event(&mut out, event);
            out.push(']');
        },
        RelayMessage::Eose { subscription_id } => {
            append_lit(&mut out, "[\"EOSE\",");
            append_jstr(&mut out, subscription_id.as_str());
            out.push(']');
        },
        RelayMessage::Closed { subscription_id, message } => {
            append_lit(&mut out, "[\"CLOSED\",");
            append_jstr(&mut out, subscription_id.as_str());
            out.push(',');
            append_jstr(&mut out, message.as_str());
            out.push(']');
        },
    }
    proof {
        assert(out@ =~= sp_relay(m@));
    }
    chars_to_string(&out)
}

} // verus!
