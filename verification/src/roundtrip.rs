//! The round-trip law: parsing a document the serializer produced
//! gives back exactly the task sequence it was produced from.
//!
//! Each lemma states that one grammar production consumes exactly the
//! text its serializer counterpart emits, with the rest of the input
//! untouched; `lemma_round_trip` composes them over the whole document.

use vstd::prelude::*;

use crate::codec::{
    dec_char, esc_char, hex_char, is_dec, is_ws, spec_bool, spec_doc, spec_escape, spec_more,
    spec_string, spec_task, spec_tasks, spec_u32,
};
use crate::parse::{
    dec_val, esc_code, hex_val, is_hex, parse_array, parse_bool, parse_doc, parse_key, parse_lit,
    parse_more_tasks, parse_string, parse_str_rec, parse_sym, parse_task, parse_u32, parse_u32_rec,
    skip_ws,
};
use crate::task::TaskView;

verus! {

/// Whitespace skipping leaves input that does not start with
/// whitespace alone.
proof fn lemma_skip_ws_clean(s: Seq<char>)
    requires
        s.len() == 0 || !is_ws(s[0]),
    ensures
        skip_ws(s) == s,
{
}

/// A literal parses exactly off the front of itself.
proof fn lemma_parse_lit_prefix(lit: Seq<char>, rest: Seq<char>)
    ensures
        parse_lit(lit + rest, lit) == Some(rest),
    decreases lit.len(),
{
    if lit.len() == 0 {
        assert(lit + rest =~= rest);
    } else {
        assert((lit + rest)[0] == lit[0]);
        assert((lit + rest).skip(1) =~= lit.skip(1) + rest);
        lemma_parse_lit_prefix(lit.skip(1), rest);
    }
}

/// A symbol parses exactly off the front of itself.
proof fn lemma_parse_sym_exact(c: char, rest: Seq<char>)
    requires
        !is_ws(c),
    ensures
        parse_sym(seq![c] + rest, c) == Some(rest),
{
    let s = seq![c] + rest;
    assert(s[0] == c);
    lemma_skip_ws_clean(s);
    assert(s.skip(1) =~= rest);
}

/// A quoted key with its colon parses exactly off the front of itself.
proof fn lemma_parse_key_exact(lit: Seq<char>, rest: Seq<char>)
    requires
        lit.len() > 0,
        lit[0] == '"',
    ensures
        parse_key(lit + (seq![':'] + rest), lit) == Some(rest),
{
    let s = lit + (seq![':'] + rest);
    assert(s[0] == '"');
    lemma_skip_ws_clean(s);
    lemma_parse_lit_prefix(lit, seq![':'] + rest);
    lemma_parse_sym_exact(':', rest);
}

/// The value of the digit-count scale of `n`: ten to the number of
/// digits `spec_u32(n)` holds.
spec fn shift10(n: u32) -> int
    decreases n,
{
    if n < 10 {
        10
    } else {
        10 * shift10(n / 10)
    }
}

/// The decimal rendering of `n` is nonempty, starts with a digit, and
/// for positive `n` not with a zero.
proof fn lemma_spec_u32_head(n: u32)
    ensures
        spec_u32(n).len() > 0,
        is_dec(spec_u32(n)[0]),
        n > 0 ==> spec_u32(n)[0] != '0',
    decreases n,
{
    if n < 10 {
        assert(spec_u32(n)[0] == dec_char(n as int));
    } else {
        lemma_spec_u32_head(n / 10);
        assert(spec_u32(n)[0] == spec_u32(n / 10)[0]);
    }
}

/// Digit accumulation consumes exactly the decimal rendering of `n`,
/// scaling the accumulator past it.
proof fn lemma_u32_rec_chain(n: u32, acc: u32, rest: Seq<char>)
    requires
        acc * shift10(n) + n <= u32::MAX,
    ensures
        shift10(n) >= 10,
        parse_u32_rec(spec_u32(n) + rest, acc) == parse_u32_rec(
            rest,
            ((acc * shift10(n) + n) as u32),
        ),
    decreases n,
{
    if n < 10 {
        let s = spec_u32(n) + rest;
        assert(s[0] == dec_char(n as int));
        assert(is_dec(s[0]));
        assert(dec_val(s[0]) == n);
        assert(s.skip(1) =~= rest);
        assert(acc * 10 + n <= u32::MAX);
    } else {
        let d = (n % 10) as u32;
        let hi = n / 10;
        assert(shift10(n) == 10 * shift10(hi));
        assert(shift10(hi) >= 10) by {
            lemma_u32_rec_chain_shift_pos(hi);
        }
        let mid = seq![dec_char(d as int)] + rest;
        assert(spec_u32(n) + rest =~= spec_u32(hi) + mid);
        assert(acc * shift10(hi) + hi <= u32::MAX) by (nonlinear_arith)
            requires
                acc * shift10(n) + n <= u32::MAX,
                shift10(n) == 10 * shift10(hi),
                shift10(hi) >= 10,
                hi == n / 10,
                d == n % 10,
                n >= 10,
        {
        }
        lemma_u32_rec_chain(hi, acc, mid);
        let a1 = (acc * shift10(hi) + hi) as u32;
        assert(mid[0] == dec_char(d as int));
        assert(is_dec(mid[0]));
        assert(dec_val(mid[0]) == d);
        assert(a1 * 10 + d == acc * shift10(n) + n) by (nonlinear_arith)
            requires
                a1 == acc * shift10(hi) + hi,
                shift10(n) == 10 * shift10(hi),
                hi == n / 10,
                d == n % 10,
                n >= 10,
        {
        }
        assert(mid.skip(1) =~= rest);
    }
}

/// The scale of any rendering is at least ten.
proof fn lemma_u32_rec_chain_shift_pos(n: u32)
    ensures
        shift10(n) >= 10,
    decreases n,
{
    if n >= 10 {
        lemma_u32_rec_chain_shift_pos(n / 10);
    }
}

/// A decimal number parses exactly off the front of its own rendering,
/// provided the rest does not begin with a further digit.
proof fn lemma_parse_u32_exact(n: u32, rest: Seq<char>)
    requires
        rest.len() == 0 || !is_dec(rest[0]),
    ensures
        parse_u32(spec_u32(n) + rest) == Some((n, rest)),
{
    let s = spec_u32(n) + rest;
    lemma_spec_u32_head(n);
    assert(s[0] == spec_u32(n)[0]);
    if n == 0 {
        assert(spec_u32(0) =~= seq!['0']);
        assert(s[0] == '0');
        if rest.len() > 0 {
            assert(s[1] == rest[0]);
        }
        assert(s.skip(1) =~= rest);
    } else {
        assert(s[0] != '0');
        lemma_u32_rec_chain_shift_pos(n);
        assert(0 * shift10(n) + n <= u32::MAX);
        lemma_u32_rec_chain(n, 0, rest);
        assert((0 * shift10(n) + n) as u32 == n);
    }
}

/// A hexadecimal digit character carries back its own value.
proof fn lemma_hex_char_val(d: int)
    requires
        0 <= d < 16,
    ensures
        is_hex(hex_char(d)),
        hex_val(hex_char(d)) == d,
{
}

/// The string body scanner consumes exactly the escaped form of a
/// name followed by the closing quote, appending the name to its
/// accumulator.
proof fn lemma_str_chain(name: Seq<char>, acc: Seq<char>, rest: Seq<char>)
    ensures
        parse_str_rec(spec_escape(name) + (seq!['"'] + rest), acc) == Some((acc + name, rest)),
    decreases name.len(),
{
    if name.len() == 0 {
        let s = spec_escape(name) + (seq!['"'] + rest);
        assert(s =~= seq!['"'] + rest);
        assert(s[0] == '"');
        assert(s.skip(1) =~= rest);
        assert(acc + name =~= acc);
    } else {
        let c0 = name[0];
        let tail = name.skip(1);
        let tail_s = spec_escape(tail) + (seq!['"'] + rest);
        let s = spec_escape(name) + (seq!['"'] + rest);
        assert(s =~= esc_char(c0) + tail_s);
        lemma_str_chain(tail, acc.push(c0), rest);
        assert(acc.push(c0) + tail =~= acc + name);
        if c0 == '"' {
            assert(s[0] == '\\' && s[1] == '"');
            assert(s.skip(2) =~= tail_s);
            assert(esc_code('"') == Some('"'));
        } else if c0 == '\\' {
            assert(s[0] == '\\' && s[1] == '\\');
            assert(s.skip(2) =~= tail_s);
            assert(esc_code('\\') == Some('\\'));
        } else if (c0 as u32) < 0x20 {
            let u = c0 as u32;
            assert(s[0] == '\\' && s[1] == 'u' && s[2] == '0' && s[3] == '0');
            assert(s[4] == hex_char((u / 16) as int) && s[5] == hex_char((u % 16) as int));
            assert(s.len() >= 6);
            lemma_hex_char_val((u / 16) as int);
            lemma_hex_char_val((u % 16) as int);
            assert(hex_val('0') == 0);
            let vv = hex_val(s[2]) * 4096 + hex_val(s[3]) * 256 + hex_val(s[4]) * 16 + hex_val(
                s[5],
            );
            assert(vv == (u / 16) * 16 + (u % 16));
            assert(vv == u);
            assert(!(0xD800 <= vv < 0xE000));
            vstd::utf8::char_u32_cast(c0, u);
            assert((vv as char) == c0);
            assert(s.skip(6) =~= tail_s);
        } else {
            assert(s[0] == c0);
            assert(s.skip(1) =~= tail_s);
        }
    }
}

/// A JSON string parses exactly off the front of its own rendering.
proof fn lemma_parse_string_exact(name: Seq<char>, rest: Seq<char>)
    ensures
        parse_string(spec_string(name) + rest) == Some((name, rest)),
{
    let s = spec_string(name) + rest;
    assert(s[0] == '"');
    assert(s.skip(1) =~= spec_escape(name) + (seq!['"'] + rest));
    lemma_str_chain(name, Seq::<char>::empty(), rest);
    assert(Seq::<char>::empty() + name =~= name);
}

/// A boolean parses exactly off the front of its own rendering.
proof fn lemma_parse_bool_exact(b: bool, rest: Seq<char>)
    ensures
        parse_bool(spec_bool(b) + rest) == Some((b, rest)),
{
    if b {
        lemma_parse_lit_prefix(seq!['t', 'r', 'u', 'e'], rest);
    } else {
        let s = spec_bool(false) + rest;
        assert(s[0] == 'f');
        assert(parse_lit(s, seq!['t', 'r', 'u', 'e']) is None);
        lemma_parse_lit_prefix(seq!['f', 'a', 'l', 's', 'e'], rest);
    }
}

/// A task object parses exactly off the front of its own rendering.
#[verifier::rlimit(100)]
proof fn lemma_parse_task_exact(t: TaskView, rest: Seq<char>)
    ensures
        parse_task(spec_task(t) + rest) == Some((t, rest)),
{
    let s = spec_task(t) + rest;
    let r7 = seq!['}'] + rest;
    let r6 = spec_bool(t.completed) + r7;
    let r5 = seq![','] + (seq!['"', 'c', 'o', 'm', 'p', 'l', 'e', 't', 'e', 'd', '"'] + (seq![':']
        + r6));
    let r4 = spec_string(t.name) + r5;
    let r3 = seq![','] + (seq!['"', 'n', 'a', 'm', 'e', '"'] + (seq![':'] + r4));
    let r2 = spec_u32(t.id) + r3;
    let r1 = seq!['"', 'i', 'd', '"'] + (seq![':'] + r2);
    assert(s =~= seq!['{'] + r1);
    lemma_parse_sym_exact('{', r1);
    lemma_parse_key_exact(seq!['"', 'i', 'd', '"'], r2);
    lemma_spec_u32_head(t.id);
    assert(r2[0] == spec_u32(t.id)[0]);
    assert(!is_ws(r2[0]));
    lemma_skip_ws_clean(r2);
    assert(!is_dec(r3[0]));
    lemma_parse_u32_exact(t.id, r3);
    lemma_parse_sym_exact(',', seq!['"', 'n', 'a', 'm', 'e', '"'] + (seq![':'] + r4));
    lemma_parse_key_exact(seq!['"', 'n', 'a', 'm', 'e', '"'], r4);
    assert(r4[0] == '"');
    lemma_skip_ws_clean(r4);
    lemma_parse_string_exact(t.name, r5);
    lemma_parse_sym_exact(
        ',',
        seq!['"', 'c', 'o', 'm', 'p', 'l', 'e', 't', 'e', 'd', '"'] + (seq![':'] + r6),
    );
    lemma_parse_key_exact(seq!['"', 'c', 'o', 'm', 'p', 'l', 'e', 't', 'e', 'd', '"'], r6);
    assert(r6[0] == spec_bool(t.completed)[0]);
    assert(!is_ws(r6[0]));
    lemma_skip_ws_clean(r6);
    lemma_parse_bool_exact(t.completed, r7);
    lemma_parse_sym_exact('}', rest);
    assert(TaskView { id: t.id, name: t.name, completed: t.completed } == t);
}

/// The tail of a task array parses exactly off the front of its own
/// rendering, appending its tasks to the accumulator.
proof fn lemma_parse_more_exact(ts: Seq<TaskView>, acc: Seq<TaskView>, rest: Seq<char>)
    ensures
        parse_more_tasks(spec_more(ts) + (seq![']'] + rest), acc) == Some((acc + ts, rest)),
    decreases ts.len(),
{
    let s = spec_more(ts) + (seq![']'] + rest);
    if ts.len() == 0 {
        assert(s =~= seq![']'] + rest);
        lemma_parse_sym_exact(']', rest);
        assert(acc + ts =~= acc);
    } else {
        let s2 = spec_more(ts.skip(1)) + (seq![']'] + rest);
        let s1 = spec_task(ts[0]) + s2;
        assert(s =~= seq![','] + s1);
        assert(s[0] == ',');
        lemma_skip_ws_clean(s);
        assert(parse_sym(s, ']') is None);
        lemma_parse_sym_exact(',', s1);
        lemma_parse_task_exact(ts[0], s2);
        assert(s2.len() < s.len());
        lemma_parse_more_exact(ts.skip(1), acc.push(ts[0]), rest);
        assert(acc.push(ts[0]) + ts.skip(1) =~= acc + ts);
    }
}

/// The round-trip law: a document the serializer wrote for any task
/// sequence parses back to exactly that sequence.
pub proof fn lemma_round_trip(ts: Seq<TaskView>)
    ensures
        parse_doc(spec_doc(ts)) == Some(ts),
{
    let d = spec_doc(ts);
    let end = Seq::<char>::empty();
    let dr4 = seq!['}'] + end;
    let dr3 = spec_tasks(ts) + (seq![']'] + dr4);
    let dr2 = seq!['['] + dr3;
    let dr1 = seq!['"', 't', 'a', 's', 'k', 's', '"'] + (seq![':'] + dr2);
    assert(d =~= seq!['{'] + dr1);
    lemma_parse_sym_exact('{', dr1);
    lemma_parse_key_exact(seq!['"', 't', 'a', 's', 'k', 's', '"'], dr2);
    lemma_parse_sym_exact('[', dr3);
    if ts.len() == 0 {
        assert(dr3 =~= seq![']'] + dr4);
        lemma_parse_sym_exact(']', dr4);
        assert(parse_array(dr2) == Some((Seq::<TaskView>::empty(), dr4)));
        assert(Seq::<TaskView>::empty() =~= ts);
    } else {
        let tr = spec_more(ts.skip(1)) + (seq![']'] + dr4);
        assert(dr3 =~= spec_task(ts[0]) + tr);
        assert(dr3[0] == spec_task(ts[0])[0]);
        assert(dr3[0] == '{');
        lemma_skip_ws_clean(dr3);
        assert(parse_sym(dr3, ']') is None);
        lemma_parse_task_exact(ts[0], tr);
        assert(tr.len() < dr3.len());
        lemma_parse_more_exact(ts.skip(1), seq![ts[0]], dr4);
        assert(seq![ts[0]] + ts.skip(1) =~= ts);
    }
    lemma_parse_sym_exact('}', end);
    assert(skip_ws(end).len() == 0);
}

} // verus!
