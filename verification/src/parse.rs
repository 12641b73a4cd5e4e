//! The JSON parser for the store's on-disk document.
//!
//! The grammar is the document shape the serializer writes — one object
//! `{"tasks": [...]}` whose array holds task objects with the keys id,
//! name and completed in that order — with JSON whitespace allowed
//! between tokens, string escapes decoded (`\"`, `\\`, `\/`, `\n`,
//! `\t`, `\r`, `\b`, `\f` and `\uXXXX` for characters of the basic
//! plane), and the whole input consumed. Anything else is rejected.
//!
//! `parse_doc` is the specification; `from_json` is the verified
//! parser, proved to return exactly what `parse_doc` says.

use vstd::prelude::*;
use vstd::string::StrSliceExecFns;

use crate::codec::{chars_to_string, is_dec, is_ws};
use crate::store::TODOApp;
use crate::task::{views_of, Task, TaskView};

verus! {

/// The input with its leading JSON whitespace removed.
pub open spec fn skip_ws(s: Seq<char>) -> Seq<char>
    decreases s.len(),
{
    if s.len() > 0 && is_ws(s[0]) {
        skip_ws(s.skip(1))
    } else {
        s
    }
}

/// Consumes exactly the characters of `lit`; no whitespace is allowed
/// inside the literal.
pub open spec fn parse_lit(s: Seq<char>, lit: Seq<char>) -> Option<Seq<char>>
    decreases lit.len(),
{
    if lit.len() == 0 {
        Some(s)
    } else if s.len() > 0 && s[0] == lit[0] {
        parse_lit(s.skip(1), lit.skip(1))
    } else {
        None
    }
}

/// Consumes leading whitespace and then the single character `c`.
pub open spec fn parse_sym(s: Seq<char>, c: char) -> Option<Seq<char>> {
    let t = skip_ws(s);
    if t.len() > 0 && t[0] == c {
        Some(t.skip(1))
    } else {
        None
    }
}

/// Consumes leading whitespace, the quoted key `lit` (quotes included
/// in `lit`), optional whitespace, and a colon.
pub open spec fn parse_key(s: Seq<char>, lit: Seq<char>) -> Option<Seq<char>> {
    match parse_lit(skip_ws(s), lit) {
        Some(r) => parse_sym(r, ':'),
        None => None,
    }
}

/// The numeric value of a decimal digit character.
pub open spec fn dec_val(c: char) -> int {
    c as int - '0' as int
}

/// Consumes further decimal digits, extending the value `acc`; stops at
/// the first non-digit. A value past `u32::MAX` is rejected.
pub open spec fn parse_u32_rec(s: Seq<char>, acc: u32) -> Option<(u32, Seq<char>)>
    decreases s.len(),
{
    if s.len() > 0 && is_dec(s[0]) {
        if acc * 10 + dec_val(s[0]) <= u32::MAX {
            parse_u32_rec(s.skip(1), (acc * 10 + dec_val(s[0])) as u32)
        } else {
            None
        }
    } else {
        Some((acc, s))
    }
}

/// Consumes a JSON integer in `u32` range: one or more decimal digits,
/// no sign, no leading zero.
pub open spec fn parse_u32(s: Seq<char>) -> Option<(u32, Seq<char>)> {
    if s.len() > 0 && is_dec(s[0]) {
        if s[0] == '0' {
            if s.len() > 1 && is_dec(s[1]) {
                None
            } else {
                Some((0, s.skip(1)))
            }
        } else {
            parse_u32_rec(s, 0)
        }
    } else {
        None
    }
}

/// The numeric value of a hexadecimal digit character, or -1.
pub open spec fn hex_val(c: char) -> int {
    if is_dec(c) {
        c as int - '0' as int
    } else if 'a' <= c && c <= 'f' {
        c as int - 'a' as int + 10
    } else if 'A' <= c && c <= 'F' {
        c as int - 'A' as int + 10
    } else {
        -1
    }
}

/// A hexadecimal digit character.
pub open spec fn is_hex(c: char) -> bool {
    hex_val(c) >= 0
}

/// The character named by a single-letter escape, if the letter names
/// one.
pub open spec fn esc_code(c: char) -> Option<char> {
    if c == '"' {
        Some('"')
    } else if c == '\\' {
        Some('\\')
    } else if c == '/' {
        Some('/')
    } else if c == 'n' {
        Some('\n')
    } else if c == 't' {
        Some('\t')
    } else if c == 'r' {
        Some('\r')
    } else if c == 'b' {
        Some('\u{8}')
    } else if c == 'f' {
        Some('\u{c}')
    } else {
        None
    }
}

/// Consumes the body of a JSON string after its opening quote, decoding
/// escapes into `acc`, up to and including the closing quote. A raw
/// control character, an unknown escape, or a `\u` escape naming a
/// surrogate code point is rejected.
pub open spec fn parse_str_rec(s: Seq<char>, acc: Seq<char>) -> Option<(Seq<char>, Seq<char>)>
    decreases s.len(),
{
    if s.len() == 0 {
        None
    } else if s[0] == '"' {
        Some((acc, s.skip(1)))
    } else if s[0] == '\\' {
        if s.len() < 2 {
            None
        } else if s[1] == 'u' {
            if s.len() >= 6 && is_hex(s[2]) && is_hex(s[3]) && is_hex(s[4]) && is_hex(s[5]) {
                let v = hex_val(s[2]) * 4096 + hex_val(s[3]) * 256 + hex_val(s[4]) * 16 + hex_val(
                    s[5],
                );
                if 0xD800 <= v < 0xE000 {
                    None
                } else {
                    parse_str_rec(s.skip(6), acc.push(v as char))
                }
            } else {
                None
            }
        } else {
            match esc_code(s[1]) {
                Some(c) => parse_str_rec(s.skip(2), acc.push(c)),
                None => None,
            }
        }
    } else if (s[0] as u32) < 0x20 {
        None
    } else {
        parse_str_rec(s.skip(1), acc.push(s[0]))
    }
}

/// Consumes a whole JSON string, quotes included.
pub open spec fn parse_string(s: Seq<char>) -> Option<(Seq<char>, Seq<char>)> {
    if s.len() > 0 && s[0] == '"' {
        parse_str_rec(s.skip(1), Seq::<char>::empty())
    } else {
        None
    }
}

/// Consumes `true` or `false`.
pub open spec fn parse_bool(s: Seq<char>) -> Option<(bool, Seq<char>)> {
    match parse_lit(s, seq!['t', 'r', 'u', 'e']) {
        Some(r) => Some((true, r)),
        None => match parse_lit(s, seq!['f', 'a', 'l', 's', 'e']) {
            Some(r) => Some((false, r)),
            None => None,
        },
    }
}

/// Consumes one task object: the keys id, name, completed in that
/// order, with their values.
pub open spec fn parse_task(s: Seq<char>) -> Option<(TaskView, Seq<char>)> {
    match parse_sym(s, '{') {
        None => None,
        Some(s1) => match parse_key(s1, seq!['"', 'i', 'd', '"']) {
            None => None,
            Some(s2) => match parse_u32(skip_ws(s2)) {
                None => None,
                Some((id, s3)) => match parse_sym(s3, ',') {
                    None => None,
                    Some(s4) => match parse_key(s4, seq!['"', 'n', 'a', 'm', 'e', '"']) {
                        None => None,
                        Some(s5) => match parse_string(skip_ws(s5)) {
                            None => None,
                            Some((name, s6)) => match parse_sym(s6, ',') {
                                None => None,
                                Some(s7) => match parse_key(
                                    s7,
                                    seq!['"', 'c', 'o', 'm', 'p', 'l', 'e', 't', 'e', 'd', '"'],
                                ) {
                                    None => None,
                                    Some(s8) => match parse_bool(skip_ws(s8)) {
                                        None => None,
                                        Some((done, s9)) => match parse_sym(s9, '}') {
                                            None => None,
                                            Some(s10) => Some(
                                                (TaskView { id, name, completed: done }, s10),
                                            ),
                                        },
                                    },
                                },
                            },
                        },
                    },
                },
            },
        },
    }
}

/// Consumes the rest of the task array after its first element: either
/// the closing bracket, or a comma and a further task, repeatedly.
pub open spec fn parse_more_tasks(s: Seq<char>, acc: Seq<TaskView>) -> Option<
    (Seq<TaskView>, Seq<char>),
>
    decreases s.len(),
{
    match parse_sym(s, ']') {
        Some(r) => Some((acc, r)),
        None => match parse_sym(s, ',') {
            None => None,
            Some(s1) => match parse_task(s1) {
                None => None,
                Some((t, r)) => if r.len() < s.len() {
                    parse_more_tasks(r, acc.push(t))
                } else {
                    None
                },
            },
        },
    }
}

/// Consumes the whole task array, brackets included.
pub open spec fn parse_array(s: Seq<char>) -> Option<(Seq<TaskView>, Seq<char>)> {
    match parse_sym(s, '[') {
        None => None,
        Some(s1) => match parse_sym(s1, ']') {
            Some(r) => Some((Seq::<TaskView>::empty(), r)),
            None => match parse_task(s1) {
                None => None,
                Some((t, r)) => if r.len() < s1.len() {
                    parse_more_tasks(r, seq![t])
                } else {
                    None
                },
            },
        },
    }
}

/// The meaning of a whole document: the task sequence it holds, or
/// nothing when the text is not a well-formed document of the expected
/// shape with only whitespace around it.
pub open spec fn parse_doc(s: Seq<char>) -> Option<Seq<TaskView>> {
    match parse_sym(s, '{') {
        None => None,
        Some(s1) => match parse_key(s1, seq!['"', 't', 'a', 's', 'k', 's', '"']) {
            None => None,
            Some(s2) => match parse_array(s2) {
                None => None,
                Some((ts, r)) => match parse_sym(r, '}') {
                    None => None,
                    Some(r2) => if skip_ws(r2).len() == 0 {
                        Some(ts)
                    } else {
                        None
                    },
                },
            },
        },
    }
}

/// Relies on char::from_u32: for a Unicode scalar value (not a
/// surrogate code point, at most 0x10FFFF) it returns the character
/// with that value, never `None`.
#[verifier::external_body]
fn char_of_u32(u: u32) -> (c: char)
    requires
        u < 0xD800 || (0xE000 <= u && u <= 0x10FFFF),
    ensures
        c == (u as char),
{
    char::from_u32(u).unwrap()
}

/// The characters of `s`, in order.
fn chars_of(s: &str) -> (v: Vec<char>)
    ensures
        v@ == s@,
{
    let n = s.unicode_len();
    let mut v: Vec<char> = Vec::new();
    let mut k: usize = 0;
    while k < n
        invariant
            n == s@.len(),
            0 <= k <= n,
            v@ == s@.take(k as int),
        decreases n - k,
    {
        v.push(s.get_char(k));
        proof {
            assert(v@ =~= s@.take(k + 1));
        }
        k = k + 1;
    }
    proof {
        assert(s@.take(n as int) =~= s@);
    }
    v
}

/// The position after the leading whitespace at `i`.
fn x_skip_ws(v: &Vec<char>, i: usize) -> (j: usize)
    requires
        i <= v@.len(),
    ensures
        i <= j <= v@.len(),
        skip_ws(v@.skip(i as int)) == v@.skip(j as int),
{
    let mut j = i;
    while j < v.len()
        invariant
            i <= j <= v@.len(),
            skip_ws(v@.skip(i as int)) == skip_ws(v@.skip(j as int)),
        decreases v@.len() - j,
    {
        let c = v[j];
        if c == ' ' || c == '\n' || c == '\r' || c == '\t' {
            proof {
                assert(v@.skip(j as int).skip(1) =~= v@.skip(j + 1));
            }
            j = j + 1;
        } else {
            return j;
        }
    }
    j
}

/// Consumes the exact characters of `lit` at `i`.
fn x_lit(v: &Vec<char>, i: usize, lit: &Vec<char>) -> (r: Option<usize>)
    requires
        i <= v@.len(),
    ensures
        match r {
            Some(j) => i <= j <= v@.len() && j - i == lit@.len() && parse_lit(
                v@.skip(i as int),
                lit@,
            ) == Some(v@.skip(j as int)),
            None => parse_lit(v@.skip(i as int), lit@) is None,
        },
{
    let mut j = i;
    let mut k: usize = 0;
    proof {
        assert(lit@.skip(0) =~= lit@);
    }
    while k < lit.len()
        invariant
            i <= j <= v@.len(),
            0 <= k <= lit@.len(),
            j - i == k,
            parse_lit(v@.skip(i as int), lit@) == parse_lit(v@.skip(j as int), lit@.skip(k as int)),
        decreases lit@.len() - k,
    {
        if j < v.len() && v[j] == lit[k] {
            proof {
                assert(v@.skip(j as int).skip(1) =~= v@.skip(j + 1));
                assert(lit@.skip(k as int).skip(1) =~= lit@.skip(k + 1));
            }
            j = j + 1;
            k = k + 1;
        } else {
            return None;
        }
    }
    proof {
        assert(lit@.skip(k as int) =~= Seq::<char>::empty());
    }
    Some(j)
}

/// Consumes whitespace and then the single character `c` at `i`.
fn x_sym(v: &Vec<char>, i: usize, c: char) -> (r: Option<usize>)
    requires
        i <= v@.len(),
    ensures
        match r {
            Some(j) => i < j <= v@.len() && parse_sym(v@.skip(i as int), c) == Some(
                v@.skip(j as int),
            ),
            None => parse_sym(v@.skip(i as int), c) is None,
        },
{
    let jw = x_skip_ws(v, i);
    if jw < v.len() && v[jw] == c {
        proof {
            assert(v@.skip(jw as int).skip(1) =~= v@.skip(jw + 1));
        }
        Some(jw + 1)
    } else {
        None
    }
}

/// Consumes whitespace, the quoted key `lit`, whitespace, and a colon.
fn x_key(v: &Vec<char>, i: usize, lit: &Vec<char>) -> (r: Option<usize>)
    requires
        i <= v@.len(),
    ensures
        match r {
            Some(j) => i <= j <= v@.len() && parse_key(v@.skip(i as int), lit@) == Some(
                v@.skip(j as int),
            ),
            None => parse_key(v@.skip(i as int), lit@) is None,
        },
{
    let jw = x_skip_ws(v, i);
    match x_lit(v, jw, lit) {
        Some(j1) => x_sym(v, j1, ':'),
        None => None,
    }
}

/// Consumes a decimal integer in `u32` range at `i`.
fn x_u32(v: &Vec<char>, i: usize) -> (r: Option<(u32, usize)>)
    requires
        i <= v@.len(),
    ensures
        match r {
            Some((n, j)) => i < j <= v@.len() && parse_u32(v@.skip(i as int)) == Some(
                (n, v@.skip(j as int)),
            ),
            None => parse_u32(v@.skip(i as int)) is None,
        },
{
    if i >= v.len() {
        return None;
    }
    let c0 = v[i];
    if !(c0 >= '0' && c0 <= '9') {
        return None;
    }
    if c0 == '0' {
        if i + 1 < v.len() && v[i + 1] >= '0' && v[i + 1] <= '9' {
            return None;
        }
        proof {
            assert(v@.skip(i as int).skip(1) =~= v@.skip(i + 1));
        }
        return Some((0, i + 1));
    }
    let mut acc: u32 = 0;
    let mut j = i;
    while j < v.len()
        invariant
            i <= j <= v@.len(),
            i < v@.len() && is_dec(v@[i as int]),
            parse_u32(v@.skip(i as int)) == parse_u32_rec(v@.skip(j as int), acc),
        decreases v@.len() - j,
    {
        let c = v[j];
        if c >= '0' && c <= '9' {
            let d = (c as u32) - ('0' as u32);
            let wide: u64 = (acc as u64) * 10 + (d as u64);
            if wide > 0xFFFF_FFFFu64 {
                return None;
            }
            proof {
                assert(v@.skip(j as int).skip(1) =~= v@.skip(j + 1));
            }
            acc = wide as u32;
            j = j + 1;
        } else {
            return Some((acc, j));
        }
    }
    Some((acc, j))
}

/// The value of a hexadecimal digit character, if it is one.
fn x_hex(c: char) -> (r: Option<u32>)
    ensures
        match r {
            Some(d) => is_hex(c) && hex_val(c) == d && d < 16,
            None => !is_hex(c),
        },
{
    let u = c as u32;
    if u >= 48 && u <= 57 {
        Some(u - 48)
    } else if u >= 97 && u <= 102 {
        Some(u - 97 + 10)
    } else if u >= 65 && u <= 70 {
        Some(u - 65 + 10)
    } else {
        None
    }
}

/// Consumes a whole JSON string at `i`, decoding its escapes.
fn x_string(v: &Vec<char>, i: usize) -> (r: Option<(String, usize)>)
    requires
        i <= v@.len(),
    ensures
        match r {
            Some((nm, j)) => i < j <= v@.len() && parse_string(v@.skip(i as int)) == Some(
                (nm@, v@.skip(j as int)),
            ),
            None => parse_string(v@.skip(i as int)) is None,
        },
{
    if i >= v.len() {
        return None;
    }
    if v[i] != '"' {
        return None;
    }
    let mut acc: Vec<char> = Vec::new();
    let mut j = i + 1;
    proof {
        assert(v@.skip(i as int).skip(1) =~= v@.skip(i + 1));
    }
    while j < v.len()
        invariant
            i + 1 <= j <= v@.len(),
            parse_string(v@.skip(i as int)) == parse_str_rec(v@.skip(j as int), acc@),
        decreases v@.len() - j,
    {
        let c = v[j];
        if c == '"' {
            proof {
                assert(v@.skip(j as int).skip(1) =~= v@.skip(j + 1));
            }
            let nm = chars_to_string(acc);
            return Some((nm, j + 1));
        } else if c == '\\' {
            if j + 1 >= v.len() {
                return None;
            }
            let e = v[j + 1];
            if e == 'u' {
                if v.len() - j < 6 {
                    return None;
                }
                let h2 = match x_hex(v[j + 2]) {
                    Some(d) => d,
                    None => {
                        return None;
                    },
                };
                let h3 = match x_hex(v[j + 3]) {
                    Some(d) => d,
                    None => {
                        return None;
                    },
                };
                let h4 = match x_hex(v[j + 4]) {
                    Some(d) => d,
                    None => {
                        return None;
                    },
                };
                let h5 = match x_hex(v[j + 5]) {
                    Some(d) => d,
                    None => {
                        return None;
                    },
                };
                let val = h2 * 4096 + h3 * 256 + h4 * 16 + h5;
                if val >= 0xD800 && val < 0xE000 {
                    return None;
                }
                let ch = char_of_u32(val);
                acc.push(ch);
                proof {
                    assert(v@.skip(j as int).skip(6) =~= v@.skip(j + 6));
                }
                j = j + 6;
            } else {
                let decoded: char;
                if e == '"' {
                    decoded = '"';
                } else if e == '\\' {
                    decoded = '\\';
                } else if e == '/' {
                    decoded = '/';
                } else if e == 'n' {
                    decoded = '\n';
                } else if e == 't' {
                    decoded = '\t';
                } else if e == 'r' {
                    decoded = '\r';
                } else if e == 'b' {
                    decoded = '\u{8}';
                } else if e == 'f' {
                    decoded = '\u{c}';
                } else {
                    return None;
                }
                acc.push(decoded);
                proof {
                    assert(v@.skip(j as int).skip(2) =~= v@.skip(j + 2));
                }
                j = j + 2;
            }
        } else if (c as u32) < 0x20 {
            return None;
        } else {
            acc.push(c);
            proof {
                assert(v@.skip(j as int).skip(1) =~= v@.skip(j + 1));
            }
            j = j + 1;
        }
    }
    None
}

/// The characters of `true`.
fn lit_true() -> (r: Vec<char>)
    ensures
        r@ == seq!['t', 'r', 'u', 'e'],
{
    let mut r: Vec<char> = Vec::new();
    r.push('t');
    r.push('r');
    r.push('u');
    r.push('e');
    proof {
        assert(r@ =~= seq!['t', 'r', 'u', 'e']);
    }
    r
}

/// The characters of `false`.
fn lit_false() -> (r: Vec<char>)
    ensures
        r@ == seq!['f', 'a', 'l', 's', 'e'],
{
    let mut r: Vec<char> = Vec::new();
    r.push('f');
    r.push('a');
    r.push('l');
    r.push('s');
    r.push('e');
    proof {
        assert(r@ =~= seq!['f', 'a', 'l', 's', 'e']);
    }
    r
}

/// The characters of the quoted id key.
fn lit_key_id() -> (r: Vec<char>)
    ensures
        r@ == seq!['"', 'i', 'd', '"'],
{
    let mut r: Vec<char> = Vec::new();
    r.push('"');
    r.push('i');
    r.push('d');
    r.push('"');
    proof {
        assert(r@ =~= seq!['"', 'i', 'd', '"']);
    }
    r
}

/// The characters of the quoted name key.
fn lit_key_name() -> (r: Vec<char>)
    ensures
        r@ == seq!['"', 'n', 'a', 'm', 'e', '"'],
{
    let mut r: Vec<char> = Vec::new();
    r.push('"');
    r.push('n');
    r.push('a');
    r.push('m');
    r.push('e');
    r.push('"');
    proof {
        assert(r@ =~= seq!['"', 'n', 'a', 'm', 'e', '"']);
    }
    r
}

/// The characters of the quoted completed key.
fn lit_key_completed() -> (r: Vec<char>)
    ensures
        r@ == seq!['"', 'c', 'o', 'm', 'p', 'l', 'e', 't', 'e', 'd', '"'],
{
    let mut r: Vec<char> = Vec::new();
    r.push('"');
    r.push('c');
    r.push('o');
    r.push('m');
    r.push('p');
    r.push('l');
    r.push('e');
    r.push('t');
    r.push('e');
    r.push('d');
    r.push('"');
    proof {
        assert(r@ =~= seq!['"', 'c', 'o', 'm', 'p', 'l', 'e', 't', 'e', 'd', '"']);
    }
    r
}

/// The characters of the quoted tasks key.
fn lit_key_tasks() -> (r: Vec<char>)
    ensures
        r@ == seq!['"', 't', 'a', 's', 'k', 's', '"'],
{
    let mut r: Vec<char> = Vec::new();
    r.push('"');
    r.push('t');
    r.push('a');
    r.push('s');
    r.push('k');
    r.push('s');
    r.push('"');
    proof {
        assert(r@ =~= seq!['"', 't', 'a', 's', 'k', 's', '"']);
    }
    r
}

/// Consumes `true` or `false` at `i`.
fn x_bool(v: &Vec<char>, i: usize) -> (r: Option<(bool, usize)>)
    requires
        i <= v@.len(),
    ensures
        match r {
            Some((b, j)) => i < j <= v@.len() && parse_bool(v@.skip(i as int)) == Some(
                (b, v@.skip(j as int)),
            ),
            None => parse_bool(v@.skip(i as int)) is None,
        },
{
    let t = lit_true();
    match x_lit(v, i, &t) {
        Some(j) => Some((true, j)),
        None => {
            let f = lit_false();
            match x_lit(v, i, &f) {
                Some(j) => Some((false, j)),
                None => None,
            }
        },
    }
}

/// Consumes one task object at `i`.
fn x_task(v: &Vec<char>, i: usize) -> (r: Option<(Task, usize)>)
    requires
        i <= v@.len(),
    ensures
        match r {
            Some((t, j)) => i < j <= v@.len() && parse_task(v@.skip(i as int)) == Some(
                (t@, v@.skip(j as int)),
            ),
            None => parse_task(v@.skip(i as int)) is None,
        },
{
    let j1 = match x_sym(v, i, '{') {
        Some(j) => j,
        None => {
            return None;
        },
    };
    let key_id = lit_key_id();
    let j2 = match x_key(v, j1, &key_id) {
        Some(j) => j,
        None => {
            return None;
        },
    };
    let j2w = x_skip_ws(v, j2);
    let (id, j3) = match x_u32(v, j2w) {
        Some(p) => p,
        None => {
            return None;
        },
    };
    let j4 = match x_sym(v, j3, ',') {
        Some(j) => j,
        None => {
            return None;
        },
    };
    let key_name = lit_key_name();
    let j5 = match x_key(v, j4, &key_name) {
        Some(j) => j,
        None => {
            return None;
        },
    };
    let j5w = x_skip_ws(v, j5);
    let (name, j6) = match x_string(v, j5w) {
        Some(p) => p,
        None => {
            return None;
        },
    };
    let j7 = match x_sym(v, j6, ',') {
        Some(j) => j,
        None => {
            return None;
        },
    };
    let key_completed = lit_key_completed();
    let j8 = match x_key(v, j7, &key_completed) {
        Some(j) => j,
        None => {
            return None;
        },
    };
    let j8w = x_skip_ws(v, j8);
    let (done, j9) = match x_bool(v, j8w) {
        Some(p) => p,
        None => {
            return None;
        },
    };
    let j10 = match x_sym(v, j9, '}') {
        Some(j) => j,
        None => {
            return None;
        },
    };
    Some((Task { id, name, completed: done }, j10))
}

/// Consumes the rest of the task array after its first element,
/// appending the parsed tasks.
fn x_more_tasks(v: &Vec<char>, i: usize, tasks: &mut Vec<Task>) -> (r: Option<usize>)
    requires
        i <= v@.len(),
    ensures
        match r {
            Some(j) => i <= j <= v@.len() && parse_more_tasks(
                v@.skip(i as int),
                views_of(old(tasks)@),
            ) == Some((views_of(final(tasks)@), v@.skip(j as int))),
            None => parse_more_tasks(v@.skip(i as int), views_of(old(tasks)@)) is None,
        },
    decreases v@.len() - i,
{
    match x_sym(v, i, ']') {
        Some(j) => Some(j),
        None => {
            let j1 = match x_sym(v, i, ',') {
                Some(j) => j,
                None => {
                    return None;
                },
            };
            let (t, j2) = match x_task(v, j1) {
                Some(p) => p,
                None => {
                    return None;
                },
            };
            let ghost before = views_of(tasks@);
            tasks.push(t);
            proof {
                assert(views_of(tasks@) =~= before.push(t@));
            }
            x_more_tasks(v, j2, tasks)
        },
    }
}

/// Reads a store from the text of its document. Returns the store the
/// text holds, or nothing when the text is not a well-formed document.
pub fn from_json(s: &str) -> (r: Option<TODOApp>)
    ensures
        match r {
            Some(app) => parse_doc(s@) == Some(app@),
            None => parse_doc(s@) is None,
        },
{
    let v = chars_of(s);
    proof {
        assert(v@.skip(0) =~= v@);
    }
    let j0 = match x_sym(&v, 0, '{') {
        Some(j) => j,
        None => {
            return None;
        },
    };
    let key_tasks = lit_key_tasks();
    let j1 = match x_key(&v, j0, &key_tasks) {
        Some(j) => j,
        None => {
            return None;
        },
    };
    let j2 = match x_sym(&v, j1, '[') {
        Some(j) => j,
        None => {
            return None;
        },
    };
    let mut tasks: Vec<Task> = Vec::new();
    proof {
        assert(views_of(tasks@) =~= Seq::<TaskView>::empty());
    }
    let jr: usize;
    match x_sym(&v, j2, ']') {
        Some(je) => {
            jr = je;
        },
        None => {
            let (t0, jt) = match x_task(&v, j2) {
                Some(p) => p,
                None => {
                    return None;
                },
            };
            tasks.push(t0);
            proof {
                assert(views_of(tasks@) =~= seq![t0@]);
            }
            jr = match x_more_tasks(&v, jt, &mut tasks) {
                Some(j) => j,
                None => {
                    return None;
                },
            };
        },
    }
    let j3 = match x_sym(&v, jr, '}') {
        Some(j) => j,
        None => {
            return None;
        },
    };
    let j4 = x_skip_ws(&v, j3);
    if j4 < v.len() {
        proof {
            assert(v@.skip(j4 as int).len() > 0);
        }
        return None;
    }
    proof {
        assert(v@.skip(j4 as int).len() == 0);
    }
    Some(TODOApp { tasks })
}

impl TODOApp {
    /// Replaces the store's tasks with what the text holds: the parsed
    /// sequence for a well-formed document, the empty sequence for
    /// anything else. Malformed text is never an error to the caller.
    pub fn load_from_str(&mut self, s: &str)
        ensures
            match parse_doc(s@) {
                Some(ts) => final(self)@ == ts,
                None => final(self)@ == Seq::<TaskView>::empty(),
            },
    {
        match from_json(s) {
            Some(app) => {
                self.tasks = app.tasks;
            },
            None => {
                self.tasks = Vec::new();
                proof {
                    assert(views_of(self.tasks@) =~= Seq::<TaskView>::empty());
                }
            },
        }
    }
}

} // verus!
