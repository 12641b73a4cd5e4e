//! The JSON codec for the store's on-disk document.
//!
//! The document is one JSON object `{"tasks": [...]}` whose array holds
//! one object per task with the keys `id` (a decimal integer), `name`
//! (a JSON string) and `completed` (`true` or `false`), in that order.
//! The serializer emits the document without surrounding whitespace;
//! the parser additionally accepts JSON whitespace between tokens.

use vstd::prelude::*;

use crate::store::TODOApp;
use crate::task::{Task, TaskView};

verus! {

/// The decimal digit character for `d` (0 to 9).
pub open spec fn dec_char(d: int) -> char {
    (('0' as int) + d) as char
}

/// The decimal rendering of `n`, most significant digit first, with no
/// sign and no leading zero.
pub open spec fn spec_u32(n: u32) -> Seq<char>
    decreases n,
{
    if n < 10 {
        seq![dec_char(n as int)]
    } else {
        spec_u32(n / 10).push(dec_char((n % 10) as int))
    }
}

/// The lower-case hexadecimal digit character for `d` (0 to 15).
pub open spec fn hex_char(d: int) -> char {
    if d < 10 {
        dec_char(d)
    } else {
        (('a' as int) + (d - 10)) as char
    }
}

/// JSON whitespace.
pub open spec fn is_ws(c: char) -> bool {
    c == ' ' || c == '\n' || c == '\r' || c == '\t'
}

/// A decimal digit character.
pub open spec fn is_dec(c: char) -> bool {
    '0' <= c && c <= '9'
}

/// How one character of a task name is written inside a JSON string:
/// quote and backslash get a backslash escape, control characters a
/// `\u00XX` escape, and every other character stands as itself.
pub open spec fn esc_char(c: char) -> Seq<char> {
    if c == '"' {
        seq!['\\', '"']
    } else if c == '\\' {
        seq!['\\', '\\']
    } else if (c as u32) < 0x20 {
        seq![
            '\\',
            'u',
            '0',
            '0',
            hex_char(((c as u32) / 16) as int),
            hex_char(((c as u32) % 16) as int),
        ]
    } else {
        seq![c]
    }
}

/// The escaped body of a JSON string holding the characters `s`.
pub open spec fn spec_escape(s: Seq<char>) -> Seq<char>
    decreases s.len(),
{
    if s.len() == 0 {
        Seq::<char>::empty()
    } else {
        esc_char(s[0]) + spec_escape(s.skip(1))
    }
}

/// The JSON string for the characters `s`, quotes included.
pub open spec fn spec_string(s: Seq<char>) -> Seq<char> {
    seq!['"'] + spec_escape(s) + seq!['"']
}

/// The JSON rendering of a boolean.
pub open spec fn spec_bool(b: bool) -> Seq<char> {
    if b {
        seq!['t', 'r', 'u', 'e']
    } else {
        seq!['f', 'a', 'l', 's', 'e']
    }
}

/// The JSON object for one task, with the keys in the order the store
/// writes them: id, name, completed.
pub open spec fn spec_task(t: TaskView) -> Seq<char> {
    seq!['{', '"', 'i', 'd', '"', ':'] + spec_u32(t.id) + seq![',', '"', 'n', 'a', 'm', 'e', '"', ':']
        + spec_string(t.name) + seq![
        ',',
        '"',
        'c',
        'o',
        'm',
        'p',
        'l',
        'e',
        't',
        'e',
        'd',
        '"',
        ':',
    ] + spec_bool(t.completed) + seq!['}']
}

/// The comma-separated task objects after the first one.
pub open spec fn spec_more(ts: Seq<TaskView>) -> Seq<char>
    decreases ts.len(),
{
    if ts.len() == 0 {
        Seq::<char>::empty()
    } else {
        seq![','] + spec_task(ts[0]) + spec_more(ts.skip(1))
    }
}

/// The body of the task array: the task objects, comma separated.
pub open spec fn spec_tasks(ts: Seq<TaskView>) -> Seq<char> {
    if ts.len() == 0 {
        Seq::<char>::empty()
    } else {
        spec_task(ts[0]) + spec_more(ts.skip(1))
    }
}

/// The whole document for a store holding the tasks `ts`.
pub open spec fn spec_doc(ts: Seq<TaskView>) -> Seq<char> {
    seq!['{', '"', 't', 'a', 's', 'k', 's', '"', ':', '['] + spec_tasks(ts) + seq![']', '}']
}

/// The escaped body of a one-character name is that character's escape.
pub proof fn lemma_escape_one(c: char)
    ensures
        spec_escape(seq![c]) == esc_char(c),
{
    assert(seq![c].skip(1) =~= Seq::<char>::empty());
    assert(spec_escape(Seq::<char>::empty()) == Seq::<char>::empty());
    assert(spec_escape(seq![c]) == esc_char(c) + spec_escape(seq![c].skip(1)));
    assert(esc_char(c) + Seq::<char>::empty() =~= esc_char(c));
}

/// Escaping distributes over concatenation of name fragments.
pub proof fn lemma_escape_append(a: Seq<char>, b: Seq<char>)
    ensures
        spec_escape(a + b) == spec_escape(a) + spec_escape(b),
    decreases a.len(),
{
    if a.len() == 0 {
        assert(a + b =~= b);
        assert(spec_escape(a) + spec_escape(b) =~= spec_escape(b));
    } else {
        assert((a + b).skip(1) =~= a.skip(1) + b);
        lemma_escape_append(a.skip(1), b);
        assert(esc_char(a[0]) + (spec_escape(a.skip(1)) + spec_escape(b)) =~= (esc_char(a[0])
            + spec_escape(a.skip(1))) + spec_escape(b));
    }
}

/// The separated form distributes over concatenation of task lists.
pub proof fn lemma_more_append(a: Seq<TaskView>, b: Seq<TaskView>)
    ensures
        spec_more(a + b) == spec_more(a) + spec_more(b),
    decreases a.len(),
{
    if a.len() == 0 {
        assert(a + b =~= b);
        assert(spec_more(a) + spec_more(b) =~= spec_more(b));
    } else {
        assert((a + b).skip(1) =~= a.skip(1) + b);
        lemma_more_append(a.skip(1), b);
        assert((seq![','] + spec_task(a[0])) + (spec_more(a.skip(1)) + spec_more(b)) =~= ((seq![
            ',',
        ] + spec_task(a[0])) + spec_more(a.skip(1))) + spec_more(b));
    }
}

/// Extending a task list by one task appends one more array element.
pub proof fn lemma_tasks_snoc(ts: Seq<TaskView>, k: int)
    requires
        0 <= k < ts.len(),
    ensures
        k == 0 ==> spec_tasks(ts.take(1)) == spec_task(ts[0]),
        k > 0 ==> spec_tasks(ts.take(k + 1)) == spec_tasks(ts.take(k)) + (seq![','] + spec_task(
            ts[k],
        )),
{
    if k == 0 {
        assert(ts.take(1)[0] == ts[0]);
        assert(ts.take(1).skip(1) =~= Seq::<TaskView>::empty());
        assert(spec_task(ts[0]) + Seq::<char>::empty() =~= spec_task(ts[0]));
    } else {
        let a = ts.take(k + 1);
        assert(a.skip(1) =~= ts.take(k).skip(1) + seq![ts[k]]);
        lemma_more_append(ts.take(k).skip(1), seq![ts[k]]);
        assert(spec_more(seq![ts[k]]) == seq![','] + spec_task(ts[k]) + spec_more(
            seq![ts[k]].skip(1),
        ));
        assert(seq![ts[k]].skip(1) =~= Seq::<TaskView>::empty());
        assert(a[0] == ts[0] && ts.take(k)[0] == ts[0]);
        assert(seq![','] + spec_task(ts[k]) + Seq::<char>::empty() =~= seq![','] + spec_task(
            ts[k],
        ));
        assert(spec_task(a[0]) + (spec_more(ts.take(k).skip(1)) + (seq![','] + spec_task(ts[k])))
            =~= (spec_task(ts.take(k)[0]) + spec_more(ts.take(k).skip(1))) + (seq![','] + spec_task(
            ts[k],
        )));
    }
}

/// The decimal digit character for the digit `d`.
fn dec_digit(d: u32) -> (c: char)
    requires
        d < 10,
    ensures
        c == dec_char(d as int),
{
    (('0' as u8) + d as u8) as char
}

/// The lower-case hexadecimal digit character for the digit `d`.
fn hex_digit(d: u32) -> (c: char)
    requires
        d < 16,
    ensures
        c == hex_char(d as int),
{
    if d < 10 {
        (('0' as u8) + d as u8) as char
    } else {
        (('a' as u8) + (d - 10) as u8) as char
    }
}

/// Appends the decimal rendering of `n`.
pub(crate) fn emit_u32(out: &mut Vec<char>, n: u32)
    ensures
        final(out)@ == old(out)@ + spec_u32(n),
    decreases n,
{
    let ghost before = out@;
    if n < 10 {
        out.push(dec_digit(n));
        proof {
            assert(out@ =~= before + spec_u32(n));
        }
    } else {
        emit_u32(out, n / 10);
        out.push(dec_digit(n % 10));
        proof {
            assert(out@ =~= before + spec_u32(n));
        }
    }
}

/// Appends the escaped body of the JSON string for `s`.
fn emit_escaped(out: &mut Vec<char>, s: &str)
    ensures
        final(out)@ == old(out)@ + spec_escape(s@),
{
    let ghost before = out@;
    let n = s.unicode_len();
    let mut k: usize = 0;
    while k < n
        invariant
            n == s@.len(),
            0 <= k <= n,
            out@ == before + spec_escape(s@.take(k as int)),
        decreases n - k,
    {
        let c = s.get_char(k);
        let ghost done = s@.take(k as int);
        if c == '"' {
            out.push('\\');
            out.push('"');
        } else if c == '\\' {
            out.push('\\');
            out.push('\\');
        } else if (c as u32) < 0x20 {
            out.push('\\');
            out.push('u');
            out.push('0');
            out.push('0');
            out.push(hex_digit((c as u32) / 16));
            out.push(hex_digit((c as u32) % 16));
        } else {
            out.push(c);
        }
        proof {
            assert(s@.take(k + 1) =~= done + seq![s@[k as int]]);
            lemma_escape_append(done, seq![s@[k as int]]);
            lemma_escape_one(s@[k as int]);
            assert(out@ =~= before + spec_escape(s@.take(k + 1)));
        }
        k = k + 1;
    }
    proof {
        assert(s@.take(n as int) =~= s@);
    }
}

/// Appends the JSON string for `s`, quotes included.
fn emit_string(out: &mut Vec<char>, s: &str)
    ensures
        final(out)@ == old(out)@ + spec_string(s@),
{
    let ghost before = out@;
    out.push('"');
    emit_escaped(out, s);
    out.push('"');
    proof {
        assert(out@ =~= before + spec_string(s@));
    }
}

/// Appends the opening of a task object up to the id value: `{"id":`.
fn emit_id_key(out: &mut Vec<char>)
    ensures
        final(out)@ == old(out)@ + seq!['{', '"', 'i', 'd', '"', ':'],
{
    let ghost before = out@;
    out.push('{');
    out.push('"');
    out.push('i');
    out.push('d');
    out.push('"');
    out.push(':');
    proof {
        assert(out@ =~= before + seq!['{', '"', 'i', 'd', '"', ':']);
    }
}

/// Appends the separator and name key: `,"name":`.
fn emit_name_key(out: &mut Vec<char>)
    ensures
        final(out)@ == old(out)@ + seq![',', '"', 'n', 'a', 'm', 'e', '"', ':'],
{
    let ghost before = out@;
    out.push(',');
    out.push('"');
    out.push('n');
    out.push('a');
    out.push('m');
    out.push('e');
    out.push('"');
    out.push(':');
    proof {
        assert(out@ =~= before + seq![',', '"', 'n', 'a', 'm', 'e', '"', ':']);
    }
}

/// Appends the separator and completed key: `,"completed":`.
fn emit_completed_key(out: &mut Vec<char>)
    ensures
        final(out)@ == old(out)@ + seq![
            ',',
            '"',
            'c',
            'o',
            'm',
            'p',
            'l',
            'e',
            't',
            'e',
            'd',
            '"',
            ':',
        ],
{
    let ghost before = out@;
    out.push(',');
    out.push('"');
    out.push('c');
    out.push('o');
    out.push('m');
    out.push('p');
    out.push('l');
    out.push('e');
    out.push('t');
    out.push('e');
    out.push('d');
    out.push('"');
    out.push(':');
    proof {
        assert(out@ =~= before + seq![
            ',',
            '"',
            'c',
            'o',
            'm',
            'p',
            'l',
            'e',
            't',
            'e',
            'd',
            '"',
            ':',
        ]);
    }
}

/// Appends `true` or `false`.
fn emit_bool(out: &mut Vec<char>, b: bool)
    ensures
        final(out)@ == old(out)@ + spec_bool(b),
{
    let ghost before = out@;
    if b {
        out.push('t');
        out.push('r');
        out.push('u');
        out.push('e');
    } else {
        out.push('f');
        out.push('a');
        out.push('l');
        out.push('s');
        out.push('e');
    }
    proof {
        assert(out@ =~= before + spec_bool(b));
    }
}

/// Appends the JSON object for one task.
#[verifier::rlimit(50)]
fn emit_task(out: &mut Vec<char>, t: &Task)
    ensures
        final(out)@ == old(out)@ + spec_task(t@),
{
    let ghost before = out@;
    emit_id_key(out);
    emit_u32(out, t.id);
    emit_name_key(out);
    emit_string(out, t.name.as_str());
    emit_completed_key(out);
    emit_bool(out, t.completed);
    out.push('}');
    proof {
        assert(out@ =~= before + spec_task(t@));
    }
}

/// The characters of the document for the whole store.
pub fn to_json_chars(app: &TODOApp) -> (out: Vec<char>)
    ensures
        out@ == spec_doc(app@),
{
    let mut out: Vec<char> = Vec::new();
    out.push('{');
    out.push('"');
    out.push('t');
    out.push('a');
    out.push('s');
    out.push('k');
    out.push('s');
    out.push('"');
    out.push(':');
    out.push('[');
    let ghost header = out@;
    let n = app.tasks.len();
    let mut k: usize = 0;
    while k < n
        invariant
            n == app@.len(),
            0 <= k <= n,
            out@ == header + spec_tasks(app@.take(k as int)),
        decreases n - k,
    {
        let ghost done = app@.take(k as int);
        if k > 0 {
            out.push(',');
        }
        emit_task(&mut out, &app.tasks[k]);
        proof {
            lemma_tasks_snoc(app@, k as int);
            if k == 0 {
                assert(spec_tasks(app@.take(0)) =~= Seq::<char>::empty());
                assert(header + Seq::<char>::empty() =~= header);
                assert(out@ =~= header + spec_tasks(app@.take(k + 1)));
            } else {
                assert(out@ =~= header + spec_tasks(app@.take(k + 1)));
            }
        }
        k = k + 1;
    }
    out.push(']');
    out.push('}');
    proof {
        assert(app@.take(n as int) =~= app@);
        assert(out@ =~= spec_doc(app@));
    }
    out
}

/// Relies on String::from_iter: the returned string holds exactly the
/// given characters, in order.
#[verifier::external_body]
pub(crate) fn chars_to_string(v: Vec<char>) -> (r: String)
    ensures
        r@ == v@,
{
    v.into_iter().collect()
}

/// The JSON document for the whole store, as the text written to disk.
pub fn to_json(app: &TODOApp) -> (r: String)
    ensures
        r@ == spec_doc(app@),
{
    chars_to_string(to_json_chars(app))
}

} // verus!
