//! Encoding of a todo record as a JSON object.
//!
//! The object carries the six fields of the record: the identifier as the
//! canonical hyphenated lower-case hexadecimal string of a UUID, the title
//! and the description as JSON strings (a missing description as `null`),
//! the completion flag as a JSON boolean, and the two timestamps as decimal
//! numbers of microseconds since the Unix epoch.

use vstd::prelude::*;

use crate::model::{Todo, TodoView};

verus! {

/// Relies on String::push: appends the one character at the end of the
/// string and changes nothing else.
#[verifier::external_body]
fn push_char(out: &mut String, c: char)
    ensures
        final(out)@ == old(out)@.push(c),
{
    out.push(c);
}

/// The decimal digit character of a value below ten.
pub open spec fn dec_digit(n: int) -> char {
    if n == 0 {
        '0'
    } else if n == 1 {
        '1'
    } else if n == 2 {
        '2'
    } else if n == 3 {
        '3'
    } else if n == 4 {
        '4'
    } else if n == 5 {
        '5'
    } else if n == 6 {
        '6'
    } else if n == 7 {
        '7'
    } else if n == 8 {
        '8'
    } else {
        '9'
    }
}

/// The decimal digits of a number, most significant first, no leading zero
/// except for the number zero itself.
pub open spec fn dec_seq(n: nat) -> Seq<char>
    decreases n,
{
    if n < 10 {
        seq![dec_digit(n as int)]
    } else {
        dec_seq(n / 10).push(dec_digit((n % 10) as int))
    }
}

/// The lower-case hexadecimal digit character of a value below sixteen.
pub open spec fn hex_digit(n: int) -> char {
    if n < 10 {
        dec_digit(n)
    } else if n == 10 {
        'a'
    } else if n == 11 {
        'b'
    } else if n == 12 {
        'c'
    } else if n == 13 {
        'd'
    } else if n == 14 {
        'e'
    } else {
        'f'
    }
}

/// The `k` low hexadecimal digits of a number, most significant first,
/// padded with leading zeros to exactly `k` digits.
pub open spec fn hex_fixed(n: nat, k: nat) -> Seq<char>
    decreases k,
{
    if k == 0 {
        Seq::empty()
    } else {
        hex_fixed(n / 16, (k - 1) as nat).push(hex_digit((n % 16) as int))
    }
}

/// The canonical string of a 128-bit identifier: thirty-two lower-case
/// hexadecimal digits, most significant first, hyphenated in groups of
/// eight, four, four, four and twelve.
pub open spec fn uuid_seq(id: u128) -> Seq<char> {
    hex_fixed((id / 0x1000000000000000000000000) as nat, 8) + seq!['-'] + hex_fixed(
        ((id / 0x100000000000000000000) % 0x10000) as nat,
        4,
    ) + seq!['-'] + hex_fixed(((id / 0x10000000000000000) % 0x10000) as nat, 4) + seq!['-']
        + hex_fixed(((id / 0x1000000000000) % 0x10000) as nat, 4) + seq!['-'] + hex_fixed(
        (id % 0x1000000000000) as nat,
        12,
    )
}

/// The decimal digit character of `d`, as [`dec_digit`] gives it.
fn dec_digit_char(d: u64) -> (c: char)
    requires
        d < 10,
    ensures
        c == dec_digit(d as int),
{
    if d == 0 {
        '0'
    } else if d == 1 {
        '1'
    } else if d == 2 {
        '2'
    } else if d == 3 {
        '3'
    } else if d == 4 {
        '4'
    } else if d == 5 {
        '5'
    } else if d == 6 {
        '6'
    } else if d == 7 {
        '7'
    } else if d == 8 {
        '8'
    } else {
        '9'
    }
}

/// The hexadecimal digit character of `d`, as [`hex_digit`] gives it.
fn hex_digit_char(d: u8) -> (c: char)
    requires
        d < 16,
    ensures
        c == hex_digit(d as int),
{
    if d < 10 {
        dec_digit_char(d as u64)
    } else if d == 10 {
        'a'
    } else if d == 11 {
        'b'
    } else if d == 12 {
        'c'
    } else if d == 13 {
        'd'
    } else if d == 14 {
        'e'
    } else {
        'f'
    }
}

/// Appends the decimal digits of `n`, as [`dec_seq`] gives them.
fn push_decimal(out: &mut String, n: u64)
    ensures
        final(out)@ == old(out)@ + dec_seq(n as nat),
    decreases n,
{
    if n < 10 {
        push_char(out, dec_digit_char(n));
        proof {
            assert(out@ =~= old(out)@ + dec_seq(n as nat));
        }
    } else {
        assert(n / 10 < n && n / 10 >= 1) by (nonlinear_arith)
            requires
                n >= 10,
        ;
        push_decimal(out, n / 10);
        push_char(out, dec_digit_char(n % 10));
        proof {
            assert(out@ =~= old(out)@ + dec_seq(n as nat));
        }
    }
}

/// Appends the `k` low hexadecimal digits of `n`, padded, most significant
/// first, as [`hex_fixed`] gives them.
fn push_hex(out: &mut String, n: u128, k: usize)
    ensures
        final(out)@ == old(out)@ + hex_fixed(n as nat, k as nat),
    decreases k,
{
    if k > 0 {
        push_hex(out, n / 16, k - 1);
        push_char(out, hex_digit_char((n % 16) as u8));
        proof {
            assert(out@ =~= old(out)@ + hex_fixed(n as nat, k as nat));
        }
    } else {
        proof {
            assert(out@ =~= old(out)@ + hex_fixed(n as nat, 0));
        }
    }
}

/// The length of a padded hexadecimal rendering is its digit count.
proof fn lemma_hex_fixed_len(n: nat, k: nat)
    ensures
        hex_fixed(n, k).len() == k,
    decreases k,
{
    if k > 0 {
        lemma_hex_fixed_len(n / 16, (k - 1) as nat);
    }
}

/// Appends the canonical hyphenated string of the identifier, as
/// [`uuid_seq`] gives it.
fn push_uuid(out: &mut String, id: u128)
    ensures
        final(out)@ == old(out)@ + uuid_seq(id),
{
    push_hex(out, id / 0x1000000000000000000000000, 8);
    push_char(out, '-');
    push_hex(out, (id / 0x100000000000000000000) % 0x10000, 4);
    push_char(out, '-');
    push_hex(out, (id / 0x10000000000000000) % 0x10000, 4);
    push_char(out, '-');
    push_hex(out, (id / 0x1000000000000) % 0x10000, 4);
    push_char(out, '-');
    push_hex(out, id % 0x1000000000000, 12);
    proof {
        lemma_hex_fixed_len((id / 0x1000000000000000000000000) as nat, 8);
        lemma_hex_fixed_len((((id / 0x100000000000000000000) % 0x10000)) as nat, 4);
        lemma_hex_fixed_len((((id / 0x10000000000000000) % 0x10000)) as nat, 4);
        lemma_hex_fixed_len((((id / 0x1000000000000) % 0x10000)) as nat, 4);
        lemma_hex_fixed_len((id % 0x1000000000000) as nat, 12);
        assert(out@ =~= old(out)@ + uuid_seq(id));
    }
}

/// The escape of one character inside a JSON string: quote and backslash
/// get a backslash, a control character becomes a `\u00..` sequence, and
/// every other character stands for itself.
pub open spec fn escape_char(c: char) -> Seq<char> {
    if c == '"' {
        seq!['\\', '"']
    } else if c == '\\' {
        seq!['\\', '\\']
    } else if (c as int) < 32 {
        seq!['\\', 'u', '0', '0', hex_digit(c as int / 16), hex_digit(c as int % 16)]
    } else {
        seq![c]
    }
}

/// The body of a JSON string: every character escaped, in order.
pub open spec fn escape_seq(s: Seq<char>) -> Seq<char>
    decreases s.len(),
{
    if s.len() == 0 {
        Seq::empty()
    } else {
        escape_seq(s.drop_last()) + escape_char(s.last())
    }
}

/// A JSON string: the escaped body between two quotes.
pub open spec fn json_string(s: Seq<char>) -> Seq<char> {
    seq!['"'] + escape_seq(s) + seq!['"']
}

/// An optional text as JSON: a string when present, `null` when absent.
pub open spec fn json_opt_string(d: Option<Seq<char>>) -> Seq<char> {
    match d {
        Some(s) => json_string(s),
        None => "null"@,
    }
}

/// A JSON boolean.
pub open spec fn json_bool(b: bool) -> Seq<char> {
    if b {
        "true"@
    } else {
        "false"@
    }
}

/// The JSON object of a record: its six fields in a fixed order.
pub open spec fn todo_json(v: TodoView) -> Seq<char> {
    "{\"id\":\""@ + uuid_seq(v.id) + "\",\"title\":"@ + json_string(v.title)
        + ",\"description\":"@ + json_opt_string(v.description) + ",\"completed\":"@ + json_bool(
        v.completed,
    ) + ",\"created_at\":"@ + dec_seq(v.created_at as nat) + ",\"updated_at\":"@ + dec_seq(
        v.updated_at as nat,
    ) + "}"@
}

/// Appends a JSON string holding `s`, as [`json_string`] gives it.
fn push_json_string(out: &mut String, s: &str)
    ensures
        final(out)@ == old(out)@ + json_string(s@),
{
    push_char(out, '"');
    let len = s.unicode_len();
    let mut i: usize = 0;
    while i < len
        invariant
            len == s@.len(),
            i <= len,
            out@ == old(out)@ + seq!['"'] + escape_seq(s@.take(i as int)),
        decreases len - i,
    {
        let ghost prefix = out@;
        let c = s.get_char(i);
        if c == '"' {
            push_char(out, '\\');
            push_char(out, '"');
        } else if c == '\\' {
            push_char(out, '\\');
            push_char(out, '\\');
        } else if (c as u32) < 32 {
            let b = (c as u32) as u8;
            push_char(out, '\\');
            push_char(out, 'u');
            push_char(out, '0');
            push_char(out, '0');
            push_char(out, hex_digit_char(b / 16));
            push_char(out, hex_digit_char(b % 16));
        } else {
            push_char(out, c);
        }
        proof {
            assert(out@ =~= prefix + escape_char(s@[i as int]));
            assert(s@.take(i + 1).drop_last() =~= s@.take(i as int));
            assert(s@.take(i + 1).last() == s@[i as int]);
            assert(out@ =~= old(out)@ + seq!['"'] + escape_seq(s@.take(i + 1)));
        }
        i += 1;
    }
    push_char(out, '"');
    proof {
        assert(s@.take(len as int) =~= s@);
        assert(out@ =~= old(out)@ + json_string(s@));
    }
}

/// The bodies of a JSON array of records: each object in order, a comma
/// between neighbours.
pub open spec fn todos_json_inner(rows: Seq<TodoView>) -> Seq<char>
    decreases rows.len(),
{
    if rows.len() == 0 {
        Seq::empty()
    } else if rows.len() == 1 {
        todo_json(rows[0])
    } else {
        todos_json_inner(rows.drop_last()) + seq![','] + todo_json(rows.last())
    }
}

/// The JSON array of a sequence of records, in their order.
pub open spec fn todos_json(rows: Seq<TodoView>) -> Seq<char> {
    seq!['['] + todos_json_inner(rows) + seq![']']
}

/// The JSON object of the record, exactly as [`todo_json`] gives it.
pub fn todo_to_json(t: &Todo) -> (r: String)
    ensures
        r@ == todo_json(t@),
{
    let mut out = String::new();
    out.append("{\"id\":\"");
    push_uuid(&mut out, t.id);
    out.append("\",\"title\":");
    push_json_string(&mut out, t.title.as_str());
    out.append(",\"description\":");
    match &t.description {
        Some(d) => push_json_string(&mut out, d.as_str()),
        None => out.append("null"),
    }
    out.append(",\"completed\":");
    if t.completed {
        out.append("true");
    } else {
        out.append("false");
    }
    out.append(",\"created_at\":");
    push_decimal(&mut out, t.created_at);
    out.append(",\"updated_at\":");
    push_decimal(&mut out, t.updated_at);
    out.append("}");
    proof {
        assert(out@ =~= todo_json(t@));
    }
    out
}

/// The JSON array of the records, exactly as [`todos_json`] gives it.
pub fn todos_to_json(items: &Vec<Todo>) -> (r: String)
    ensures
        r@ == todos_json(items@.map_values(|t: Todo| t@)),
{
    let ghost rows = items@.map_values(|t: Todo| t@);
    let mut out = String::new();
    push_char(&mut out, '[');
    let n = items.len();
    let mut i: usize = 0;
    while i < n
        invariant
            n == items@.len(),
            i <= n,
            rows == items@.map_values(|t: Todo| t@),
            out@ == seq!['['] + todos_json_inner(rows.take(i as int)),
        decreases n - i,
    {
        if i > 0 {
            push_char(&mut out, ',');
        }
        let piece = todo_to_json(&items[i]);
        out.append(piece.as_str());
        proof {
            assert(rows.take(i + 1).drop_last() =~= rows.take(i as int));
            assert(rows.take(i + 1).last() == rows[i as int]);
            assert(out@ =~= seq!['['] + todos_json_inner(rows.take(i + 1)));
        }
        i += 1;
    }
    push_char(&mut out, ']');
    proof {
        assert(rows.take(n as int) =~= rows);
        assert(out@ =~= todos_json(rows));
    }
    out
}

} // verus!
