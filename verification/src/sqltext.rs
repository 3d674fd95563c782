//! Building blocks for the SQL text a schema compiles into: decimal
//! placeholder indices and comma-separated lists, with their specifications.

use vstd::prelude::*;
use vstd::string::*;

use crate::codec::{spec_sql_type_text, FieldDescriptor};

verus! {

/// The single decimal digit character for `d`.
pub open spec fn spec_digit(d: int) -> Seq<char>
    recommends
        0 <= d <= 9,
{
    if d == 0 {
        "0"@
    } else if d == 1 {
        "1"@
    } else if d == 2 {
        "2"@
    } else if d == 3 {
        "3"@
    } else if d == 4 {
        "4"@
    } else if d == 5 {
        "5"@
    } else if d == 6 {
        "6"@
    } else if d == 7 {
        "7"@
    } else if d == 8 {
        "8"@
    } else {
        "9"@
    }
}

/// The decimal text of `n`, for `n` up to two digits.
pub open spec fn spec_dec(n: int) -> Seq<char>
    recommends
        0 <= n <= 99,
{
    if n < 10 {
        spec_digit(n)
    } else {
        spec_digit(n / 10) + spec_digit(n % 10)
    }
}

/// The items joined by a comma-and-space separator.
pub open spec fn spec_joined(items: Seq<Seq<char>>) -> Seq<char>
    decreases items.len(),
{
    if items.len() == 0 {
        Seq::empty()
    } else if items.len() == 1 {
        items[0]
    } else {
        items[0] + ", "@ + spec_joined(items.drop_first())
    }
}

/// One column of a CREATE TABLE body: resolved name, a space, the SQL type.
pub open spec fn spec_column_text(f: FieldDescriptor, strings: Seq<Seq<char>>) -> Seq<char>
    recommends
        f.name < strings.len(),
{
    strings[f.name as int] + " "@ + spec_sql_type_text(f.data_type)
}

/// The column declarations of a field list, in field order.
pub open spec fn spec_columns(fields: Seq<FieldDescriptor>, strings: Seq<Seq<char>>) -> Seq<
    Seq<char>,
> {
    Seq::new(fields.len(), |i: int| spec_column_text(fields[i], strings))
}

/// The resolved field names of a field list, in field order.
pub open spec fn spec_field_names(fields: Seq<FieldDescriptor>, strings: Seq<Seq<char>>) -> Seq<
    Seq<char>,
> {
    Seq::new(fields.len(), |i: int| strings[fields[i].name as int])
}

/// The positional placeholders `?1` through `?k`, in order.
pub open spec fn spec_placeholders(k: int) -> Seq<Seq<char>>
    recommends
        0 <= k <= 99,
{
    Seq::new(k as nat, |i: int| "?"@ + spec_dec(i + 1))
}

/// The full CREATE TABLE statement for a table name and field list.
pub open spec fn spec_create_cmd(
    name: Seq<char>,
    fields: Seq<FieldDescriptor>,
    strings: Seq<Seq<char>>,
) -> Seq<char> {
    "CREATE TABLE "@ + name + " ("@ + spec_joined(spec_columns(fields, strings)) + ")"@
}

/// What compiling appends after the `INSERT INTO ` prefix: the table name,
/// the column list, and one positional placeholder per field.
pub open spec fn spec_insert_tail(
    name: Seq<char>,
    fields: Seq<FieldDescriptor>,
    strings: Seq<Seq<char>>,
) -> Seq<char> {
    name + " ("@ + spec_joined(spec_field_names(fields, strings)) + ")"@ + " VALUES ("@
        + spec_joined(spec_placeholders(fields.len() as int)) + ")"@
}

/// Joining one more item appends a separator and the item.
pub proof fn lemma_joined_push(items: Seq<Seq<char>>, x: Seq<char>)
    requires
        items.len() >= 1,
    ensures
        spec_joined(items.push(x)) == spec_joined(items) + ", "@ + x,
    decreases items.len(),
{
    if items.len() == 1 {
        assert(items.push(x).drop_first() =~= seq![x]);
        assert(items.push(x)[0] == items[0]);
        assert(spec_joined(seq![x]) == x);
        assert(spec_joined(items.push(x)) == items[0] + ", "@ + x);
        assert(spec_joined(items) == items[0]);
    } else {
        assert(items.push(x).drop_first() =~= items.drop_first().push(x));
        assert(items.push(x)[0] == items[0]);
        lemma_joined_push(items.drop_first(), x);
        assert(spec_joined(items.push(x)) == items[0] + ", "@ + (spec_joined(items.drop_first())
            + ", "@ + x));
        assert(items[0] + ", "@ + (spec_joined(items.drop_first()) + ", "@ + x) =~= (items[0]
            + ", "@ + spec_joined(items.drop_first())) + ", "@ + x);
    }
}

/// How often `c` occurs in `s`.
pub open spec fn spec_count_char(s: Seq<char>, c: char) -> int
    decreases s.len(),
{
    if s.len() == 0 {
        0
    } else {
        (if s[0] == c {
            1int
        } else {
            0int
        }) + spec_count_char(s.drop_first(), c)
    }
}

/// Occurrence counts add over concatenation.
pub proof fn lemma_count_char_add(a: Seq<char>, b: Seq<char>, c: char)
    ensures
        spec_count_char(a + b, c) == spec_count_char(a, c) + spec_count_char(b, c),
    decreases a.len(),
{
    if a.len() == 0 {
        assert(a + b =~= b);
    } else {
        assert((a + b).drop_first() =~= a.drop_first() + b);
        lemma_count_char_add(a.drop_first(), b, c);
    }
}

/// A decimal numeral contains no placeholder mark.
pub proof fn lemma_dec_no_question(n: int)
    requires
        0 <= n <= 99,
    ensures
        spec_count_char(spec_dec(n), '?') == 0,
{
    lemma_digit_no_question(n % 10);
    if n >= 10 {
        lemma_digit_no_question(n / 10);
        lemma_count_char_add(spec_digit(n / 10), spec_digit(n % 10), '?');
    } else {
        lemma_digit_no_question(n);
    }
}

/// A digit character is not a placeholder mark.
proof fn lemma_digit_no_question(d: int)
    requires
        0 <= d <= 9,
    ensures
        spec_count_char(spec_digit(d), '?') == 0,
{
    reveal_strlit("0");
    reveal_strlit("1");
    reveal_strlit("2");
    reveal_strlit("3");
    reveal_strlit("4");
    reveal_strlit("5");
    reveal_strlit("6");
    reveal_strlit("7");
    reveal_strlit("8");
    reveal_strlit("9");
    assert(spec_digit(d).len() == 1);
    assert(spec_digit(d)[0] != '?');
    assert(spec_digit(d).drop_first().len() == 0);
    assert(spec_count_char(spec_digit(d).drop_first(), '?') == 0);
}

/// The joined placeholder list `?1, ..., ?k` holds exactly `k` placeholder
/// marks.
pub proof fn lemma_placeholder_count(k: int)
    requires
        1 <= k <= 99,
    ensures
        spec_count_char(spec_joined(spec_placeholders(k)), '?') == k,
    decreases k,
{
    reveal_strlit("?");
    reveal_strlit(", ");
    if k == 1 {
        lemma_count_char_add("?"@, spec_dec(1), '?');
        lemma_dec_no_question(1);
        assert(spec_joined(spec_placeholders(1)) == "?"@ + spec_dec(1));
        assert(spec_count_char("?"@, '?') == 1) by {
            assert("?"@.drop_first().len() == 0);
            assert(spec_count_char("?"@.drop_first(), '?') == 0);
        }
    } else {
        lemma_placeholder_count(k - 1);
        assert(spec_placeholders(k) =~= spec_placeholders(k - 1).push("?"@ + spec_dec(k)));
        lemma_joined_push(spec_placeholders(k - 1), "?"@ + spec_dec(k));
        lemma_count_char_add(
            spec_joined(spec_placeholders(k - 1)) + ", "@,
            "?"@ + spec_dec(k),
            '?',
        );
        lemma_count_char_add(spec_joined(spec_placeholders(k - 1)), ", "@, '?');
        lemma_count_char_add("?"@, spec_dec(k), '?');
        lemma_dec_no_question(k);
        assert(spec_count_char(", "@, '?') == 0) by {
            reveal_strlit(", ");
            reveal_strlit(" ");
            assert(", "@.drop_first() =~= " "@);
            assert(" "@.drop_first().len() == 0);
            assert(spec_count_char(" "@.drop_first(), '?') == 0);
            assert(spec_count_char(" "@, '?') == 0);
        }
        assert(spec_count_char("?"@, '?') == 1) by {
            assert("?"@.drop_first().len() == 0);
            assert(spec_count_char("?"@.drop_first(), '?') == 0);
        }
        assert(spec_joined(spec_placeholders(k)) == spec_joined(spec_placeholders(k - 1)) + ", "@
            + ("?"@ + spec_dec(k)));
        assert(spec_joined(spec_placeholders(k - 1)) + ", "@ + ("?"@ + spec_dec(k)) =~= (
        spec_joined(spec_placeholders(k - 1)) + ", "@) + ("?"@ + spec_dec(k)));
    }
}

/// Appends the decimal digit character for `d`.
pub fn append_digit(out: &mut String, d: u8)
    requires
        d <= 9,
    ensures
        final(out)@ == old(out)@ + spec_digit(d as int),
{
    match d {
        0 => out.append("0"),
        1 => out.append("1"),
        2 => out.append("2"),
        3 => out.append("3"),
        4 => out.append("4"),
        5 => out.append("5"),
        6 => out.append("6"),
        7 => out.append("7"),
        8 => out.append("8"),
        _ => out.append("9"),
    }
}

/// Appends the decimal text of `n`, for `n` up to two digits.
pub fn append_dec(out: &mut String, n: u8)
    requires
        n <= 99,
    ensures
        final(out)@ == old(out)@ + spec_dec(n as int),
{
    if n < 10 {
        append_digit(out, n);
    } else {
        append_digit(out, n / 10);
        append_digit(out, n % 10);
    }
}

} // verus!
