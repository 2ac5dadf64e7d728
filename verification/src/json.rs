use crate::model::{views, Laptop, LaptopView};
use vstd::prelude::*;

verus! {

/// The error type of `serde_json`, carried and never looked into.
#[verifier::external_type_specification]
#[verifier::external_body]
pub struct ExJsonError(serde_json::Error);

/// The sixteen digits of base 16, in lower case.
pub open spec fn hex_digits() -> Seq<char> {
    seq!['0', '1', '2', '3', '4', '5', '6', '7', '8', '9', 'a', 'b', 'c', 'd', 'e', 'f']
}

/// How one character stands inside a JSON string: the quotation mark and the
/// backslash behind a backslash, the control characters below U+0020 by their
/// short form or, where they have none, by `\u00` and two digits of base 16,
/// and every other character as it is.
pub open spec fn escaped(c: char) -> Seq<char> {
    if c == '"' {
        seq!['\\', '"']
    } else if c == '\\' {
        seq!['\\', '\\']
    } else if c == '\u{8}' {
        seq!['\\', 'b']
    } else if c == '\u{c}' {
        seq!['\\', 'f']
    } else if c == '\n' {
        seq!['\\', 'n']
    } else if c == '\r' {
        seq!['\\', 'r']
    } else if c == '\t' {
        seq!['\\', 't']
    } else if ' ' > c {
        seq!['\\', 'u', '0', '0', hex_digits()[c as int / 16], hex_digits()[c as int % 16]]
    } else {
        seq![c]
    }
}

/// The characters of `s`, each as it stands inside a JSON string.
pub open spec fn escaped_text(s: Seq<char>) -> Seq<char>
    decreases s.len(),
{
    if s.len() == 0 {
        Seq::empty()
    } else {
        escaped_text(s.drop_last()) + escaped(s.last())
    }
}

/// The JSON string that holds `s`.
pub open spec fn quoted(s: Seq<char>) -> Seq<char> {
    seq!['"'] + escaped_text(s) + seq!['"']
}

/// `serde_json::to_string`, on a string slice. Believed, not proved: the call
/// succeeds, since it writes to memory and a string slice has nothing that
/// could be refused, and it gives the JSON string of `quoted`.
#[verifier::external_body]
fn json_string(text: &str) -> (out: Result<String, serde_json::Error>)
    ensures
        out is Ok,
        out->Ok_0@ == quoted(text@),
{
    serde_json::to_string(text)
}

/// The ten decimal digits.
pub open spec fn decimal_digits() -> Seq<char> {
    seq!['0', '1', '2', '3', '4', '5', '6', '7', '8', '9']
}

/// The decimal digits that write `n`, without leading zeros.
pub open spec fn decimal(n: nat) -> Seq<char>
    decreases n,
{
    if n < 10 {
        seq![decimal_digits()[n as int]]
    } else {
        decimal(n / 10).push(decimal_digits()[n as int % 10])
    }
}

/// The decimal text of `i`: a minus sign where `i` is negative, then the
/// digits of its magnitude.
pub open spec fn integer_text(i: int) -> Seq<char> {
    if i < 0 {
        seq!['-'] + decimal((-i) as nat)
    } else {
        decimal(i as nat)
    }
}

/// The decimal digit `d`, as text.
fn digit_text(d: u32) -> (out: &'static str)
    requires
        d < 10,
    ensures
        out@ == seq![decimal_digits()[d as int]],
{
    proof {
        reveal_strlit("0");
        reveal_strlit("1");
        reveal_strlit("2");
        reveal_strlit("3");
        reveal_strlit("4");
        reveal_strlit("5");
        reveal_strlit("6");
        reveal_strlit("7");
        reveal_strlit("8");
        reveal_strlit("9");
    }
    let out = if d == 0 {
        "0"
    } else if d == 1 {
        "1"
    } else if d == 2 {
        "2"
    } else if d == 3 {
        "3"
    } else if d == 4 {
        "4"
    } else if d == 5 {
        "5"
    } else if d == 6 {
        "6"
    } else if d == 7 {
        "7"
    } else if d == 8 {
        "8"
    } else {
        "9"
    };
    assert(out@ =~= seq![decimal_digits()[d as int]]);
    out
}

/// Appends the decimal digits of `n` to `out`.
fn push_decimal(out: &mut String, n: u32)
    ensures
        final(out)@ == old(out)@ + decimal(n as nat),
    decreases n,
{
    if n >= 10 {
        push_decimal(out, n / 10);
    }
    out.append(digit_text(n % 10));
    assert(out@ =~= old(out)@ + decimal(n as nat));
}

/// Appends the decimal text of `i` to `out`.
fn push_integer(out: &mut String, i: i32)
    ensures
        final(out)@ == old(out)@ + integer_text(i as int),
{
    proof {
        reveal_strlit("-");
    }
    if i < 0 {
        out.append("-");
        let magnitude: u32 = (-(i as i64)) as u32;
        push_decimal(out, magnitude);
        assert(out@ =~= old(out)@ + integer_text(i as int));
    } else {
        push_decimal(out, i as u32);
    }
}

/// The JSON value of an identifier: its decimal text, or `null` where there is
/// none.
pub open spec fn id_json(id: Option<i32>) -> Seq<char> {
    match id {
        Some(i) => integer_text(i as int),
        None => "null"@,
    }
}

/// The JSON object of a laptop: its ten attributes under their names, in the
/// order of the columns, with no white space.
pub open spec fn laptop_json(laptop: LaptopView) -> Seq<char> {
    "{\"id\":"@ + id_json(laptop.id) + ",\"name\":"@ + quoted(laptop.name) + ",\"description\":"@
        + quoted(laptop.description) + ",\"price\":"@ + quoted(laptop.price) + ",\"processor\":"@
        + quoted(laptop.processor) + ",\"ram\":"@ + quoted(laptop.ram) + ",\"storage\":"@ + quoted(
        laptop.storage,
    ) + ",\"display\":"@ + quoted(laptop.display) + ",\"os\":"@ + quoted(laptop.os)
        + ",\"graphics\":"@ + quoted(laptop.graphics) + "}"@
}

/// The JSON objects of `rows`, in order, with a comma between neighbours.
pub open spec fn joined_json(rows: Seq<LaptopView>) -> Seq<char>
    decreases rows.len(),
{
    if rows.len() == 0 {
        Seq::empty()
    } else if rows.len() == 1 {
        laptop_json(rows[0])
    } else {
        joined_json(rows.drop_last()) + ","@ + laptop_json(rows.last())
    }
}

/// The JSON array of `rows`.
pub open spec fn laptops_json(rows: Seq<LaptopView>) -> Seq<char> {
    "["@ + joined_json(rows) + "]"@
}

/// Appends to `out` the name of an attribute and the JSON string of its value.
fn push_attribute(out: &mut String, name: &str, value: &str)
    ensures
        final(out)@ == old(out)@ + name@ + quoted(value@),
{
    out.append(name);
    let text = json_string(value).unwrap();
    out.append(text.as_str());
}

/// The JSON object of `laptop`, as text.
pub fn laptop_to_json(laptop: &Laptop) -> (out: String)
    ensures
        out@ == laptop_json(laptop@),
{
    let mut out = String::from_str("{\"id\":");
    match laptop.id {
        Some(id) => push_integer(&mut out, id),
        None => out.append("null"),
    }
    push_attribute(&mut out, ",\"name\":", laptop.name.as_str());
    push_attribute(&mut out, ",\"description\":", laptop.description.as_str());
    push_attribute(&mut out, ",\"price\":", laptop.price.as_str());
    push_attribute(&mut out, ",\"processor\":", laptop.processor.as_str());
    push_attribute(&mut out, ",\"ram\":", laptop.ram.as_str());
    push_attribute(&mut out, ",\"storage\":", laptop.storage.as_str());
    push_attribute(&mut out, ",\"display\":", laptop.display.as_str());
    push_attribute(&mut out, ",\"os\":", laptop.os.as_str());
    push_attribute(&mut out, ",\"graphics\":", laptop.graphics.as_str());
    out.append("}");
    out
}

/// The JSON array of `rows`, as text.
pub fn laptops_to_json(rows: &Vec<Laptop>) -> (out: String)
    ensures
        out@ == laptops_json(views(rows@)),
{
    let mut out = String::new();
    out.append("[");
    let ghost all = views(rows@);
    let mut i: usize = 0;
    assert(all.take(0) =~= Seq::<LaptopView>::empty());
    while i < rows.len()
        invariant
            i <= rows.len(),
            all == views(rows@),
            out@ == "["@ + joined_json(all.take(i as int)),
        decreases rows.len() - i,
    {
        let ghost seen = all.take(i + 1);
        assert(seen.drop_last() =~= all.take(i as int));
        assert(seen.last() == rows@[i as int]@);
        if i > 0 {
            out.append(",");
        }
        let object = laptop_to_json(&rows[i]);
        out.append(object.as_str());
        assert(out@ =~= "["@ + joined_json(seen));
        i += 1;
    }
    assert(all.take(i as int) =~= all);
    out.append("]");
    out
}

} // verus!
