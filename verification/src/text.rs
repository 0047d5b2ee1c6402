//! Small text operations shared by the name tables.
use vstd::prelude::*;
use vstd::string::*;

verus! {

/// Whether `text` ends with `suffix`.
pub open spec fn has_suffix(text: Seq<char>, suffix: Seq<char>) -> bool {
    suffix.len() <= text.len() && text.subrange(text.len() - suffix.len(), text.len() as int) == suffix
}

/// Whether `text` begins with `prefix`.
pub open spec fn has_prefix(text: Seq<char>, prefix: Seq<char>) -> bool {
    prefix.len() <= text.len() && text.subrange(0, prefix.len() as int) == prefix
}

/// `text` without a trailing `suffix`.
pub open spec fn without_suffix(text: Seq<char>, suffix: Seq<char>) -> Option<Seq<char>> {
    if has_suffix(text, suffix) {
        Some(text.subrange(0, text.len() - suffix.len()))
    } else {
        None
    }
}

/// `text` without a leading `prefix`, or all of it where it has none.
pub open spec fn trim_prefix(text: Seq<char>, prefix: Seq<char>) -> Seq<char> {
    if has_prefix(text, prefix) {
        text.subrange(prefix.len() as int, text.len() as int)
    } else {
        text
    }
}

/// The view of an optional string.
pub open spec fn opt_text(text: Option<String>) -> Option<Seq<char>> {
    match text {
        Some(t) => Some(t@),
        None => None,
    }
}

/// The view of an optional string slice.
pub open spec fn opt_str(text: Option<&str>) -> Option<Seq<char>> {
    match text {
        Some(t) => Some(t@),
        None => None,
    }
}

/// The views of a list of strings.
pub open spec fn texts(list: Seq<String>) -> Seq<Seq<char>> {
    Seq::new(list.len(), |i: int| list[i]@)
}

/// The position of the first entry of `table` that equals `name`.
pub open spec fn position(table: Seq<&str>, name: Seq<char>) -> Option<nat>
    decreases table.len(),
{
    if table.len() == 0 {
        None
    } else if position(table.drop_last(), name) is Some {
        position(table.drop_last(), name)
    } else if table.last()@ == name {
        Some((table.len() - 1) as nat)
    } else {
        None
    }
}

/// The position of a name in a table.
pub fn name_index(table: &[&str], name: &str) -> (index: Option<u32>)
    requires
        table@.len() <= u32::MAX,
    ensures
        match index {
            Some(i) => position(table@, name@) == Some(i as nat) && i < table@.len()
                && table@[i as int]@ == name@,
            None => position(table@, name@) is None,
        },
        forall|i: int| 0 <= i < table@.len() && #[trigger] table@[i]@ == name@ ==> index is Some
            && index->0 <= i,
{
    let mut i: usize = 0;
    assert(table@.take(0).len() == 0);
    while i < table.len()
        invariant
            i <= table@.len() <= u32::MAX,
            position(table@.take(i as int), name@) is None,
            forall|j: int| 0 <= j < i ==> #[trigger] table@[j]@ != name@,
        decreases table@.len() - i,
    {
        proof {
            assert(table@.take(i + 1).drop_last() =~= table@.take(i as int));
            assert(table@.take(i + 1).last() == table@[i as int]);
        }
        if same_text(table[i], name) {
            proof {
                lemma_position_extends(table@, name@, i + 1);
            }
            return Some(i as u32);
        }
        i = i + 1;
    }
    assert(table@.take(table@.len() as int) =~= table@);
    None
}

pub proof fn lemma_position_in_range(table: Seq<&str>, name: Seq<char>)
    ensures
        position(table, name) is Some ==> position(table, name)->0 < table.len(),
    decreases table.len(),
{
    if table.len() > 0 {
        lemma_position_in_range(table.drop_last(), name);
    }
}

/// A name that a table holds has a position.
pub proof fn lemma_position_found(table: Seq<&str>, name: Seq<char>, i: int)
    requires
        0 <= i < table.len(),
        table[i]@ == name,
    ensures
        position(table, name) is Some,
    decreases table.len(),
{
    if i < table.len() - 1 {
        lemma_position_found(table.drop_last(), name, i);
    }
}

/// A position is one at which the name stands.
pub proof fn lemma_position_names(table: Seq<&str>, name: Seq<char>)
    ensures
        position(table, name) matches Some(i) ==> i < table.len() && table[i as int]@ == name,
    decreases table.len(),
{
    if table.len() > 0 {
        lemma_position_names(table.drop_last(), name);
    }
}

proof fn lemma_position_extends(table: Seq<&str>, name: Seq<char>, n: int)
    requires
        0 <= n <= table.len(),
        position(table.take(n), name) is Some,
    ensures
        position(table, name) == position(table.take(n), name),
    decreases table.len() - n,
{
    if n == table.len() {
        assert(table.take(n) =~= table);
    } else {
        assert(table.take(n + 1).drop_last() =~= table.take(n));
        lemma_position_extends(table, name, n + 1);
    }
}

pub fn same_text(a: &str, b: &str) -> (same: bool)
    ensures
        same == (a@ == b@),
{
    let x = a.to_owned();
    let y = b.to_owned();
    x == y
}

pub fn strip_suffix(text: &str, suffix: &str) -> (rest: Option<String>)
    ensures
        opt_text(rest) == without_suffix(text@, suffix@),
{
    let n: usize = text.unicode_len();
    let m: usize = suffix.unicode_len();
    if m <= n && same_text(text.substring_char(n - m, n), suffix) {
        Some(text.substring_char(0, n - m).to_owned())
    } else {
        None
    }
}

pub fn strip_prefix_or_all(text: &str, prefix: &str) -> (rest: String)
    ensures
        rest@ == trim_prefix(text@, prefix@),
{
    let n: usize = text.unicode_len();
    let m: usize = prefix.unicode_len();
    if m <= n && same_text(text.substring_char(0, m), prefix) {
        text.substring_char(m, n).to_owned()
    } else {
        text.to_owned()
    }
}

/// One decimal digit as text.
pub open spec fn digit(d: int) -> Seq<char> {
    if d == 0 {
        "0"@
    } else if d == 1 {
        "1"@
    } else if d == 2 {
        "2"@
    } else if d == 3 {
        "3"@
    } else if d == 4 {
        "4"@
    } else if d == 5 {
        "5"@
    } else if d == 6 {
        "6"@
    } else if d == 7 {
        "7"@
    } else if d == 8 {
        "8"@
    } else {
        "9"@
    }
}

/// `n` in decimal, without leading zeros.
pub open spec fn decimal(n: nat) -> Seq<char>
    decreases n,
{
    if n < 10 {
        digit(n as int)
    } else {
        decimal(n / 10) + digit((n % 10) as int)
    }
}

fn digit_text(d: u32) -> (text: &'static str)
    requires
        d < 10,
    ensures
        text@ == digit(d as int),
{
    match d {
        0 => "0",
        1 => "1",
        2 => "2",
        3 => "3",
        4 => "4",
        5 => "5",
        6 => "6",
        7 => "7",
        8 => "8",
        _ => "9",
    }
}

pub fn decimal_text(n: u32) -> (text: String)
    ensures
        text@ == decimal(n as nat),
    decreases n,
{
    if n < 10 {
        digit_text(n).to_owned()
    } else {
        let mut text = decimal_text(n / 10);
        text.append(digit_text(n % 10));
        text
    }
}

/// `String::push` puts a character at the end of a string.
pub assume_specification[ String::push ](text: &mut String, ch: char)
    ensures
        final(text)@ == old(text)@.push(ch),
;

/// Joins two pieces of text.
pub fn join(a: &str, b: &str) -> (text: String)
    ensures
        text@ == a@ + b@,
{
    let mut text = a.to_owned();
    text.append(b);
    text
}

proof fn lemma_digit(d: int)
    requires
        0 <= d < 10,
    ensures
        digit(d).len() == 1,
        digit(d)[0] as int == 48 + d,
{
    reveal_strlit("0");
    reveal_strlit("1");
    reveal_strlit("2");
    reveal_strlit("3");
    reveal_strlit("4");
    reveal_strlit("5");
    reveal_strlit("6");
    reveal_strlit("7");
    reveal_strlit("8");
    reveal_strlit("9");
}

pub proof fn lemma_decimal_nonempty(n: nat)
    ensures
        decimal(n).len() >= 1,
{
    if n < 10 {
        lemma_digit(n as int);
    } else {
        lemma_digit((n % 10) as int);
    }
}

/// Different numbers have different decimal texts.
pub proof fn law_decimal_is_injective(a: nat, b: nat)
    requires
        decimal(a) == decimal(b),
    ensures
        a == b,
    decreases a,
{
    lemma_digit((a % 10) as int);
    lemma_digit((b % 10) as int);
    if a < 10 {
        lemma_digit(a as int);
    }
    if b < 10 {
        lemma_digit(b as int);
    }
    let x = decimal(a);
    let y = decimal(b);
    if a < 10 && b < 10 {
        assert(x[0] == y[0]);
    } else if a < 10 {
        lemma_decimal_nonempty(b / 10);
        assert(y.len() >= 2);
    } else if b < 10 {
        lemma_decimal_nonempty(a / 10);
        assert(x.len() >= 2);
    } else {
        assert(x.last() == digit((a % 10) as int)[0]);
        assert(y.last() == digit((b % 10) as int)[0]);
        assert(x.drop_last() =~= decimal(a / 10));
        assert(y.drop_last() =~= decimal(b / 10));
        law_decimal_is_injective(a / 10, b / 10);
    }
}

/// A number is written with the digits it has in base ten, the lowest last and none in
/// front that is not needed.
pub proof fn law_decimal_has_its_digits(n: nat)
    ensures
        decimal(n).last() as int == 48 + n % 10,
        n < 10 ==> decimal(n).len() == 1,
        n >= 10 ==> decimal(n).len() > 1 && decimal(n).drop_last() == decimal(n / 10),
{
    lemma_digit((n % 10) as int);
    if n < 10 {
        lemma_digit(n as int);
    } else {
        lemma_decimal_nonempty(n / 10);
        assert(decimal(n).drop_last() =~= decimal(n / 10));
    }
}

/// What is left of a text without its suffix makes the text again with it, and nothing is
/// left only of a text that does not end so.
pub proof fn law_suffixes_come_off(text: Seq<char>, suffix: Seq<char>, rest: Seq<char>)
    ensures
        without_suffix(text, suffix) == Some(rest) <==> text == rest + suffix,
{
    if text == rest + suffix {
        assert(text.subrange(text.len() - suffix.len(), text.len() as int) =~= suffix);
        assert(text.subrange(0, text.len() - suffix.len()) =~= rest);
    }
    if without_suffix(text, suffix) == Some(rest) {
        assert(text =~= rest + suffix);
    }
}

/// What is left of a text behind its prefix makes the text again with it, and a text that
/// does not begin so stays as it is.
pub proof fn law_prefixes_come_off(text: Seq<char>, prefix: Seq<char>, rest: Seq<char>)
    ensures
        text == prefix + rest ==> trim_prefix(text, prefix) == rest,
        trim_prefix(text, prefix) == text || text == prefix + trim_prefix(text, prefix),
        prefix.len() > 0 && (forall|r: Seq<char>| text != #[trigger] (prefix + r)) ==> trim_prefix(
            text,
            prefix,
        ) == text,
{
    if text == prefix + rest {
        assert(text.subrange(0, prefix.len() as int) =~= prefix);
        assert(text.subrange(prefix.len() as int, text.len() as int) =~= rest);
    }
    if has_prefix(text, prefix) {
        assert(text =~= prefix + trim_prefix(text, prefix));
    }
}

} // verus!
