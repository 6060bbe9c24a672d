//! The two pieces of text handling the registry rests on: the identifiers it
//! hands out, of the form `<name>_<n>`, and comma-separated lists of them.

use vstd::prelude::*;
use vstd::string::StringExecFns;
use vstd::string::StrSliceExecFns;

verus! {

/// The character for one decimal digit.
pub open spec fn digit(d: nat) -> char {
    if d == 0 {
        '0'
    } else if d == 1 {
        '1'
    } else if d == 2 {
        '2'
    } else if d == 3 {
        '3'
    } else if d == 4 {
        '4'
    } else if d == 5 {
        '5'
    } else if d == 6 {
        '6'
    } else if d == 7 {
        '7'
    } else if d == 8 {
        '8'
    } else {
        '9'
    }
}

/// `n` written in base ten, without sign or leading zeros.
pub open spec fn decimal(n: nat) -> Seq<char>
    decreases n,
{
    if n < 10 {
        seq![digit(n)]
    } else {
        decimal(n / 10).push(digit(n % 10))
    }
}

/// The identifier of instance number `n` of the worker called `name`.
pub open spec fn instance_id(name: Seq<char>, n: nat) -> Seq<char> {
    name + seq!['_'] + decimal(n)
}

/// The pieces of `text` between occurrences of `sep`. Read from the left, a
/// separator opens a new piece and any other character extends the last one,
/// so a text with `k` separators has `k + 1` pieces, some of them possibly
/// empty.
pub open spec fn split(text: Seq<char>, sep: char) -> Seq<Seq<char>>
    decreases text.len(),
{
    if text.len() == 0 {
        seq![Seq::<char>::empty()]
    } else {
        let before = split(text.drop_last(), sep);
        if text.last() == sep {
            before.push(Seq::<char>::empty())
        } else {
            before.drop_last().push(before.last().push(text.last()))
        }
    }
}

/// The pieces written one after another, with `sep` between neighbours.
pub open spec fn join(pieces: Seq<Seq<char>>, sep: char) -> Seq<char>
    decreases pieces.len(),
{
    if pieces.len() == 0 {
        Seq::<char>::empty()
    } else if pieces.len() == 1 {
        pieces[0]
    } else {
        join(pieces.drop_last(), sep).push(sep) + pieces.last()
    }
}

/// Splitting loses nothing and leaves no separator behind: there is at least
/// one piece, no piece holds the separator, and the pieces joined by the
/// separator are the text again.
pub proof fn lemma_split_join(text: Seq<char>, sep: char)
    ensures
        split(text, sep).len() >= 1,
        forall|i: int| 0 <= i < split(text, sep).len() ==> !(#[trigger] split(text, sep)[i]).contains(sep),
        join(split(text, sep), sep) == text,
    decreases text.len(),
{
    if text.len() > 0 {
        let pieces = split(text, sep);
        let before = split(text.drop_last(), sep);
        lemma_split_join(text.drop_last(), sep);
        if text.last() == sep {
            assert(pieces.drop_last() =~= before);
        } else if before.len() > 1 {
            assert(pieces.drop_last() =~= before.drop_last());
            assert(join(pieces, sep) =~= (join(before.drop_last(), sep).push(sep)
                + before.last()).push(text.last()));
        }
    }
}

/// Splitting is the only way to cut a text at its separators: any pieces,
/// at least one, that hold no separator and give the text when joined are
/// the pieces that [`split`] finds.
pub proof fn lemma_split_is_unique(pieces: Seq<Seq<char>>, text: Seq<char>, sep: char)
    requires
        pieces.len() >= 1,
        forall|i: int| 0 <= i < pieces.len() ==> !(#[trigger] pieces[i]).contains(sep),
        join(pieces, sep) == text,
    ensures
        pieces == split(text, sep),
    decreases text.len(),
{
    let last = pieces.last();
    let others = pieces.drop_last();
    if text.len() == 0 {
        assert(pieces[0] =~= Seq::<char>::empty());
    } else if last.len() == 0 {
        assert(text.drop_last() =~= join(others, sep));
        lemma_split_is_unique(others, text.drop_last(), sep);
        assert(last =~= Seq::<char>::empty());
    } else {
        let shorter = others.push(last.drop_last());
        assert(shorter.drop_last() =~= others);
        assert(join(shorter, sep) =~= text.drop_last());
        lemma_split_is_unique(shorter, text.drop_last(), sep);
        assert(last.drop_last().push(text.last()) =~= last);
    }
}

/// The number that a run of decimal digits stands for.
pub open spec fn decimal_value(digits: Seq<char>) -> nat
    decreases digits.len(),
{
    if digits.len() == 0 {
        0
    } else {
        10 * decimal_value(digits.drop_last()) + digit_value(digits.last())
    }
}

/// The number that one decimal digit stands for.
pub open spec fn digit_value(c: char) -> nat {
    if c == '1' {
        1
    } else if c == '2' {
        2
    } else if c == '3' {
        3
    } else if c == '4' {
        4
    } else if c == '5' {
        5
    } else if c == '6' {
        6
    } else if c == '7' {
        7
    } else if c == '8' {
        8
    } else if c == '9' {
        9
    } else {
        0
    }
}

/// Writing a number in base ten and reading it back gives the number.
pub proof fn lemma_decimal_value(n: nat)
    ensures
        decimal(n).len() >= 1,
        decimal_value(decimal(n)) == n,
    decreases n,
{
    if n < 10 {
        assert(decimal_value(decimal(n).drop_last()) == 0);
    } else {
        lemma_decimal_value(n / 10);
        assert(decimal(n).drop_last() =~= decimal(n / 10));
    }
}

/// Instances of one name with different numbers have different identifiers.
pub proof fn lemma_instance_ids_differ(name: Seq<char>, n: nat, m: nat)
    requires
        n != m,
    ensures
        instance_id(name, n) != instance_id(name, m),
{
    lemma_decimal_value(n);
    lemma_decimal_value(m);
    if instance_id(name, n) == instance_id(name, m) {
        let prefix = name + seq!['_'];
        assert(instance_id(name, n).skip(prefix.len() as int) =~= decimal(n));
        assert(instance_id(name, m).skip(prefix.len() as int) =~= decimal(m));
    }
}

/// One decimal digit as text.
fn digit_text(d: u32) -> (text: &'static str)
    requires
        d < 10,
    ensures
        text@ == seq![digit(d as nat)],
{
    proof {
        reveal_strlit("0");
        reveal_strlit("1");
        reveal_strlit("2");
        reveal_strlit("3");
        reveal_strlit("4");
        reveal_strlit("5");
        reveal_strlit("6");
        reveal_strlit("7");
        reveal_strlit("8");
        reveal_strlit("9");
    }
    if d == 0 {
        "0"
    } else if d == 1 {
        "1"
    } else if d == 2 {
        "2"
    } else if d == 3 {
        "3"
    } else if d == 4 {
        "4"
    } else if d == 5 {
        "5"
    } else if d == 6 {
        "6"
    } else if d == 7 {
        "7"
    } else if d == 8 {
        "8"
    } else {
        "9"
    }
}

/// Appends `n` in base ten to `out`.
fn push_decimal(out: &mut String, n: u32)
    ensures
        final(out)@ == old(out)@ + decimal(n as nat),
    decreases n,
{
    if n >= 10 {
        push_decimal(out, n / 10);
    }
    out.append(digit_text(n % 10));
}

/// Builds the identifier of instance number `n` of the worker called `name`:
/// the name, an underscore, and `n` in base ten.
pub fn make_instance_id(name: &str, n: u32) -> (id: String)
    ensures
        id@ == instance_id(name@, n as nat),
{
    let mut id = String::from_str(name);
    proof {
        reveal_strlit("_");
    }
    id.append("_");
    push_decimal(&mut id, n);
    id
}

/// Splits a comma-separated list into its entries. The empty text is the
/// list of one empty entry; nothing is trimmed and no entry is dropped.
pub fn split_commas(list: &str) -> (entries: Vec<String>)
    ensures
        entries.deep_view() == split(list@, ','),
{
    let total = list.unicode_len();
    let mut entries: Vec<String> = Vec::new();
    let mut start: usize = 0;
    let mut i: usize = 0;
    proof {
        assert(list@.take(0) =~= Seq::<char>::empty());
    }
    for c in it: list.chars()
        invariant
            it.seq() == list@,
            total == list@.len(),
            i == it.index(),
            start <= i <= total,
            entries.deep_view().push(list@.subrange(start as int, i as int)) == split(
                list@.take(i as int),
                ',',
            ),
    {
        proof {
            assert(list@.take(i + 1).drop_last() =~= list@.take(i as int));
        }
        if c == ',' {
            entries.push(String::from_str(list.substring_char(start, i)));
            start = i + 1;
            assert(list@.subrange(start as int, start as int) =~= Seq::<char>::empty());
        } else {
            assert(list@.subrange(start as int, i + 1) =~= list@.subrange(
                start as int,
                i as int,
            ).push(c));
            assert(entries.deep_view().push(list@.subrange(start as int, i as int)).drop_last()
                =~= entries.deep_view());
        }
        i += 1;
    }
    entries.push(String::from_str(list.substring_char(start, i)));
    assert(list@.take(total as int) =~= list@);
    entries
}

} // verus!
