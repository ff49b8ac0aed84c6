//! Text helpers: strings as sequences of characters, and decimal numerals.

use vstd::prelude::*;
use vstd::std_specs::iter::IteratorSpec;
use vstd::string::*;

verus! {

/// `String::push` of the standard library: appends the one character to the
/// end of the string and leaves the rest as it was.
pub assume_specification[ std::string::String::push ](s: &mut std::string::String, ch: char)
    ensures
        final(s)@ == old(s)@.push(ch),
;

/// The characters of `text`, in order.
pub fn chars_of(text: &str) -> (r: Vec<char>)
    ensures
        r@ == text@,
{
    broadcast use vstd::string::group_string_axioms;

    let mut iter = text.chars();
    let mut out: Vec<char> = Vec::new();
    loop
        invariant
            iter.obeys_prophetic_iter_laws(),
            iter.decrease() is Some,
            out@ + iter.remaining() == text@,
        decreases iter.decrease()->0,
    {
        let ghost before = iter;
        match iter.next() {
            Some(c) => {
                proof {
                    assert(out@.push(c) + before.remaining().drop_first() =~= out@
                        + before.remaining());
                }
                out.push(c);
            },
            None => {
                proof {
                    assert(out@ + Seq::<char>::empty() =~= out@);
                    assert(before.remaining() =~= Seq::<char>::empty());
                }
                return out;
            },
        }
    }
}

/// The string made of `chars[from..to]`.
pub fn string_of(chars: &Vec<char>, from: usize, to: usize) -> (r: String)
    requires
        from <= to <= chars@.len(),
    ensures
        r@ == chars@.subrange(from as int, to as int),
{
    let mut out = String::new();
    let mut i: usize = from;
    while i < to
        invariant
            from <= i <= to <= chars@.len(),
            out@ == chars@.subrange(from as int, i as int),
        decreases to - i,
    {
        out.push(chars[i]);
        i += 1;
        proof {
            assert(out@ =~= chars@.subrange(from as int, i as int));
        }
    }
    out
}

/// The character that writes the decimal digit `d`.
pub open spec fn digit(d: nat) -> char {
    if d == 0 {
        '0'
    } else if d == 1 {
        '1'
    } else if d == 2 {
        '2'
    } else if d == 3 {
        '3'
    } else if d == 4 {
        '4'
    } else if d == 5 {
        '5'
    } else if d == 6 {
        '6'
    } else if d == 7 {
        '7'
    } else if d == 8 {
        '8'
    } else {
        '9'
    }
}

/// The decimal numeral of `n`, without leading zeros.
pub open spec fn decimal(n: nat) -> Seq<char>
    decreases n,
{
    if n < 10 {
        seq![digit(n)]
    } else {
        decimal(n / 10).push(digit(n % 10))
    }
}

fn digit_char(d: usize) -> (c: char)
    requires
        d < 10,
    ensures
        c == digit(d as nat),
{
    if d == 0 {
        '0'
    } else if d == 1 {
        '1'
    } else if d == 2 {
        '2'
    } else if d == 3 {
        '3'
    } else if d == 4 {
        '4'
    } else if d == 5 {
        '5'
    } else if d == 6 {
        '6'
    } else if d == 7 {
        '7'
    } else if d == 8 {
        '8'
    } else {
        '9'
    }
}

/// Appends the decimal numeral of `n` to `out`.
pub fn push_decimal(out: &mut String, n: usize)
    ensures
        final(out)@ == old(out)@ + decimal(n as nat),
    decreases n,
{
    if n >= 10 {
        push_decimal(out, n / 10);
    }
    out.push(digit_char(n % 10));
    proof {
        if n >= 10 {
            assert(final(out)@ =~= old(out)@ + decimal(n as nat));
        } else {
            assert(final(out)@ =~= old(out)@ + decimal(n as nat));
        }
    }
}

/// The text of a diagnostic: the position in square brackets, the message,
/// and on a line of its own the source text that it is about.
pub open spec fn diagnostic(row: nat, column: nat, message: Seq<char>, lexeme: Seq<char>) -> Seq<
    char,
> {
    seq!['['] + decimal(row) + seq![':'] + decimal(column) + "] Error: "@ + message + seq!['\n']
        + lexeme
}

/// Writes a diagnostic.
pub fn format_diagnostic(row: usize, column: usize, message: &str, lexeme: &str) -> (r: String)
    ensures
        r@ == diagnostic(row as nat, column as nat, message@, lexeme@),
{
    let mut out = String::new();
    out.push('[');
    push_decimal(&mut out, row);
    out.push(':');
    push_decimal(&mut out, column);
    out.append("] Error: ");
    out.append(message);
    out.push('\n');
    out.append(lexeme);
    proof {
        assert(out@ =~= diagnostic(row as nat, column as nat, message@, lexeme@));
    }
    out
}

} // verus!
