//! Quoting of command arguments in the manner of a POSIX shell.
use vstd::prelude::*;

verus! {

/// The characters that an argument may hold without being quoted.
pub open spec fn is_plain(c: char) -> bool {
    ||| 'a' <= c <= 'z'
    ||| 'A' <= c <= 'Z'
    ||| '0' <= c <= '9'
    ||| c == '_'
    ||| c == '-'
    ||| c == '.'
    ||| c == ':'
}

/// Whether every character of `s` is plain.
pub open spec fn all_plain(s: Seq<char>) -> bool {
    forall|i: int| 0 <= i < s.len() ==> is_plain(#[trigger] s[i])
}

/// What stands for `c` between single quotes: a single quote closes the
/// quotation, stands in double quotes, and opens the quotation again.
pub open spec fn quoted_char(c: char) -> Seq<char> {
    if c == '\'' {
        seq!['\'', '"', '\'', '"', '\'']
    } else {
        seq![c]
    }
}

/// `s` with every single quote replaced as `quoted_char` says.
pub open spec fn quoted(s: Seq<char>) -> Seq<char>
    decreases s.len(),
{
    if s.len() == 0 {
        Seq::empty()
    } else {
        quoted(s.drop_last()) + quoted_char(s.last())
    }
}

/// The form of `argument` in a command: itself when every character is plain,
/// else quoted as a whole.
pub open spec fn escaped(argument: Seq<char>) -> Seq<char> {
    if all_plain(argument) {
        argument
    } else {
        seq!['\''] + quoted(argument) + seq!['\'']
    }
}

fn plain(c: char) -> (yes: bool)
    ensures
        yes == is_plain(c),
{
    ('a' <= c && c <= 'z') || ('A' <= c && c <= 'Z') || ('0' <= c && c <= '9') || c == '_' || c
        == '-' || c == '.' || c == ':'
}

fn only_plain(argument: &str) -> (yes: bool)
    ensures
        yes == all_plain(argument@),
{
    for c in iter: argument.chars()
        invariant
            iter.seq() == argument@,
            forall|i: int| 0 <= i < iter.index() ==> is_plain(#[trigger] argument@[i]),
    {
        if !plain(c) {
            return false;
        }
    }
    true
}

/// `argument` in the form in which a shell reads it back as one word.
pub fn shell_escape_arg(argument: &str) -> (text: String)
    ensures
        text@ == escaped(argument@),
{
    if only_plain(argument) {
        return argument.to_string();
    }
    let mut text = String::new();
    text.push('\'');
    assert(argument@.take(0) == Seq::<char>::empty());
    for c in iter: argument.chars()
        invariant
            iter.seq() == argument@,
            text@ == seq!['\''] + quoted(argument@.take(iter.index() as int)),
    {
        proof {
            let k = iter.index() as int;
            assert(argument@.take(k + 1).drop_last() == argument@.take(k));
            assert(argument@.take(k + 1).last() == c);
        }
        if c == '\'' {
            text.push('\'');
            text.push('"');
            text.push('\'');
            text.push('"');
            text.push('\'');
        } else {
            text.push(c);
        }
    }
    assert(argument@.take(argument@.len() as int) == argument@);
    text.push('\'');
    text
}

/// The quotation in which a shell is while it reads a command.
pub enum Quote {
    Bare,
    Single,
    Double,
}

/// How a shell reads `text` when `quote` is open and `current` has been read of
/// the current field: the fields that unquoted spaces separate, or `None` where
/// a quotation stays open or a character has some other meaning to the shell.
pub open spec fn fields_from(text: Seq<char>, quote: Quote, current: Seq<char>) -> Option<
    Seq<Seq<char>>,
>
    decreases text.len(),
{
    if text.len() == 0 {
        if quote is Bare {
            Some(seq![current])
        } else {
            None
        }
    } else {
        let c = text[0];
        let rest = text.drop_first();
        match quote {
            Quote::Bare => if c == ' ' {
                match fields_from(rest, Quote::Bare, Seq::empty()) {
                    Some(fields) => Some(seq![current] + fields),
                    None => None,
                }
            } else if c == '\'' {
                fields_from(rest, Quote::Single, current)
            } else if c == '"' {
                fields_from(rest, Quote::Double, current)
            } else if is_plain(c) {
                fields_from(rest, Quote::Bare, current.push(c))
            } else {
                None
            },
            Quote::Single => if c == '\'' {
                fields_from(rest, Quote::Bare, current)
            } else {
                fields_from(rest, Quote::Single, current.push(c))
            },
            Quote::Double => if c == '"' {
                fields_from(rest, Quote::Bare, current)
            } else if c == '$' || c == '`' || c == '\\' {
                None
            } else {
                fields_from(rest, Quote::Double, current.push(c))
            },
        }
    }
}

/// The fields that a shell reads in `text`.
pub open spec fn fields(text: Seq<char>) -> Option<Seq<Seq<char>>> {
    fields_from(text, Quote::Bare, Seq::empty())
}

proof fn lemma_read_plain(s: Seq<char>, rest: Seq<char>, current: Seq<char>)
    requires
        all_plain(s),
    ensures
        fields_from(s + rest, Quote::Bare, current) == fields_from(
            rest,
            Quote::Bare,
            current + s,
        ),
    decreases s.len(),
{
    if s.len() == 0 {
        assert(s + rest == rest);
        assert(current + s == current);
    } else {
        let tail = s.drop_first();
        assert(is_plain(s[0]));
        assert((s + rest)[0] == s[0]);
        assert((s + rest).drop_first() == tail + rest);
        assert forall|i: int| 0 <= i < tail.len() implies is_plain(#[trigger] tail[i]) by {
            assert(tail[i] == s[i + 1]);
        }
        lemma_read_plain(tail, rest, current.push(s[0]));
        assert(current.push(s[0]) + tail == current + s);
    }
}

proof fn lemma_read_quoted_char(c: char, rest: Seq<char>, current: Seq<char>)
    ensures
        fields_from(quoted_char(c) + rest, Quote::Single, current) == fields_from(
            rest,
            Quote::Single,
            current.push(c),
        ),
{
    let text = quoted_char(c) + rest;
    if c == '\'' {
        let t1 = text.drop_first();
        let t2 = t1.drop_first();
        let t3 = t2.drop_first();
        let t4 = t3.drop_first();
        assert(t4.drop_first() == rest);
        assert(fields_from(text, Quote::Single, current) == fields_from(t1, Quote::Bare, current));
        assert(fields_from(t1, Quote::Bare, current) == fields_from(t2, Quote::Double, current));
        assert(fields_from(t2, Quote::Double, current) == fields_from(
            t3,
            Quote::Double,
            current.push(c),
        ));
        assert(fields_from(t3, Quote::Double, current.push(c)) == fields_from(
            t4,
            Quote::Bare,
            current.push(c),
        ));
    } else {
        assert(text.drop_first() == rest);
    }
}

proof fn lemma_read_quoted(s: Seq<char>, rest: Seq<char>, current: Seq<char>)
    ensures
        fields_from(quoted(s) + rest, Quote::Single, current) == fields_from(
            rest,
            Quote::Single,
            current + s,
        ),
    decreases s.len(),
{
    if s.len() == 0 {
        assert(quoted(s) + rest == rest);
        assert(current + s == current);
    } else {
        let head = s.drop_last();
        let piece = quoted_char(s.last());
        assert(quoted(s) + rest == quoted(head) + (piece + rest));
        lemma_read_quoted(head, piece + rest, current);
        lemma_read_quoted_char(s.last(), rest, current + head);
        assert((current + head).push(s.last()) == current + s);
    }
}

/// A shell that meets an escaped argument inside a command adds exactly the
/// argument to the current field, and goes on with what follows.
pub proof fn escaped_argument_is_read_back(
    argument: Seq<char>,
    rest: Seq<char>,
    current: Seq<char>,
)
    ensures
        fields_from(escaped(argument) + rest, Quote::Bare, current) == fields_from(
            rest,
            Quote::Bare,
            current + argument,
        ),
{
    if all_plain(argument) {
        lemma_read_plain(argument, rest, current);
    } else {
        let close = seq!['\''] + rest;
        let text = escaped(argument) + rest;
        assert(text[0] == '\'');
        assert(text.drop_first() == quoted(argument) + close);
        lemma_read_quoted(argument, close, current);
        assert(close.drop_first() == rest);
    }
}

/// A shell reads an escaped argument as one field, which is the argument.
pub proof fn escaped_argument_is_one_field(argument: Seq<char>)
    ensures
        fields(escaped(argument)) == Some(seq![argument]),
{
    let none = Seq::<char>::empty();
    escaped_argument_is_read_back(argument, none, none);
    assert(escaped(argument) + none == escaped(argument));
    assert(none + argument == argument);
}

/// Different arguments have different escaped forms.
pub proof fn escaping_is_injective(a: Seq<char>, b: Seq<char>)
    requires
        escaped(a) == escaped(b),
    ensures
        a == b,
{
    escaped_argument_is_one_field(a);
    escaped_argument_is_one_field(b);
    assert(seq![a][0] == seq![b][0]);
}

/// The plain characters are the ASCII letters and digits, and `-`, `.`, `:`, `_`.
pub proof fn plain_code_points(c: char)
    ensures
        is_plain(c) <==> {
            let code = c as int;
            ||| 48 <= code <= 57
            ||| 65 <= code <= 90
            ||| 97 <= code <= 122
            ||| code == 45
            ||| code == 46
            ||| code == 58
            ||| code == 95
        },
{
}

/// An argument stays as it is when it holds ASCII letters and digits, `-`, `.`,
/// `:` and `_` only; any other argument is put between single quotes.
pub proof fn only_plain_arguments_stay(argument: Seq<char>)
    ensures
        (forall|i: int|
            0 <= i < argument.len() ==> {
                let code = #[trigger] argument[i] as int;
                ||| 48 <= code <= 57
                ||| 65 <= code <= 90
                ||| 97 <= code <= 122
                ||| code == 45
                ||| code == 46
                ||| code == 58
                ||| code == 95
            }) <==> escaped(argument) == argument,
        escaped(argument) != argument ==> {
            &&& escaped(argument).len() >= argument.len() + 2
            &&& escaped(argument)[0] == '\''
            &&& escaped(argument).last() == '\''
        },
{
    lemma_quoted_is_no_shorter(argument);
    if !all_plain(argument) {
        let i = choose|i: int| 0 <= i < argument.len() && !is_plain(#[trigger] argument[i]);
        assert(!is_plain(argument[i]));
    } else {
        assert forall|i: int| 0 <= i < argument.len() implies {
            let code = #[trigger] argument[i] as int;
            ||| 48 <= code <= 57
            ||| 65 <= code <= 90
            ||| 97 <= code <= 122
            ||| code == 45
            ||| code == 46
            ||| code == 58
            ||| code == 95
        } by {
            assert(is_plain(argument[i]));
        }
    }
}

proof fn lemma_quoted_is_no_shorter(s: Seq<char>)
    ensures
        quoted(s).len() >= s.len(),
    decreases s.len(),
{
    if s.len() > 0 {
        lemma_quoted_is_no_shorter(s.drop_last());
    }
}

/// Between the quotes an argument stands character by character: what is quoted
/// together is quoted piece by piece, a single quote becomes `'"'"'`, and every
/// other character stays.
pub proof fn quoting_goes_character_by_character(a: Seq<char>, b: Seq<char>, c: char)
    ensures
        quoted(a + b) == quoted(a) + quoted(b),
        c != '\'' ==> quoted(seq![c]) == seq![c],
        quoted(seq!['\'']) == seq!['\'', '"', '\'', '"', '\''],
        escaped(a) != a ==> escaped(a) == seq!['\''] + quoted(a) + seq!['\''],
    decreases b.len(),
{
    reveal_with_fuel(quoted, 2);
    assert(seq![c].drop_last() =~= Seq::empty());
    assert(seq!['\''].drop_last() =~= Seq::empty());
    assert(quoted(seq![c]) =~= quoted_char(c));
    assert(quoted(seq!['\'']) =~= quoted_char('\''));
    if b.len() == 0 {
        assert(a + b =~= a);
        assert(quoted(a) + quoted(b) =~= quoted(a));
    } else {
        quoting_goes_character_by_character(a, b.drop_last(), c);
        assert((a + b).drop_last() =~= a + b.drop_last());
        assert(quoted(a + b) =~= quoted(a) + quoted(b));
    }
}

} // verus!
