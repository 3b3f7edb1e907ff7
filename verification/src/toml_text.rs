//! The few lines of TOML that are written rather than read.

use vstd::prelude::*;

use crate::text::{begins, chars_of, lemma_position, position};

verus! {

/// A value as it stands between the quotes of a TOML basic string: a backslash
/// before each backslash and each quote.
pub open spec fn escaped(s: Seq<char>) -> Seq<char>
    decreases s.len(),
{
    if s.len() == 0 {
        s
    } else if s.last() == '\\' || s.last() == '"' {
        escaped(s.drop_last()).push('\\').push(s.last())
    } else {
        escaped(s.drop_last()).push(s.last())
    }
}

/// Escape a value for a TOML basic string.
pub fn toml_escape(value: &str) -> (r: String)
    ensures
        r@ == escaped(value@),
{
    let chars: Vec<char> = chars_of(value);
    let mut out: String = String::new();
    let mut i: usize = 0;
    assert(escaped(value@.take(0)) =~= out@);
    while i < chars.len()
        invariant
            chars@ == value@,
            i <= chars.len(),
            out@ == escaped(value@.take(i as int)),
        decreases chars.len() - i,
    {
        assert(value@.take(i + 1).drop_last() == value@.take(i as int));
        if chars[i] == '\\' || chars[i] == '"' {
            out.push('\\');
        }
        out.push(chars[i]);
        i = i + 1;
    }
    assert(value@.take(i as int) == value@);
    out
}

/// Whether a character may not stand in a basic string as it is: a control
/// character other than the tab.
pub open spec fn forbidden(c: char) -> bool {
    ((c as u32) < 32 && c != '\t') || c as u32 == 127
}

/// Whether every character may stand in a basic string.
pub open spec fn printable(s: Seq<char>) -> bool {
    forall|i: int| 0 <= i < s.len() ==> !forbidden(#[trigger] s[i])
}

/// The value and the rest when the inside of a basic string is read: up to the
/// first quote without a backslash before it, each escaped backslash or quote
/// standing for itself. `None` when no quote closes the string, when another
/// escape occurs, or when a character may not stand there.
pub open spec fn read_string(s: Seq<char>) -> Option<(Seq<char>, Seq<char>)>
    decreases s.len(),
{
    if s.len() == 0 {
        None
    } else if s[0] == '"' {
        Some((Seq::empty(), s.skip(1)))
    } else if forbidden(s[0]) {
        None
    } else if s[0] == '\\' {
        if s.len() >= 2 && (s[1] == '\\' || s[1] == '"') {
            match read_string(s.skip(2)) {
                Some((value, rest)) => Some((seq![s[1]] + value, rest)),
                None => None,
            }
        } else {
            None
        }
    } else {
        match read_string(s.skip(1)) {
            Some((value, rest)) => Some((seq![s[0]] + value, rest)),
            None => None,
        }
    }
}

proof fn lemma_escaped_front(c: char, s: Seq<char>)
    ensures
        escaped(seq![c] + s) == (if c == '\\' || c == '"' {
            seq!['\\', c]
        } else {
            seq![c]
        }) + escaped(s),
    decreases s.len(),
{
    let front = if c == '\\' || c == '"' {
        seq!['\\', c]
    } else {
        seq![c]
    };
    let all = seq![c] + s;
    if s.len() == 0 {
        assert(all =~= seq![c]);
        assert(all.drop_last() =~= Seq::empty());
        reveal_with_fuel(escaped, 2);
        assert(escaped(all) =~= front + escaped(s));
    } else {
        lemma_escaped_front(c, s.drop_last());
        assert(all.drop_last() =~= seq![c] + s.drop_last());
        assert(all.last() == s.last());
        assert(escaped(all) =~= front + escaped(s));
    }
}

/// An escaped value without forbidden characters, closed by a quote, is read
/// back as the value: it neither ends early nor takes in anything behind the
/// quote.
pub proof fn law_escaped_reads_back(value: Seq<char>, rest: Seq<char>)
    requires
        printable(value),
    ensures
        read_string(escaped(value) + seq!['"'] + rest) == Some((value, rest)),
    decreases value.len(),
{
    let line = escaped(value) + seq!['"'] + rest;
    if value.len() == 0 {
        assert(line.skip(1) =~= rest);
        assert(value =~= Seq::empty());
    } else {
        let c = value[0];
        let tail = value.skip(1);
        let after = escaped(tail) + seq!['"'] + rest;
        assert(value =~= seq![c] + tail);
        lemma_escaped_front(c, tail);
        assert forall|i: int| 0 <= i < tail.len() implies !forbidden(#[trigger] tail[i]) by {
            assert(tail[i] == value[i + 1]);
        }
        law_escaped_reads_back(tail, rest);
        if c == '\\' || c == '"' {
            assert(line =~= seq!['\\', c] + after);
            assert(line.skip(2) =~= after);
        } else {
            assert(line =~= seq![c] + after);
            assert(line.skip(1) =~= after);
        }
        assert(seq![c] + tail =~= value);
    }
}

/// A line that gives a setting a string.
pub open spec fn assignment(name: Seq<char>, value: Seq<char>) -> Seq<char> {
    name + " = \""@ + escaped(value) + "\"\n"@
}

/// The value that a setting is given is read back as it was, as long as there is
/// no control character in it.
pub proof fn law_assignment_reads_back(name: Seq<char>, value: Seq<char>, rest: Seq<char>)
    requires
        printable(value),
    ensures
        ({
            let key = name + " = \""@;
            let line = assignment(name, value) + rest;
            &&& begins(line, key)
            &&& read_string(line.skip(key.len() as int)) == Some((value, "\n"@ + rest))
        }),
{
    let key = name + " = \""@;
    let line = assignment(name, value) + rest;
    reveal_strlit("\"\n");
    reveal_strlit("\n");
    assert("\"\n"@ =~= seq!['"'] + "\n"@);
    assert(line.take(key.len() as int) =~= key);
    assert(line.skip(key.len() as int) =~= escaped(value) + seq!['"'] + ("\n"@ + rest));
    law_escaped_reads_back(value, "\n"@ + rest);
}

/// Whether a character may stand in the name of a setting.
pub open spec fn bare_char(c: char) -> bool {
    ||| 48 <= c as u32 <= 57
    ||| 65 <= c as u32 <= 90
    ||| 97 <= c as u32 <= 122
    ||| c == '_'
    ||| c == '-'
}

/// Whether a text is the name of a setting.
pub open spec fn bare(name: Seq<char>) -> bool {
    name.len() > 0 && forall|i: int| 0 <= i < name.len() ==> bare_char(#[trigger] name[i])
}

/// The number of characters of the name that a text begins with.
pub open spec fn name_len(s: Seq<char>) -> int
    decreases s.len(),
{
    if s.len() > 0 && bare_char(s[0]) {
        1 + name_len(s.skip(1))
    } else {
        0
    }
}

/// The settings of a file of comments and lines that each give a setting a
/// string, with nothing else on them. `None` when there is anything else, or
/// when a setting is given twice.
pub open spec fn read_settings(s: Seq<char>) -> Option<Map<Seq<char>, Seq<char>>>
    decreases s.len(),
{
    if s.len() == 0 {
        Some(Map::empty())
    } else if s[0] == '#' {
        let end = position(s, '\n');
        if !printable(s.take(end)) {
            None
        } else if 0 <= end < s.len() {
            read_settings(s.skip(end + 1))
        } else {
            Some(Map::empty())
        }
    } else {
        let n = name_len(s);
        let behind = s.skip(n);
        if 0 < n <= s.len() && begins(behind, " = \""@) {
            proof {
                reveal_strlit(" = \"");
                lemma_rest_is_shorter(behind.skip(4));
            }
            match read_string(behind.skip(4)) {
                Some((value, rest)) => if rest.len() > 0 && rest[0] == '\n' {
                    match read_settings(rest.skip(1)) {
                        Some(others) => if others.contains_key(s.take(n)) {
                            None
                        } else {
                            Some(others.insert(s.take(n), value))
                        },
                        None => None,
                    }
                } else {
                    None
                },
                None => None,
            }
        } else {
            None
        }
    }
}

/// What is left behind a string is shorter than what it was read from.
pub proof fn lemma_rest_is_shorter(s: Seq<char>)
    ensures
        read_string(s) matches Some((value, rest)) ==> rest.len() < s.len(),
    decreases s.len(),
{
    if s.len() > 0 {
        lemma_rest_is_shorter(s.skip(1));
        if s.len() > 1 {
            lemma_rest_is_shorter(s.skip(2));
        }
    }
}

proof fn lemma_name_len(name: Seq<char>, rest: Seq<char>)
    requires
        forall|i: int| 0 <= i < name.len() ==> bare_char(#[trigger] name[i]),
        rest.len() > 0,
        !bare_char(rest[0]),
    ensures
        name_len(name + rest) == name.len(),
    decreases name.len(),
{
    let s = name + rest;
    if name.len() > 0 {
        let tail = name.skip(1);
        assert forall|i: int| 0 <= i < tail.len() implies bare_char(#[trigger] tail[i]) by {
            assert(tail[i] == name[i + 1]);
        }
        lemma_name_len(tail, rest);
        assert(s.skip(1) =~= tail + rest);
        assert(s[0] == name[0]);
    } else {
        assert(s[0] == rest[0]);
    }
}

/// Reading a file that begins with a line that gives a setting a string.
pub proof fn lemma_read_assignment(name: Seq<char>, value: Seq<char>, rest: Seq<char>)
    requires
        bare(name),
        printable(value),
    ensures
        read_settings(assignment(name, value) + rest) == match read_settings(rest) {
            Some(others) => if others.contains_key(name) {
                None
            } else {
                Some(others.insert(name, value))
            },
            None => None,
        },
{
    let s = assignment(name, value) + rest;
    reveal_strlit(" = \"");
    reveal_strlit("\"\n");
    reveal_strlit("\n");
    let behind = " = \""@ + escaped(value) + "\"\n"@ + rest;
    assert(s =~= name + behind);
    assert(behind[0] == ' ');
    lemma_name_len(name, behind);
    assert(s[0] == name[0]);
    assert(bare_char(name[0]));
    assert(s.take(name.len() as int) =~= name);
    assert(s.skip(name.len() as int) =~= behind);
    assert(behind.take(4) =~= " = \""@);
    let next = "\n"@ + rest;
    assert("\"\n"@ =~= seq!['"'] + "\n"@);
    assert(behind.skip(4) =~= escaped(value) + seq!['"'] + next);
    law_escaped_reads_back(value, next);
    assert(next[0] == '\n');
    assert(next.skip(1) =~= rest);
}

/// Reading a file that begins with a comment.
pub proof fn lemma_read_comment(comment: Seq<char>, rest: Seq<char>)
    requires
        comment.len() > 0,
        comment[0] == '#',
        printable(comment),
    ensures
        read_settings(comment.push('\n') + rest) == read_settings(rest),
{
    let s = comment.push('\n') + rest;
    assert(s[0] == '#');
    lemma_position(s, '\n');
    assert(s[comment.len() as int] == '\n');
    let end = position(s, '\n');
    if end < comment.len() {
        assert(s[end] == comment[end]);
        assert(forbidden('\n'));
    }
    assert(end == comment.len());
    assert(s.take(end) =~= comment);
    assert(s.skip(end + 1) =~= rest);
}

/// The line that keeps the releases beside the file.
pub proof fn lemma_root_line()
    ensures
        "root = \".\"\n"@ == assignment("root"@, "."@),
        printable("."@),
{
    reveal_strlit("root = \".\"\n");
    reveal_strlit("root");
    reveal_strlit(" = \"");
    reveal_strlit(".");
    reveal_strlit("\"\n");
    assert("."@ =~= seq!['.']);
    assert("."@.drop_last() =~= Seq::<char>::empty());
    reveal_with_fuel(escaped, 2);
    assert(escaped("."@) =~= seq!['.']);
    assert("root = \".\"\n"@ =~= assignment("root"@, "."@));
}

/// Escaping goes character by character: a backslash and a quote get a backslash
/// before them, and every other character stands for itself.
pub proof fn law_escaping(s: Seq<char>, c: char)
    ensures
        escaped(Seq::empty()) == Seq::<char>::empty(),
        c == '\\' || c == '"' ==> escaped(s.push(c)) == escaped(s) + seq!['\\', c],
        c != '\\' && c != '"' ==> escaped(s.push(c)) == escaped(s).push(c),
{
    assert(s.push(c).drop_last() =~= s);
    assert(escaped(s).push('\\').push(c) =~= escaped(s) + seq!['\\', c]);
}

/// A line that gives a setting a string has the name, an equals sign, and the
/// string between quotes.
pub proof fn law_assignment_line(name: Seq<char>, value: Seq<char>)
    requires
        forall|i: int| 0 <= i < value.len() ==> #[trigger] value[i] != '\\' && value[i] != '"',
    ensures
        assignment(name, value) == name + " = \""@ + value + "\"\n"@,
{
    lemma_nothing_to_escape(value);
}

proof fn lemma_nothing_to_escape(value: Seq<char>)
    requires
        forall|i: int| 0 <= i < value.len() ==> #[trigger] value[i] != '\\' && value[i] != '"',
    ensures
        escaped(value) == value,
    decreases value.len(),
{
    if value.len() > 0 {
        let rest = value.drop_last();
        assert forall|i: int| 0 <= i < rest.len() implies #[trigger] rest[i] != '\\' && rest[i]
            != '"' by {
            assert(rest[i] == value[i]);
        }
        lemma_nothing_to_escape(rest);
        assert(value[value.len() - 1] != '"');
        assert(rest.push(value.last()) =~= value);
    }
}

} // verus!
