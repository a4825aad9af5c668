use vstd::prelude::*;
use vstd::string::*;

use crate::errors::LoadError;

verus! {

/// True for exactly the characters this quoting escapes: backslash, double
/// quote, and the Unicode control characters (U+0000 through U+001F, and
/// U+007F through U+009F).  Characters outside these ranges always stand
/// as themselves, even the few that debug formatting would also escape
/// (format characters and combining marks, say): the escape set is fixed
/// to these ranges.
pub open spec fn needs_escape(c: char) -> bool {
    c == '\\' || c == '"' || c == '\0' || c == '\t' || c == '\n' || c == '\r' || (c as u32) < 0x20
        || (0x7f <= (c as u32) && (c as u32) <= 0x9f)
}

/// The single lowercase hex digit for a value below 16.
pub open spec fn hex_str(v: u32) -> Seq<char> {
    if v == 0 {
        "0"@
    } else if v == 1 {
        "1"@
    } else if v == 2 {
        "2"@
    } else if v == 3 {
        "3"@
    } else if v == 4 {
        "4"@
    } else if v == 5 {
        "5"@
    } else if v == 6 {
        "6"@
    } else if v == 7 {
        "7"@
    } else if v == 8 {
        "8"@
    } else if v == 9 {
        "9"@
    } else if v == 10 {
        "a"@
    } else if v == 11 {
        "b"@
    } else if v == 12 {
        "c"@
    } else if v == 13 {
        "d"@
    } else if v == 14 {
        "e"@
    } else if v == 15 {
        "f"@
    } else {
        Seq::empty()
    }
}

/// The `\u{..}` escape of the code point `v`, written with lowercase hex
/// digits and no leading zeros, for values up to two digits.
pub open spec fn unicode_escape(v: u32) -> Seq<char> {
    if v < 16 {
        "\\u{"@ + hex_str(v) + "}"@
    } else {
        "\\u{"@ + hex_str(v / 16) + hex_str(v % 16) + "}"@
    }
}

/// The escape of one character inside quoted text, matching debug
/// formatting on the [`needs_escape`] set: backslashes and double quotes
/// get a leading backslash, NUL, tab, newline and carriage return their
/// short escapes, the remaining control characters a `\u{..}` escape, and
/// every character outside that set stands as itself.
pub open spec fn escape_char(c: char) -> Seq<char> {
    if c == '\\' {
        "\\\\"@
    } else if c == '"' {
        "\\\""@
    } else if c == '\0' {
        "\\0"@
    } else if c == '\t' {
        "\\t"@
    } else if c == '\n' {
        "\\n"@
    } else if c == '\r' {
        "\\r"@
    } else if needs_escape(c) {
        unicode_escape(c as u32)
    } else {
        seq![c]
    }
}

/// `s` with each of its characters escaped.
pub open spec fn escaped(s: Seq<char>) -> Seq<char>
    decreases s.len(),
{
    if s.len() == 0 {
        Seq::empty()
    } else {
        escaped(s.drop_last()) + escape_char(s.last())
    }
}

/// A path as quoted text: wrapped in double quotes, with the characters of
/// the [`needs_escape`] set escaped.
pub open spec fn quoted(s: Seq<char>) -> Seq<char> {
    "\""@ + escaped(s) + "\""@
}

/// The diagnostic message for failure `reason` in operation `operation` on
/// the relative path `rel`: `<reason> in <operation>(<rel quoted>)`,
/// suffixed with ` (resolved to: <path quoted>)` once resolution has
/// succeeded but a later step failed.
pub open spec fn diagnostic_spec(
    reason: Seq<char>,
    operation: Seq<char>,
    rel: Seq<char>,
    resolved: Option<Seq<char>>,
) -> Seq<char> {
    let head = reason + " in "@ + operation + "("@ + quoted(rel) + ")"@;
    match resolved {
        Some(p) => head + " (resolved to: "@ + quoted(p) + ")"@,
        None => head,
    }
}

/// Every diagnostic opens with its failure reason, and carries the
/// requested path, quoted, right after the operation name and its opening
/// parenthesis — so the abort message for a missing file names
/// `file not found` and the path it was asked for, whatever the operation
/// and whether or not resolution had succeeded.
pub proof fn lemma_diagnostic_names_reason_and_path(
    reason: Seq<char>,
    operation: Seq<char>,
    rel: Seq<char>,
    resolved: Option<Seq<char>>,
)
    ensures
        diagnostic_spec(reason, operation, rel, resolved).take(reason.len() as int) == reason,
        ({
            let m = diagnostic_spec(reason, operation, rel, resolved);
            let start = (reason.len() + " in "@.len() + operation.len() + "("@.len()) as int;
            m.subrange(start, start + quoted(rel).len() as int) == quoted(rel)
        }),
{
    let head = reason + " in "@ + operation + "("@ + quoted(rel) + ")"@;
    let start = (reason.len() + " in "@.len() + operation.len() + "("@.len()) as int;
    assert(head.take(reason.len() as int) =~= reason);
    assert(head.subrange(start, start + quoted(rel).len() as int) =~= quoted(rel));
    match resolved {
        Some(p) => {
            let m = head + " (resolved to: "@ + quoted(p) + ")"@;
            assert(m.take(reason.len() as int) =~= reason);
            assert(m.subrange(start, start + quoted(rel).len() as int) =~= quoted(rel));
        },
        None => {},
    }
}

proof fn lemma_escaped_snoc(s: Seq<char>, i: int)
    requires
        0 <= i < s.len(),
    ensures
        escaped(s.take(i + 1)) == escaped(s.take(i)) + escape_char(s[i]),
{
    assert(s.take(i + 1).drop_last() =~= s.take(i));
    assert(s.take(i + 1).last() == s[i]);
}

fn char_needs_escape(c: char) -> (b: bool)
    ensures
        b == needs_escape(c),
{
    let v = c as u32;
    c == '\\' || c == '"' || c == '\0' || c == '\t' || c == '\n' || c == '\r' || v < 0x20 || (0x7f
        <= v && v <= 0x9f)
}

/// Append the lowercase hex digit of `v` to `out`.
fn append_hex(out: &mut String, v: u32)
    requires
        v < 16,
    ensures
        final(out)@ == old(out)@ + hex_str(v),
{
    if v == 0 {
        out.append("0");
    } else if v == 1 {
        out.append("1");
    } else if v == 2 {
        out.append("2");
    } else if v == 3 {
        out.append("3");
    } else if v == 4 {
        out.append("4");
    } else if v == 5 {
        out.append("5");
    } else if v == 6 {
        out.append("6");
    } else if v == 7 {
        out.append("7");
    } else if v == 8 {
        out.append("8");
    } else if v == 9 {
        out.append("9");
    } else if v == 10 {
        out.append("a");
    } else if v == 11 {
        out.append("b");
    } else if v == 12 {
        out.append("c");
    } else if v == 13 {
        out.append("d");
    } else if v == 14 {
        out.append("e");
    } else {
        out.append("f");
    }
}

/// Append the escape of the character `c` to `out`.
fn append_escape(out: &mut String, c: char)
    requires
        needs_escape(c),
    ensures
        final(out)@ == old(out)@ + escape_char(c),
{
    if c == '\\' {
        out.append("\\\\");
    } else if c == '"' {
        out.append("\\\"");
    } else if c == '\0' {
        out.append("\\0");
    } else if c == '\t' {
        out.append("\\t");
    } else if c == '\n' {
        out.append("\\n");
    } else if c == '\r' {
        out.append("\\r");
    } else {
        let v = c as u32;
        out.append("\\u{");
        if v < 16 {
            append_hex(out, v);
        } else {
            append_hex(out, v / 16);
            append_hex(out, v % 16);
        }
        out.append("}");
        proof {
            assert(out@ =~= old(out)@ + escape_char(c));
        }
    }
}

/// Append `s` to `out` as quoted text.
fn append_quoted(out: &mut String, s: &str)
    ensures
        final(out)@ == old(out)@ + quoted(s@),
{
    out.append("\"");
    let n = s.unicode_len();
    let mut start: usize = 0;
    let mut i: usize = 0;
    proof {
        assert(out@ + s@.subrange(0, 0) =~= old(out)@ + "\""@ + escaped(s@.take(0)));
    }
    while i < n
        invariant
            start <= i <= n,
            n == s@.len(),
            out@ + s@.subrange(start as int, i as int) == old(out)@ + "\""@ + escaped(
                s@.take(i as int),
            ),
        decreases n - i,
    {
        let c = s.get_char(i);
        proof {
            lemma_escaped_snoc(s@, i as int);
        }
        if char_needs_escape(c) {
            out.append(s.substring_char(start, i));
            append_escape(out, c);
            start = i + 1;
            proof {
                assert(out@ + s@.subrange(start as int, i + 1) =~= old(out)@ + "\""@ + escaped(
                    s@.take(i + 1),
                ));
            }
        } else {
            proof {
                let plain = s@.subrange(start as int, i as int);
                let head = old(out)@ + "\""@;
                assert(escape_char(s@[i as int]) =~= seq![s@[i as int]]);
                assert(s@.subrange(start as int, i + 1) =~= plain + seq![s@[i as int]]);
                assert(out@ + (plain + seq![s@[i as int]]) =~= (out@ + plain) + seq![
                    s@[i as int],
                ]);
                assert((head + escaped(s@.take(i as int))) + seq![s@[i as int]] =~= head + (escaped(
                    s@.take(i as int),
                ) + seq![s@[i as int]]));
            }
        }
        i = i + 1;
    }
    out.append(s.substring_char(start, n));
    out.append("\"");
    proof {
        assert(s@.take(n as int) =~= s@);
        assert(out@ =~= old(out)@ + quoted(s@));
    }
}

/// Format the diagnostic message for a failed load, in the fixed shape
/// `<reason> in <operation>(<rel quoted>)`, with
/// ` (resolved to: <path quoted>)` appended when the resolved path is
/// already known.
pub fn format_diagnostic(err: &LoadError, operation: &str, rel: &str, resolved: Option<&str>) -> (r:
    String)
    ensures
        resolved is None ==> r@ == diagnostic_spec(err.reason_spec(), operation@, rel@, None),
        resolved matches Some(p) ==> r@ == diagnostic_spec(
            err.reason_spec(),
            operation@,
            rel@,
            Some(p@),
        ),
{
    let mut out = err.reason().to_owned();
    out.append(" in ");
    out.append(operation);
    out.append("(");
    append_quoted(&mut out, rel);
    out.append(")");
    match resolved {
        Some(p) => {
            out.append(" (resolved to: ");
            append_quoted(&mut out, p);
            out.append(")");
        },
        None => {},
    }
    out
}

} // verus!
