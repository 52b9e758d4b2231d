//! Splitting log text into lines and lines into fields, and joining fields
//! back into a line.

use vstd::prelude::*;
use vstd::string::*;

verus! {

/// The views of a sequence of strings.
pub open spec fn texts(v: Seq<String>) -> Seq<Seq<char>> {
    v.map_values(|s: String| s@)
}

/// The two characters that separate the fields of a line.
pub open spec fn delimiter() -> Seq<char> {
    seq!['|', '|']
}

/// Index of the first occurrence of `c` in `s`, or `s.len()` if there is none.
pub open spec fn find_char(s: Seq<char>, c: char) -> int
    decreases s.len(),
{
    if s.len() == 0 || s[0] == c {
        0
    } else {
        1 + find_char(s.drop_first(), c)
    }
}

/// Index of the first occurrence of the delimiter in `s`, or `s.len()` if
/// there is none.
pub open spec fn find_delimiter(s: Seq<char>) -> int
    decreases s.len(),
{
    if s.len() < 2 {
        s.len() as int
    } else if s[0] == '|' && s[1] == '|' {
        0
    } else {
        1 + find_delimiter(s.drop_first())
    }
}

/// A line without the carriage return that may end it.
pub open spec fn strip_cr(line: Seq<char>) -> Seq<char> {
    if line.len() > 0 && line.last() == '\r' {
        line.drop_last()
    } else {
        line
    }
}

/// The lines of a text. A line ends at a line feed, or at a carriage return
/// followed by a line feed; the last line need not be terminated, and an
/// empty text has no lines.
pub open spec fn lines_of(s: Seq<char>) -> Seq<Seq<char>>
    decreases s.len(),
{
    if s.len() == 0 {
        Seq::empty()
    } else {
        let i = find_char(s, '\n');
        if 0 <= i < s.len() {
            seq![strip_cr(s.subrange(0, i))] + lines_of(s.subrange(i + 1, s.len() as int))
        } else {
            seq![s]
        }
    }
}

/// The fields of a line: the pieces between the leftmost non-overlapping
/// occurrences of the delimiter. There is always at least one field.
pub open spec fn fields_of(s: Seq<char>) -> Seq<Seq<char>>
    decreases s.len(),
{
    let i = find_delimiter(s);
    if 0 <= i && i + 2 <= s.len() {
        seq![s.subrange(0, i)] + fields_of(s.subrange(i + 2, s.len() as int))
    } else {
        seq![s]
    }
}

/// The fields joined by the delimiter.
pub open spec fn joined(fields: Seq<Seq<char>>) -> Seq<char>
    decreases fields.len(),
{
    if fields.len() == 0 {
        Seq::empty()
    } else if fields.len() == 1 {
        fields[0]
    } else {
        joined(fields.drop_last()) + delimiter() + fields.last()
    }
}

/// Where `find_delimiter` points, the delimiter stands.
pub proof fn lemma_find_delimiter(s: Seq<char>)
    ensures
        0 <= find_delimiter(s) <= s.len(),
        find_delimiter(s) < s.len() ==> {
            &&& find_delimiter(s) + 2 <= s.len()
            &&& s[find_delimiter(s)] == '|'
            &&& s[find_delimiter(s) + 1] == '|'
        },
    decreases s.len(),
{
    if s.len() < 2 {
    } else if s[0] == '|' && s[1] == '|' {
    } else {
        lemma_find_delimiter(s.drop_first());
    }
}

/// A line always has at least one field.
pub proof fn lemma_fields_nonempty(s: Seq<char>)
    ensures
        fields_of(s).len() >= 1,
    decreases s.len(),
{
    let i = find_delimiter(s);
    if 0 <= i && i + 2 <= s.len() {
        lemma_fields_nonempty(s.subrange(i + 2, s.len() as int));
    }
}

/// Joining a first field to at least one more puts one delimiter between them.
pub proof fn lemma_joined_front(first: Seq<char>, rest: Seq<Seq<char>>)
    requires
        rest.len() >= 1,
    ensures
        joined(seq![first] + rest) == first + delimiter() + joined(rest),
    decreases rest.len(),
{
    let all = seq![first] + rest;
    assert(all.last() == rest.last());
    if rest.len() == 1 {
        assert(all.drop_last() =~= seq![first]);
        assert(joined(seq![first]) == first);
        assert(joined(rest) == rest[0]);
    } else {
        assert(all.drop_last() =~= seq![first] + rest.drop_last());
        lemma_joined_front(first, rest.drop_last());
        assert(joined(all) =~= first + delimiter() + joined(rest));
    }
}

/// Splitting a line into its fields and joining them again gives the line
/// back, character for character.
pub proof fn lemma_join_split_roundtrip(line: Seq<char>)
    ensures
        joined(fields_of(line)) == line,
    decreases line.len(),
{
    let i = find_delimiter(line);
    lemma_find_delimiter(line);
    if 0 <= i && i + 2 <= line.len() {
        let head = line.subrange(0, i);
        let tail = line.subrange(i + 2, line.len() as int);
        lemma_join_split_roundtrip(tail);
        lemma_fields_nonempty(tail);
        lemma_joined_front(head, fields_of(tail));
        assert(head + delimiter() + tail =~= line);
    } else {
        assert(fields_of(line) =~= seq![line]);
    }
}

/// Whether the character at `i` has the code `code`. In a text of ASCII
/// characters, which `ascii` says it is, the answer takes constant time.
fn char_is(text: &str, ascii: bool, i: usize, code: u8) -> (r: bool)
    requires
        ascii ==> is_ascii(text),
        i < text@.len(),
        code < 128,
    ensures
        r == (text@[i as int] == code as char),
{
    if ascii {
        text.get_ascii(i) == code
    } else {
        text.get_char(i) as u32 == code as u32
    }
}

/// An owned copy of the characters from `from` up to `to`. In a text of
/// ASCII characters, which `ascii` says it is, no character is decoded.
fn piece_of(text: &str, ascii: bool, from: usize, to: usize) -> (r: String)
    requires
        ascii ==> is_ascii(text),
        from <= to <= text@.len(),
    ensures
        r@ == text@.subrange(from as int, to as int),
{
    if ascii {
        text.substring_ascii(from, to).to_owned()
    } else {
        text.substring_char(from, to).to_owned()
    }
}

/// Splits a text into its lines.
pub fn split_lines(text: &str) -> (lines: Vec<String>)
    ensures
        texts(lines@) == lines_of(text@),
        lines@.len() == lines_of(text@).len(),
{
    let n: usize = text.unicode_len();
    let ascii = text.is_ascii();
    let mut out: Vec<String> = Vec::new();
    let mut start: usize = 0;
    let mut i: usize = 0;
    assert(text@.subrange(0, n as int) =~= text@);
    assert(texts(out@) =~= Seq::<Seq<char>>::empty());
    assert(10u8 as char == '\n' && 13u8 as char == '\r');
    while i < n
        invariant
            n == text@.len(),
            ascii ==> is_ascii(text),
            start <= i <= n,
            lines_of(text@) == texts(out@) + lines_of(text@.subrange(start as int, n as int)),
            find_char(text@.subrange(start as int, n as int), '\n') == (i - start) + find_char(
                text@.subrange(i as int, n as int),
                '\n',
            ),
        decreases n - i,
    {
        let ghost cur = text@.subrange(start as int, n as int);
        let ghost here = text@.subrange(i as int, n as int);
        assert(here[0] == text@[i as int]);
        if char_is(text, ascii, i, 10u8) {
            let stop: usize = if i > start && char_is(text, ascii, i - 1, 13u8) {
                i - 1
            } else {
                i
            };
            let piece = piece_of(text, ascii, start, stop);
            proof {
                assert(find_char(cur, '\n') == i - start);
                let whole = cur.subrange(0, i - start);
                assert(whole =~= text@.subrange(start as int, i as int));
                assert(piece@ =~= strip_cr(whole));
                assert(cur.subrange(i - start + 1, cur.len() as int) =~= text@.subrange(
                    i + 1,
                    n as int,
                ));
                assert(texts(out@.push(piece)) =~= texts(out@) + seq![piece@]);
            }
            out.push(piece);
            start = i + 1;
            i = i + 1;
            proof {
                assert(text@.subrange(start as int, n as int) =~= text@.subrange(i as int, n as int));
            }
        } else {
            proof {
                assert(here.drop_first() =~= text@.subrange(i + 1, n as int));
            }
            i = i + 1;
        }
    }
    if start < n {
        let piece = piece_of(text, ascii, start, n);
        proof {
            let cur = text@.subrange(start as int, n as int);
            assert(text@.subrange(i as int, n as int).len() == 0);
            assert(find_char(cur, '\n') == cur.len());
            assert(lines_of(cur) =~= seq![cur]);
            assert(texts(out@.push(piece)) =~= texts(out@) + seq![piece@]);
        }
        out.push(piece);
    } else {
        proof {
            assert(lines_of(text@.subrange(start as int, n as int)) =~= Seq::<Seq<char>>::empty());
            assert(texts(out@) + Seq::<Seq<char>>::empty() =~= texts(out@));
        }
    }
    assert(texts(out@).len() == out@.len());
    out
}

/// Splits a line into its fields.
pub fn split_fields(line: &str) -> (fields: Vec<String>)
    ensures
        texts(fields@) == fields_of(line@),
        fields@.len() == fields_of(line@).len(),
        fields@.len() >= 1,
{
    let n: usize = line.unicode_len();
    let ascii = line.is_ascii();
    let mut out: Vec<String> = Vec::new();
    let mut start: usize = 0;
    let mut i: usize = 0;
    assert(line@.subrange(0, n as int) =~= line@);
    assert(texts(out@) =~= Seq::<Seq<char>>::empty());
    assert(124u8 as char == '|');
    while i < n
        invariant
            n == line@.len(),
            ascii ==> is_ascii(line),
            start <= i <= n,
            fields_of(line@) == texts(out@) + fields_of(line@.subrange(start as int, n as int)),
            find_delimiter(line@.subrange(start as int, n as int)) == (i - start) + find_delimiter(
                line@.subrange(i as int, n as int),
            ),
        decreases n - i,
    {
        let ghost cur = line@.subrange(start as int, n as int);
        let ghost here = line@.subrange(i as int, n as int);
        if n - i >= 2 && char_is(line, ascii, i, 124u8) && char_is(line, ascii, i + 1, 124u8) {
            let piece = piece_of(line, ascii, start, i);
            proof {
                assert(here[0] == '|' && here[1] == '|');
                assert(find_delimiter(cur) == i - start);
                assert(cur.subrange(0, i - start) =~= line@.subrange(start as int, i as int));
                assert(cur.subrange(i - start + 2, cur.len() as int) =~= line@.subrange(
                    i + 2,
                    n as int,
                ));
                assert(texts(out@.push(piece)) =~= texts(out@) + seq![piece@]);
            }
            out.push(piece);
            start = i + 2;
            i = i + 2;
            proof {
                assert(line@.subrange(start as int, n as int) =~= line@.subrange(i as int, n as int));
            }
        } else {
            proof {
                if n - i >= 2 {
                    assert(here[0] == line@[i as int] && here[1] == line@[i + 1]);
                }
                assert(here.drop_first() =~= line@.subrange(i + 1, n as int));
                if n - i < 2 {
                    assert(find_delimiter(here.drop_first()) == 0);
                }
            }
            i = i + 1;
        }
    }
    let piece = piece_of(line, ascii, start, n);
    proof {
        let cur = line@.subrange(start as int, n as int);
        assert(line@.subrange(i as int, n as int).len() == 0);
        assert(find_delimiter(cur) == cur.len());
        assert(fields_of(cur) =~= seq![cur]);
        assert(texts(out@.push(piece)) =~= texts(out@) + seq![piece@]);
    }
    out.push(piece);
    proof {
        lemma_fields_nonempty(line@);
        assert(texts(out@).len() == out@.len());
    }
    out
}

/// Joins fields into a line, with the delimiter between neighbours.
pub fn join_fields(fields: &Vec<String>) -> (line: String)
    ensures
        line@ == joined(texts(fields@)),
{
    let mut out = String::new();
    let n: usize = fields.len();
    let mut k: usize = 0;
    proof {
        reveal_strlit("||");
        assert("||"@ =~= delimiter());
        assert(texts(fields@).take(0) =~= Seq::<Seq<char>>::empty());
    }
    while k < n
        invariant
            n == fields@.len(),
            k <= n,
            out@ == joined(texts(fields@).take(k as int)),
            "||"@ == delimiter(),
        decreases n - k,
    {
        proof {
            let next = texts(fields@).take(k + 1);
            assert(next.drop_last() =~= texts(fields@).take(k as int));
            assert(next.last() == fields@[k as int]@);
            if k == 0 {
                assert(out@ + fields@[0]@ =~= fields@[0]@);
            }
        }
        if k > 0 {
            out.append("||");
        }
        out.append(fields[k].as_str());
        k = k + 1;
    }
    proof {
        assert(texts(fields@).take(n as int) =~= texts(fields@));
    }
    out
}

} // verus!
