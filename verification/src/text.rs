use vstd::prelude::*;
use vstd::string::{StrSliceExecFns, StringExecFns};

verus! {

/// The views of a sequence of texts, in the same order.
pub open spec fn text_views(texts: Seq<String>) -> Seq<Seq<char>> {
    texts.map_values(|t: String| t@)
}

/// The characters of a string, one by one.
pub fn chars_of(s: &str) -> (v: Vec<char>)
    ensures
        v@ == s@,
{
    let mut v: Vec<char> = Vec::new();
    for c in it: s.chars()
        invariant
            v@ == it.seq().take(it.index() as int),
            it.seq() == s@,
    {
        v.push(c);
    }
    v
}

/// Whether two strings hold the same characters.
pub fn same_text(a: &str, b: &str) -> (r: bool)
    ensures
        r == (a@ == b@),
{
    String::from_str(a) == String::from_str(b)
}

/// A line without the carriage return that may end it.
pub open spec fn without_return(line: Seq<char>) -> Seq<char> {
    if line.len() > 0 && line.last() == '\r' {
        line.drop_last()
    } else {
        line
    }
}

/// The lines of `text` that follow a line of which `current` has been
/// read: a line feed ends a line, and what follows the last line feed is a
/// line of its own unless it is empty.
pub open spec fn lines_after(current: Seq<char>, text: Seq<char>) -> Seq<Seq<char>>
    decreases text.len(),
{
    if text.len() == 0 {
        if current.len() == 0 {
            Seq::empty()
        } else {
            seq![current]
        }
    } else if text[0] == '\n' {
        seq![without_return(current)] + lines_after(Seq::empty(), text.drop_first())
    } else {
        lines_after(current.push(text[0]), text.drop_first())
    }
}

/// The lines of a text, without their line ends. A line ends in a line
/// feed, or in a carriage return and a line feed; the last line needs no
/// line end.
pub open spec fn lines_of(text: Seq<char>) -> Seq<Seq<char>> {
    lines_after(Seq::empty(), text)
}

/// Splits a text into its lines.
pub fn lines(text: &str) -> (r: Vec<String>)
    ensures
        text_views(r@) == lines_of(text@),
{
    let chars = chars_of(text);
    let length = chars.len();
    let mut found: Vec<String> = Vec::new();
    let mut start: usize = 0;
    let mut at: usize = 0;
    proof {
        assert(text@.skip(0) =~= text@);
        assert(text@.subrange(0, 0) =~= Seq::<char>::empty());
        assert(text_views(found@) + lines_of(text@) =~= lines_of(text@));
    }
    while at < length
        invariant
            start <= at <= length,
            length == text@.len(),
            chars@ == text@,
            text_views(found@) + lines_after(
                text@.subrange(start as int, at as int),
                text@.skip(at as int),
            ) == lines_of(text@),
        decreases length - at,
    {
        let ghost before = text_views(found@);
        let ghost current = text@.subrange(start as int, at as int);
        let ghost rest = text@.skip(at as int);
        proof {
            assert(rest[0] == text@[at as int]);
            assert(rest.drop_first() =~= text@.skip(at + 1));
        }
        if chars[at] == '\n' {
            let line = if at > start && chars[at - 1] == '\r' {
                assert(text@.subrange(start as int, at - 1) =~= current.drop_last());
                String::from_str(text.substring_char(start, at - 1))
            } else {
                String::from_str(text.substring_char(start, at))
            };
            assert(line@ == without_return(current));
            found.push(line);
            start = at + 1;
            proof {
                assert(text_views(found@) =~= before.push(without_return(current)));
                assert(text@.subrange(start as int, start as int) =~= Seq::<char>::empty());
                assert(text_views(found@) + lines_after(Seq::empty(), text@.skip(at + 1))
                    =~= before + lines_after(current, rest));
            }
        } else {
            assert(text@.subrange(start as int, at + 1) =~= current.push(text@[at as int]));
        }
        at += 1;
    }
    if start < length {
        let ghost before = text_views(found@);
        let line = String::from_str(text.substring_char(start, length));
        found.push(line);
        assert(text_views(found@) =~= before.push(text@.subrange(start as int, length as int)));
    }
    proof {
        assert(text@.skip(length as int) =~= Seq::<char>::empty());
        assert(text_views(found@) =~= lines_of(text@));
    }
    found
}

} // verus!
