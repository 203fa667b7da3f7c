//! String helpers shared by the rest of the crate.

use vstd::prelude::*;
use vstd::string::{StringExecFns, StringSliceAdditionalSpecFns};
use vstd::utf8::{decode_utf8, encode_utf8_decode_utf8, is_char_boundary};

verus! {

/// Compares two string slices with `str`'s `==`.
///
/// Trusted: the result is taken to be true exactly when both slices hold the
/// same sequence of characters.
#[verifier::external_body]
pub(crate) fn str_eq(a: &str, b: &str) -> (r: bool)
    ensures
        r == (a@ == b@),
{
    a == b
}

/// `s` with every occurrence of the character `from` replaced by `to`.
pub open spec fn replaced(s: Seq<char>, from: char, to: Seq<char>) -> Seq<char>
    decreases s.len(),
{
    if s.len() == 0 {
        Seq::empty()
    } else {
        replaced(s.drop_last(), from, to) + if s.last() == from {
            to
        } else {
            seq![s.last()]
        }
    }
}

/// Replaces a character throughout a string with `str::replace`.
///
/// Trusted: every occurrence of `from` is replaced by `to`, and every other
/// character is kept in place.
#[verifier::external_body]
pub(crate) fn replace_char(s: &str, from: char, to: &str) -> (r: String)
    ensures
        r@ == replaced(s@, from, to@),
{
    s.replace(from, to)
}

/// What stands for one character in a pattern that is to match literally:
/// a backslash, a percent sign and an underscore each get a backslash in
/// front.
pub open spec fn escape_char(c: char) -> Seq<char> {
    if c == '\\' || c == '%' || c == '_' {
        seq!['\\', c]
    } else {
        seq![c]
    }
}

/// `s` with each of its characters escaped.
pub open spec fn escaped(s: Seq<char>) -> Seq<char>
    decreases s.len(),
{
    if s.len() == 0 {
        Seq::empty()
    } else {
        escaped(s.drop_last()) + escape_char(s.last())
    }
}

/// Replacing in a concatenation is replacing in both parts.
pub proof fn replaced_concat(a: Seq<char>, b: Seq<char>, from: char, to: Seq<char>)
    ensures
        replaced(a + b, from, to) == replaced(a, from, to) + replaced(b, from, to),
    decreases b.len(),
{
    if b.len() == 0 {
        assert(a + b == a);
        assert(replaced(a, from, to) + Seq::<char>::empty() == replaced(a, from, to));
    } else {
        replaced_concat(a, b.drop_last(), from, to);
        assert((a + b).drop_last() == a + b.drop_last());
        assert((a + b).last() == b.last());
        let tail = if b.last() == from {
            to
        } else {
            seq![b.last()]
        };
        assert(replaced(a, from, to) + replaced(b.drop_last(), from, to) + tail == replaced(
            a,
            from,
            to,
        ) + (replaced(b.drop_last(), from, to) + tail));
    }
}

/// Replacing in a single character.
pub proof fn replaced_one(c: char, from: char, to: Seq<char>)
    ensures
        replaced(seq![c], from, to) == if c == from {
            to
        } else {
            seq![c]
        },
{
    let s = seq![c];
    assert(s.drop_last() == Seq::<char>::empty());
    assert(replaced(s.drop_last(), from, to) == Seq::<char>::empty());
    let tail = if c == from {
        to
    } else {
        seq![c]
    };
    assert(Seq::<char>::empty() + tail == tail);
}

/// The three replacements that escape a pattern, applied to the escape of
/// one character alone, give the escape of that character.
proof fn escape_steps_on_char(c: char)
    ensures
        replaced(
            replaced(
                replaced(seq![c], '\\', seq!['\\', '\\']),
                '%',
                seq!['\\', '%'],
            ),
            '_',
            seq!['\\', '_'],
        ) == escape_char(c),
{
    let bb = seq!['\\', '\\'];
    let bp = seq!['\\', '%'];
    let bu = seq!['\\', '_'];
    replaced_one(c, '\\', bb);
    let first = replaced(seq![c], '\\', bb);
    if c == '\\' {
        assert(first == seq!['\\'] + seq!['\\']);
        replaced_concat(seq!['\\'], seq!['\\'], '%', bp);
        replaced_one('\\', '%', bp);
        let second = replaced(first, '%', bp);
        assert(second == seq!['\\'] + seq!['\\']);
        replaced_concat(seq!['\\'], seq!['\\'], '_', bu);
        replaced_one('\\', '_', bu);
        assert(seq!['\\'] + seq!['\\'] == seq!['\\', '\\']);
    } else if c == '%' {
        replaced_one('%', '%', bp);
        let second = replaced(first, '%', bp);
        assert(second == seq!['\\'] + seq!['%']);
        replaced_concat(seq!['\\'], seq!['%'], '_', bu);
        replaced_one('\\', '_', bu);
        replaced_one('%', '_', bu);
        assert(seq!['\\'] + seq!['%'] == seq!['\\', '%']);
    } else if c == '_' {
        replaced_one('_', '%', bp);
        replaced_one('_', '_', bu);
    } else {
        replaced_one(c, '%', bp);
        replaced_one(c, '_', bu);
    }
}

/// Escaping a pattern character by character is the same as replacing
/// first every backslash, then every percent sign, then every underscore.
pub proof fn escaped_by_replacing(s: Seq<char>)
    ensures
        replaced(
            replaced(replaced(s, '\\', seq!['\\', '\\']), '%', seq!['\\', '%']),
            '_',
            seq!['\\', '_'],
        ) == escaped(s),
    decreases s.len(),
{
    let bb = seq!['\\', '\\'];
    let bp = seq!['\\', '%'];
    let bu = seq!['\\', '_'];
    if s.len() == 0 {
    } else {
        let front = s.drop_last();
        let c = s.last();
        escaped_by_replacing(front);
        escape_steps_on_char(c);
        replaced_one(c, '\\', bb);
        let one = replaced(seq![c], '\\', bb);
        assert(replaced(s, '\\', bb) == replaced(front, '\\', bb) + one);
        replaced_concat(replaced(front, '\\', bb), one, '%', bp);
        replaced_concat(
            replaced(replaced(front, '\\', bb), '%', bp),
            replaced(one, '%', bp),
            '_',
            bu,
        );
    }
}

/// Escapes the characters that a `LIKE` pattern gives a meaning to, so that
/// `s` is matched as it stands: each backslash, percent sign and underscore
/// gets a backslash in front.
pub fn escape_like(s: &str) -> (r: String)
    ensures
        r@ == escaped(s@),
{
    let first = replace_char(s, '\\', "\\\\");
    let second = replace_char(first.as_str(), '%', "\\%");
    let third = replace_char(second.as_str(), '_', "\\_");
    proof {
        reveal_strlit("\\\\");
        reveal_strlit("\\%");
        reveal_strlit("\\_");
        assert("\\\\"@ == seq!['\\', '\\']);
        assert("\\%"@ == seq!['\\', '%']);
        assert("\\_"@ == seq!['\\', '_']);
        escaped_by_replacing(s@);
    }
    third
}

/// `text` cut after `max_len` bytes and marked with three dots.
pub open spec fn cut_at(text: &str, max_len: usize) -> Seq<char> {
    decode_utf8(text.spec_bytes().subrange(0, max_len as int)) + "..."@
}

/// Whether `text` can be cut after `max_len` bytes: it is no longer than
/// that, or the cut falls between two characters.
pub open spec fn can_truncate(text: &str, max_len: usize) -> bool {
    text.len() > max_len ==> is_char_boundary(text.spec_bytes(), max_len as int)
}

/// Cuts `text` after `max_len` bytes and marks the cut with three dots; a
/// text of at most `max_len` bytes is returned as it is. The cut must not
/// fall inside a character.
pub fn truncate_text(text: &str, max_len: usize) -> (r: String)
    requires
        can_truncate(text, max_len),
    ensures
        text.len() > max_len ==> r@ == cut_at(text, max_len),
        text.len() <= max_len ==> r@ == text@,
{
    if text.len() > max_len {
        let (head, _) = text.split_at(max_len);
        proof {
            encode_utf8_decode_utf8(head@);
        }
        let mut out = String::from_str(head);
        out.append("...");
        out
    } else {
        String::from_str(text)
    }
}

/// Cuts `text` like [`truncate_text`] where the cut falls between two
/// characters, and returns `None` where it would fall inside one.
pub fn try_truncate_text(text: &str, max_len: usize) -> (r: Option<String>)
    ensures
        r is Some <==> can_truncate(text, max_len),
        r is Some && text.len() > max_len ==> r->0@ == cut_at(text, max_len),
        r is Some && text.len() <= max_len ==> r->0@ == text@,
{
    if text.len() > max_len && !text.is_char_boundary(max_len) {
        None
    } else {
        Some(truncate_text(text, max_len))
    }
}

} // verus!
