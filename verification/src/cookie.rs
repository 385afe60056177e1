//! Looking a cookie up in a `Cookie` header.
//!
//! The header holds pairs of the form `name=value`, separated by `;`. Blanks
//! around a pair do not count. Where a name occurs more than once, the first
//! pair wins.

use vstd::prelude::*;
use vstd::string::*;

verus! {

/// Whether `c` is a blank: a space or a tab.
pub open spec fn is_blank(c: char) -> bool {
    c == ' ' || c == '\t'
}

/// `s` without the blanks at its start.
pub open spec fn trim_start(s: Seq<char>) -> Seq<char>
    decreases s.len(),
{
    if s.len() > 0 && is_blank(s[0]) {
        trim_start(s.skip(1))
    } else {
        s
    }
}

/// `s` without the blanks at its end.
pub open spec fn trim_end(s: Seq<char>) -> Seq<char>
    decreases s.len(),
{
    if s.len() > 0 && is_blank(s.last()) {
        trim_end(s.drop_last())
    } else {
        s
    }
}

/// `s` without the blanks at its start and at its end.
pub open spec fn trim(s: Seq<char>) -> Seq<char> {
    trim_end(trim_start(s))
}

/// The number of characters of `s` that come before its first `;`, or the
/// length of `s` where it holds none.
pub open spec fn first_pair_len(s: Seq<char>) -> int
    decreases s.len(),
{
    if s.len() == 0 || s[0] == ';' {
        0
    } else {
        1 + first_pair_len(s.skip(1))
    }
}

/// The value of a pair, where the pair is `name`, `=` and the value.
pub open spec fn pair_value(pair: Seq<char>, name: Seq<char>) -> Option<Seq<char>> {
    if pair.len() > name.len() && pair.take(name.len() as int) == name && pair[name.len() as int]
        == '=' {
        Some(pair.skip(name.len() as int + 1))
    } else {
        None
    }
}

/// The value of the first pair of `header` that is named `name`, or `None`
/// where no pair is.
pub open spec fn cookie_lookup(header: Seq<char>, name: Seq<char>) -> Option<Seq<char>>
    decreases header.len(),
{
    let len = first_pair_len(header);
    match pair_value(trim(header.take(len)), name) {
        Some(value) => Some(value),
        None => if 0 <= len < header.len() {
            cookie_lookup(header.skip(len + 1), name)
        } else {
            None
        },
    }
}

/// The pair that gives `name` the value `value`.
pub open spec fn pair_text(name: Seq<char>, value: Seq<char>) -> Seq<char> {
    name + seq!['='] + value
}

/// Whether `s` can stand in a pair as it is: it holds no `;`, and no blank
/// at its start or at its end.
pub open spec fn is_plain(s: Seq<char>) -> bool {
    &&& forall|i: int| 0 <= i < s.len() ==> s[i] != ';'
    &&& s.len() > 0 ==> !is_blank(s[0]) && !is_blank(s.last())
}

/// The number of characters of `text`. `ascii` says whether `text` is
/// ASCII all through: its characters are then its bytes, and are counted
/// and reached without decoding.
fn char_count(text: &str, ascii: bool) -> (count: usize)
    requires
        ascii == is_ascii(text),
    ensures
        count == text@.len(),
{
    if ascii {
        proof {
            vstd::utf8::is_ascii_chars_encode_utf8(text@);
        }
        text.as_bytes().len()
    } else {
        text.unicode_len()
    }
}

/// The character of `text` at `index`.
fn char_at(text: &str, ascii: bool, index: usize) -> (c: char)
    requires
        ascii == is_ascii(text),
        index < text@.len(),
    ensures
        c == text@[index as int],
{
    if ascii {
        let b = text.get_ascii(index);
        assert('\0' <= text@[index as int] <= '\u{7f}');
        b as char
    } else {
        text.get_char(index)
    }
}

/// The characters of `text` from `from` up to, and without, `to`.
fn slice_of<'a>(text: &'a str, ascii: bool, from: usize, to: usize) -> (part: &'a str)
    requires
        ascii == is_ascii(text),
        from <= to <= text@.len(),
    ensures
        part@ == text@.subrange(from as int, to as int),
{
    if ascii {
        text.substring_ascii(from, to)
    } else {
        text.substring_char(from, to)
    }
}

/// Looks the cookie `name` up in the `Cookie` header `header`.
pub fn cookie_value<'a>(header: &'a str, name: &str) -> (value: Option<&'a str>)
    ensures
        value.deep_view() == cookie_lookup(header@, name@),
{
    let ascii = header.is_ascii();
    let name_ascii = name.is_ascii();
    let n = char_count(header, ascii);
    let m = char_count(name, name_ascii);
    let mut pos: usize = 0;
    assert(header@.skip(0) =~= header@);
    loop
        invariant
            pos <= n,
            n == header@.len(),
            m == name@.len(),
            ascii == is_ascii(header),
            name_ascii == is_ascii(name),
            cookie_lookup(header@, name@) == cookie_lookup(header@.skip(pos as int), name@),
        decreases n - pos,
    {
        let ghost rest = header@.skip(pos as int);
        let mut end: usize = pos;
        while end < n && char_at(header, ascii, end) != ';'
            invariant
                pos <= end <= n,
                n == header@.len(),
                ascii == is_ascii(header),
                forall|k: int| pos <= k < end ==> header@[k] != ';',
            decreases n - end,
        {
            end += 1;
        }
        proof {
            assert forall|k: int| 0 <= k < end - pos implies rest[k] != ';' by {
                assert(rest[k] == header@[pos + k]);
            }
            lemma_first_pair_len(rest, end - pos);
            assert(rest.take(end - pos) =~= header@.subrange(pos as int, end as int));
        }
        let mut a: usize = pos;
        while a < end && (char_at(header, ascii, a) == ' ' || char_at(header, ascii, a) == '\t')
            invariant
                pos <= a <= end <= n,
                n == header@.len(),
                ascii == is_ascii(header),
                trim_start(header@.subrange(pos as int, end as int)) == trim_start(
                    header@.subrange(a as int, end as int),
                ),
            decreases end - a,
        {
            assert(header@.subrange(a as int, end as int).skip(1) =~= header@.subrange(
                a + 1,
                end as int,
            ));
            a += 1;
        }
        let mut b: usize = end;
        while b > a && (char_at(header, ascii, b - 1) == ' ' || char_at(header, ascii, b - 1)
            == '\t')
            invariant
                a <= b <= end <= n,
                n == header@.len(),
                ascii == is_ascii(header),
                trim_end(header@.subrange(a as int, end as int)) == trim_end(
                    header@.subrange(a as int, b as int),
                ),
            decreases b - a,
        {
            assert(header@.subrange(a as int, b as int).drop_last() =~= header@.subrange(
                a as int,
                b - 1,
            ));
            b -= 1;
        }
        let ghost pair = header@.subrange(a as int, b as int);
        assert(trim(header@.subrange(pos as int, end as int)) == pair);
        if b - a > m {
            let mut k: usize = 0;
            while k < m && char_at(header, ascii, a + k) == char_at(name, name_ascii, k)
                invariant
                    k <= m,
                    a + m < b <= n,
                    n == header@.len(),
                    m == name@.len(),
                    ascii == is_ascii(header),
                    name_ascii == is_ascii(name),
                    forall|j: int| 0 <= j < k ==> header@[a + j] == name@[j],
                decreases m - k,
            {
                k += 1;
            }
            if k == m && char_at(header, ascii, a + m) == '=' {
                let value = slice_of(header, ascii, a + m + 1, b);
                proof {
                    assert(pair.take(m as int) =~= name@);
                    assert(pair.skip(m + 1) =~= value@);
                }
                return Some(value);
            }
            proof {
                if k < m {
                    assert(pair.take(m as int)[k as int] != name@[k as int]);
                }
            }
        }
        if end >= n {
            return None;
        }
        assert(rest.skip(end - pos + 1) =~= header@.skip(end + 1));
        pos = end + 1;
    }
}

/// Writes the pair that gives `name` the value `value`.
pub fn cookie_pair(name: &str, value: &str) -> (pair: String)
    ensures
        pair@ == pair_text(name@, value@),
{
    let mut pair = String::new();
    pair.append(name);
    proof {
        reveal_strlit("=");
    }
    pair.append("=");
    pair.append(value);
    assert(pair@ =~= pair_text(name@, value@));
    pair
}

/// A header that holds one pair, written as it is, gives the pair's value
/// back under the pair's name.
pub proof fn lemma_pair_is_found(name: Seq<char>, value: Seq<char>)
    requires
        is_plain(name),
        is_plain(value),
    ensures
        cookie_lookup(pair_text(name, value), name) == Some(value),
{
    let pair = pair_text(name, value);
    assert forall|j: int| 0 <= j < pair.len() implies pair[j] != ';' by {
        if j < name.len() {
            assert(pair[j] == name[j]);
        } else if j > name.len() {
            assert(pair[j] == value[j - name.len() - 1]);
        }
    }
    lemma_first_pair_len(pair, pair.len() as int);
    assert(pair.take(pair.len() as int) =~= pair);
    assert(!is_blank(pair[0])) by {
        if name.len() > 0 {
            assert(pair[0] == name[0]);
        }
    }
    assert(!is_blank(pair.last())) by {
        if value.len() > 0 {
            assert(pair.last() == value.last());
        }
    }
    assert(trim(pair) == pair);
    assert(pair.take(name.len() as int) =~= name);
    assert(pair.skip(name.len() as int + 1) =~= value);
}

/// The first pair of a text ends where its first `;` stands, or where the
/// text ends.
proof fn lemma_first_pair_len(s: Seq<char>, k: int)
    requires
        0 <= k <= s.len(),
        forall|j: int| 0 <= j < k ==> s[j] != ';',
        k == s.len() || s[k] == ';',
    ensures
        first_pair_len(s) == k,
    decreases k,
{
    if k > 0 {
        let tail = s.skip(1);
        assert forall|j: int| 0 <= j < k - 1 implies tail[j] != ';' by {
            assert(tail[j] == s[j + 1]);
        }
        lemma_first_pair_len(tail, k - 1);
    }
}

} // verus!
