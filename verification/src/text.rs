//! Searching and building text, over the characters of a string.
use vstd::prelude::*;

verus! {

/// Whether `needle` stands in `hay` at character position `i`.
pub open spec fn occurs_at(hay: Seq<char>, needle: Seq<char>, i: int) -> bool {
    &&& 0 <= i <= hay.len() - needle.len()
    &&& hay.subrange(i, i + needle.len()) == needle
}

/// Whether `needle` stands somewhere in `hay`.
pub open spec fn has_text(hay: Seq<char>, needle: Seq<char>) -> bool {
    exists|i: int| #[trigger] occurs_at(hay, needle, i)
}

/// Whether a text is made of ASCII characters alone.
pub open spec fn is_ascii_text(s: Seq<char>) -> bool {
    forall|i: int| 0 <= i < s.len() ==> (#[trigger] s[i] as u32) < 128
}

/// The lowercase form of one ASCII character.
pub open spec fn ascii_lower(c: char) -> char {
    if 'A' <= c <= 'Z' {
        (c as u32 + 32) as char
    } else {
        c
    }
}

/// A text with its ASCII letters in lowercase.
pub open spec fn ascii_lowercase(s: Seq<char>) -> Seq<char> {
    s.map_values(|c: char| ascii_lower(c))
}

/// What `str::to_lowercase` makes of a text.
pub uninterp spec fn lowercase(s: Seq<char>) -> Seq<char>;

/// `str::to_lowercase`: the Unicode lowercase mapping of a string.
///
/// The result depends on the string alone. On an ASCII string it is the string with each of the
/// letters `A` to `Z` replaced by its small letter. In any string, a run of ASCII characters comes
/// through unbroken, with its letters replaced in that way.
#[verifier::external_body]
pub(crate) fn to_lowercase(s: &str) -> (r: String)
    ensures
        r@ == lowercase(s@),
        is_ascii_text(s@) ==> r@ == ascii_lowercase(s@),
        forall|part: Seq<char>|
            #![trigger has_text(s@, part)]
            is_ascii_text(part) && has_text(s@, part) ==> has_text(r@, ascii_lowercase(part)),
{
    s.to_lowercase()
}

/// `String::push`: appends one character.
pub assume_specification[ String::push ](s: &mut String, c: char)
    ensures
        final(s)@ == old(s)@.push(c),
;

/// A text without capitals that stands in another stands there still when the letters of the other
/// are in lowercase.
pub proof fn law_lowercase_keeps_text(hay: Seq<char>, needle: Seq<char>)
    requires
        has_text(hay, needle),
        ascii_lowercase(needle) == needle,
    ensures
        has_text(ascii_lowercase(hay), needle),
{
    let i = choose|i: int| #[trigger] occurs_at(hay, needle, i);
    let lowered = ascii_lowercase(hay);
    let part = lowered.subrange(i, i + needle.len());
    assert forall|k: int| 0 <= k < needle.len() implies part[k] == needle[k] by {
        assert(hay.subrange(i, i + needle.len())[k] == hay[i + k]);
        assert(ascii_lowercase(needle)[k] == ascii_lower(needle[k]));
    }
    assert(part =~= needle);
    assert(occurs_at(lowered, needle, i));
}

/// Where an ASCII text stands in a text whose ASCII letters are in lowercase, there stands an ASCII
/// text that it is the lowercase of. Gives that text.
pub(crate) proof fn lemma_lowercase_comes_from(hay: Seq<char>, needle: Seq<char>) -> (part: Seq<
    char,
>)
    requires
        has_text(ascii_lowercase(hay), needle),
        is_ascii_text(needle),
    ensures
        has_text(hay, part),
        is_ascii_text(part),
        ascii_lowercase(part) == needle,
{
    let lowered = ascii_lowercase(hay);
    let i = choose|i: int| #[trigger] occurs_at(lowered, needle, i);
    let part = hay.subrange(i, i + needle.len());
    assert forall|k: int| 0 <= k < part.len() implies ascii_lower(#[trigger] part[k]) == needle[k]
        && (part[k] as u32) < 128 by {
        assert(lowered.subrange(i, i + needle.len())[k] == lowered[i + k]);
        assert(lowered[i + k] == ascii_lower(part[k]));
        assert((needle[k] as u32) < 128);
    }
    assert(ascii_lowercase(part) =~= needle);
    assert(occurs_at(hay, part, i));
    part
}

/// The characters of a string, in order.
pub fn chars_of(s: &str) -> (r: Vec<char>)
    ensures
        r@ == s@,
{
    let mut out: Vec<char> = Vec::new();
    for c in it: s.chars()
        invariant
            out@ == it.seq().take(it.index()),
            it.seq() == s@,
    {
        out.push(c);
    }
    out
}

/// Whether `needle` stands somewhere in `hay`.
pub fn contains(hay: &str, needle: &str) -> (r: bool)
    ensures
        r == has_text(hay@, needle@),
{
    let h = chars_of(hay);
    let n = chars_of(needle);
    if n.len() > h.len() {
        return false;
    }
    let last: usize = h.len() - n.len();
    let mut i: usize = 0;
    while i <= last
        invariant
            h@ == hay@,
            n@ == needle@,
            n@.len() <= h@.len(),
            last == h@.len() - n@.len(),
            0 <= i <= last + 1,
            forall|k: int| 0 <= k < i ==> !#[trigger] occurs_at(hay@, needle@, k),
        decreases last + 1 - i,
    {
        let mut j: usize = 0;
        while j < n.len() && h[i + j] == n[j]
            invariant
                i <= last,
                last == h.len() - n.len(),
                j <= n@.len(),
                forall|k: int| 0 <= k < j ==> h@[i + k] == #[trigger] n@[k],
            decreases n@.len() - j,
        {
            j += 1;
        }
        if j == n.len() {
            assert(h@.subrange(i as int, i + n@.len()) =~= n@);
            assert(occurs_at(hay@, needle@, i as int));
            return true;
        }
        assert(!occurs_at(hay@, needle@, i as int)) by {
            assert(h@.subrange(i as int, i + n@.len())[j as int] == h@[i + j]);
        }
        if i == last {
            return false;
        }
        i += 1;
    }
    false
}

/// Whether a character stands somewhere in a string.
pub fn contains_char(s: &str, c: char) -> (r: bool)
    ensures
        r == s@.contains(c),
{
    let chars = chars_of(s);
    let mut i: usize = 0;
    while i < chars.len()
        invariant
            chars@ == s@,
            i <= chars@.len(),
            forall|k: int| 0 <= k < i ==> s@[k] != c,
        decreases chars@.len() - i,
    {
        if chars[i] == c {
            assert(s@[i as int] == c);
            return true;
        }
        i += 1;
    }
    false
}

/// Whether two strings hold the same characters.
pub fn same_text(a: &str, b: &str) -> (r: bool)
    ensures
        r == (a@ == b@),
{
    a.to_owned() == b.to_owned()
}

/// Whether a string begins with another.
pub fn starts_with(s: &str, prefix: &str) -> (r: bool)
    ensures
        r == prefix@.is_prefix_of(s@),
{
    let len: usize = prefix.unicode_len();
    if s.unicode_len() < len {
        return false;
    }
    same_text(s.substring_char(0, len), prefix)
}

/// The part of a string before the first of a character, if it holds the character.
pub fn before_char(s: &str, c: char) -> (r: Option<String>)
    ensures
        r is Some <==> s@.contains(c),
        r matches Some(head) ==> head@ == s@.take(s@.index_of_first(c)->0),
        r matches Some(head) ==> !head@.contains(c) && head@.push(c).is_prefix_of(s@),
{
    let chars = chars_of(s);
    proof {
        s@.index_of_first_ensures(c);
    }
    let mut i: usize = 0;
    while i < chars.len()
        invariant
            chars@ == s@,
            i <= chars@.len(),
            forall|k: int| 0 <= k < i ==> s@[k] != c,
        decreases chars@.len() - i,
    {
        if chars[i] == c {
            proof {
                assert(s@[i as int] == c);
                s@.index_of_first_ensures(c);
            }
            assert(s@.subrange(0, i as int) =~= s@.take(i as int));
            assert(s@.take(i as int).push(c) =~= s@.subrange(0, i + 1));
            return Some(s.substring_char(0, i).to_owned());
        }
        i += 1;
    }
    None
}

/// A text stands in another wherever it has been put between two others.
pub proof fn law_text_stands_where_put(before: Seq<char>, text: Seq<char>, after: Seq<char>)
    ensures
        has_text(before + text + after, text),
{
    let all = before + text + after;
    let at = before.len() as int;
    assert(all.subrange(at, at + text.len()) =~= text);
    assert(occurs_at(all, text, at));
}

/// Where a text stands in another, the other can be cut at its two ends.
pub proof fn law_standing_text_can_be_cut_out(hay: Seq<char>, text: Seq<char>)
    requires
        has_text(hay, text),
    ensures
        exists|i: int|
            0 <= i <= hay.len() - text.len() && hay == #[trigger] hay.take(i) + text + hay.skip(
                i + text.len(),
            ),
{
    let i = choose|i: int| #[trigger] occurs_at(hay, text, i);
    assert forall|k: int| 0 <= k < text.len() implies hay[i + k] == text[k] by {
        assert(hay.subrange(i, i + text.len())[k] == hay[i + k]);
    }
    assert(hay =~= hay.take(i) + text + hay.skip(i + text.len()));
}

/// Lowercasing the ASCII letters moves the letters `A` to `Z` by 32 code points and nothing else.
pub proof fn law_ascii_lowercase_moves_capitals(s: Seq<char>, i: int)
    requires
        0 <= i < s.len(),
    ensures
        ascii_lowercase(s).len() == s.len(),
        65 <= s[i] as u32 <= 90 ==> ascii_lowercase(s)[i] as u32 == s[i] as u32 + 32,
        !(65 <= s[i] as u32 <= 90) ==> ascii_lowercase(s)[i] == s[i],
{
}

/// Whether a character is a given one, or the capital of a given small ASCII letter.
pub open spec fn is_case_of(c: char, small: char) -> bool {
    c == small || 97 <= small as u32 <= 122 && c as u32 + 32 == small as u32
}

/// Whether a text in small letters stands in another at character position `i`, in any case.
pub open spec fn stands_at(hay: Seq<char>, small: Seq<char>, i: int) -> bool {
    &&& 0 <= i <= hay.len() - small.len()
    &&& forall|k: int| 0 <= k < small.len() ==> is_case_of(#[trigger] hay[i + k], small[k])
}

/// Whether a text in small letters stands somewhere in another, in any case.
pub open spec fn stands_in_any_case(hay: Seq<char>, small: Seq<char>) -> bool {
    exists|i: int| #[trigger] stands_at(hay, small, i)
}

proof fn lemma_case_is_lowered(c: char, small: char)
    requires
        is_case_of(c, small),
        !(65 <= small as u32 <= 90),
    ensures
        ascii_lower(c) == small,
{
}

/// A text without capitals stands in another in any case just where it stands in the lowercase of the
/// other.
pub proof fn law_any_case_is_lowercase(hay: Seq<char>, small: Seq<char>)
    requires
        forall|k: int| 0 <= k < small.len() ==> !(65 <= (#[trigger] small[k]) as u32 <= 90),
    ensures
        stands_in_any_case(hay, small) == has_text(ascii_lowercase(hay), small),
{
    let lowered = ascii_lowercase(hay);
    if stands_in_any_case(hay, small) {
        let i = choose|i: int| #[trigger] stands_at(hay, small, i);
        assert forall|k: int| 0 <= k < small.len() implies lowered.subrange(
            i,
            i + small.len(),
        )[k] == small[k] by {
            assert(lowered[i + k] == ascii_lower(hay[i + k]));
            lemma_case_is_lowered(hay[i + k], small[k]);
        }
        assert(lowered.subrange(i, i + small.len()) =~= small);
        assert(occurs_at(lowered, small, i));
    }
    if has_text(lowered, small) {
        let i = choose|i: int| #[trigger] occurs_at(lowered, small, i);
        assert forall|k: int| 0 <= k < small.len() implies is_case_of(
            #[trigger] hay[i + k],
            small[k],
        ) by {
            assert(lowered.subrange(i, i + small.len())[k] == lowered[i + k]);
        }
        assert(stands_at(hay, small, i));
    }
}

} // verus!
