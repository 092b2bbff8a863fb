//! Text in terms of its characters: the classes, trimming, case folding, decimal and
//! hexadecimal notation that configuration values, SQL literals and messages are made of.

use vstd::prelude::*;
use vstd::string::StringExecFns;

verus! {

/// `String::push`: the character is appended to the text.
pub assume_specification[ String::push ](s: &mut String, c: char)
    ensures
        final(s)@ == old(s)@.push(c),
;

/// `String::from(&str)`: an owned copy with the same characters.
pub assume_specification<'a>[ <String as From<&'a str>>::from ](s: &str) -> (r: String)
    ensures
        r@ == s@,
;

/// The reflexive `From`: the value itself.
pub assume_specification<X>[ <X as From<X>>::from ](value: X) -> (r: X)
    ensures
        r == value,
;

/// A value converts into a string with this text.
pub open spec fn becomes<S: Into<String>>(value: S, text: Seq<char>) -> bool {
    exists|s: String| #[trigger]
        call_ensures(<S as Into<String>>::into, (value,), s) && s@ == text
}

// ---------------------------------------------------------------------------
// Character classes
// ---------------------------------------------------------------------------

/// A decimal digit `0` to `9`.
pub open spec fn is_digit(c: char) -> bool {
    '0' <= c <= '9'
}

/// An ASCII letter.
pub open spec fn is_letter(c: char) -> bool {
    'a' <= c <= 'z' || 'A' <= c <= 'Z'
}

/// An ASCII letter or digit.
pub open spec fn is_alphanumeric(c: char) -> bool {
    is_letter(c) || is_digit(c)
}

/// A character with the Unicode property `White_Space`.
pub open spec fn is_space(c: char) -> bool {
    ||| '\u{9}' <= c <= '\u{d}'
    ||| c == ' '
    ||| c == '\u{85}'
    ||| c == '\u{a0}'
    ||| c == '\u{1680}'
    ||| '\u{2000}' <= c <= '\u{200a}'
    ||| c == '\u{2028}'
    ||| c == '\u{2029}'
    ||| c == '\u{202f}'
    ||| c == '\u{205f}'
    ||| c == '\u{3000}'
}

/// The ASCII lower-case form of a character; anything but `A` to `Z` is its own.
pub open spec fn lower(c: char) -> char {
    if 'A' <= c <= 'Z' {
        (c as u8 + 32) as char
    } else {
        c
    }
}

/// A text with every ASCII capital replaced by its lower-case form.
pub open spec fn lowered(s: Seq<char>) -> Seq<char> {
    s.map_values(|c: char| lower(c))
}

/// A text without the white space at its two ends.
pub open spec fn trimmed(s: Seq<char>) -> Seq<char>
    decreases s.len(),
{
    if s.len() > 0 && is_space(s[0]) {
        trimmed(s.subrange(1, s.len() as int))
    } else if s.len() > 0 && is_space(s.last()) {
        trimmed(s.subrange(0, s.len() - 1))
    } else {
        s
    }
}

/// The number of bytes of a text in UTF-8.
pub open spec fn byte_len(s: Seq<char>) -> nat {
    vstd::utf8::encode_utf8(s).len()
}

/// Whether a character is an ASCII digit.
pub fn digit(c: char) -> (r: bool)
    ensures
        r == is_digit(c),
{
    '0' <= c && c <= '9'
}

/// Whether a character is an ASCII letter.
pub fn letter(c: char) -> (r: bool)
    ensures
        r == is_letter(c),
{
    ('a' <= c && c <= 'z') || ('A' <= c && c <= 'Z')
}

/// Whether a character is an ASCII letter or digit.
pub fn alphanumeric(c: char) -> (r: bool)
    ensures
        r == is_alphanumeric(c),
{
    letter(c) || digit(c)
}

/// Whether a character is white space.
pub fn space(c: char) -> (r: bool)
    ensures
        r == is_space(c),
{
    ('\u{9}' <= c && c <= '\u{d}') || c == ' ' || c == '\u{85}' || c == '\u{a0}' || c == '\u{1680}'
        || ('\u{2000}' <= c && c <= '\u{200a}') || c == '\u{2028}' || c == '\u{2029}' || c
        == '\u{202f}' || c == '\u{205f}' || c == '\u{3000}'
}

/// The ASCII lower-case form of a character.
pub fn to_lower(c: char) -> (r: char)
    ensures
        r == lower(c),
{
    if 'A' <= c && c <= 'Z' {
        (c as u8 + 32) as char
    } else {
        c
    }
}

/// The characters of a text, in order.
pub fn chars_of(s: &str) -> (r: Vec<char>)
    ensures
        r@ == s@,
{
    let mut out: Vec<char> = Vec::new();
    for c in iter: s.chars()
        invariant
            out@ == iter.seq().take(iter.index()),
            iter.seq() == s@,
    {
        out.push(c);
    }
    out
}

/// The text made of `chars[from..to]`.
pub fn text_of(chars: &Vec<char>, from: usize, to: usize) -> (r: String)
    requires
        from <= to <= chars@.len(),
    ensures
        r@ == chars@.subrange(from as int, to as int),
{
    let mut out = String::new();
    let mut i: usize = from;
    while i < to
        invariant
            from <= i <= to <= chars@.len(),
            out@ == chars@.subrange(from as int, i as int),
        decreases to - i,
    {
        out.push(chars[i]);
        i = i + 1;
    }
    out
}

/// Appends a text.
pub fn push_text(out: &mut String, s: &str)
    ensures
        final(out)@ == old(out)@ + s@,
{
    out.append(s);
}

/// Two texts hold the same characters.
pub fn same(a: &str, b: &str) -> (r: bool)
    ensures
        r == (a@ == b@),
{
    let x = a.to_owned();
    let y = b.to_owned();
    x == y
}

proof fn lemma_trimmed_inner(s: Seq<char>, i: int, j: int)
    requires
        0 <= i <= j <= s.len(),
        forall|k: int| 0 <= k < i ==> is_space(#[trigger] s[k]),
        forall|k: int| j <= k < s.len() ==> is_space(#[trigger] s[k]),
        i < j ==> !is_space(s[i]) && !is_space(s[j - 1]),
        i == j ==> i == s.len(),
    ensures
        trimmed(s) == s.subrange(i, j),
    decreases s.len(),
{
    if i > 0 {
        let t = s.subrange(1, s.len() as int);
        assert forall|k: int| 0 <= k < i - 1 implies is_space(#[trigger] t[k]) by {
            assert(t[k] == s[k + 1]);
        }
        assert forall|k: int| j - 1 <= k < t.len() implies is_space(#[trigger] t[k]) by {
            assert(t[k] == s[k + 1]);
        }
        lemma_trimmed_inner(t, i - 1, j - 1);
        assert(t.subrange(i - 1, j - 1) =~= s.subrange(i, j));
    } else if j < s.len() {
        let t = s.subrange(0, s.len() - 1);
        assert(is_space(s[s.len() - 1]));
        lemma_trimmed_inner(t, i, j);
        assert(t.subrange(i, j) =~= s.subrange(i, j));
    } else {
        assert(s.subrange(i, j) =~= s);
    }
}

/// The text without the white space at its two ends.
pub fn trim(s: &str) -> (r: String)
    ensures
        r@ == trimmed(s@),
{
    let chars = chars_of(s);
    let mut i: usize = 0;
    while i < chars.len() && space(chars[i])
        invariant
            i <= chars.len(),
            forall|k: int| 0 <= k < i ==> is_space(#[trigger] chars@[k]),
        decreases chars.len() - i,
    {
        i = i + 1;
    }
    let mut j: usize = chars.len();
    while j > i && space(chars[j - 1])
        invariant
            i <= j <= chars.len(),
            i < chars.len() ==> !is_space(chars@[i as int]),
            forall|k: int| j <= k < chars.len() ==> is_space(#[trigger] chars@[k]),
        decreases j,
    {
        j = j - 1;
    }
    proof {
        lemma_trimmed_inner(s@, i as int, j as int);
    }
    text_of(&chars, i, j)
}

/// The text in ASCII lower case.
pub fn lowercase(s: &str) -> (r: String)
    ensures
        r@ == lowered(s@),
{
    let chars = chars_of(s);
    let mut out = String::new();
    let mut i: usize = 0;
    while i < chars.len()
        invariant
            i <= chars.len(),
            out@ == lowered(chars@.take(i as int)),
        decreases chars.len() - i,
    {
        out.push(to_lower(chars[i]));
        i = i + 1;
        assert(chars@.take(i as int) =~= chars@.take(i - 1).push(chars@[i - 1]));
    }
    assert(chars@.take(i as int) =~= s@);
    out
}

/// The character occurs in the text.
pub fn has_char(s: &str, c: char) -> (r: bool)
    ensures
        r == s@.contains(c),
{
    let chars = chars_of(s);
    let mut i: usize = 0;
    while i < chars.len()
        invariant
            i <= chars.len(),
            chars@ == s@,
            forall|k: int| 0 <= k < i ==> #[trigger] chars@[k] != c,
        decreases chars.len() - i,
    {
        if chars[i] == c {
            assert(s@[i as int] == c);
            return true;
        }
        i = i + 1;
    }
    false
}

/// Encoding distributes over concatenation.
pub proof fn lemma_encode_concat(a: Seq<char>, b: Seq<char>)
    ensures
        vstd::utf8::encode_utf8(a + b) == vstd::utf8::encode_utf8(a) + vstd::utf8::encode_utf8(b),
        byte_len(a + b) == byte_len(a) + byte_len(b),
    decreases a.len(),
{
    if a.len() == 0 {
        assert(a + b =~= b);
        assert(vstd::utf8::encode_utf8(a) + vstd::utf8::encode_utf8(b) =~= vstd::utf8::encode_utf8(
            b,
        ));
    } else {
        lemma_encode_concat(a.drop_first(), b);
        assert((a + b).drop_first() =~= a.drop_first() + b);
        assert(vstd::utf8::encode_utf8(a + b) =~= vstd::utf8::encode_utf8(a)
            + vstd::utf8::encode_utf8(b));
    }
}

/// A character takes one to four bytes.
pub proof fn lemma_byte_len_one(c: char)
    ensures
        1 <= byte_len(seq![c]) <= 4,
        (c as u32) < 128 ==> byte_len(seq![c]) == 1,
{
    reveal_with_fuel(vstd::utf8::encode_utf8, 2);
    assert(seq![c].drop_first() =~= Seq::<char>::empty());
}

/// Distinct texts have distinct encodings.
pub proof fn lemma_encode_injective(a: Seq<char>, b: Seq<char>)
    requires
        vstd::utf8::encode_utf8(a) == vstd::utf8::encode_utf8(b),
    ensures
        a == b,
{
    vstd::utf8::encode_utf8_decode_utf8(a);
    vstd::utf8::encode_utf8_decode_utf8(b);
}

/// A text in ASCII has as many bytes as characters.
pub proof fn lemma_byte_len_ascii(s: Seq<char>)
    requires
        forall|i: int| 0 <= i < s.len() ==> (#[trigger] s[i] as u32) < 128,
    ensures
        byte_len(s) == s.len(),
    decreases s.len(),
{
    if s.len() > 0 {
        lemma_byte_len_ascii(s.drop_last());
        lemma_byte_len_one(s.last());
        lemma_encode_concat(s.drop_last(), seq![s.last()]);
        assert(s.drop_last() + seq![s.last()] =~= s);
    }
}

/// The number of bytes of the text in UTF-8.
pub fn bytes_of(s: &str) -> (r: usize)
    ensures
        r == byte_len(s@),
{
    s.as_bytes().len()
}

// ---------------------------------------------------------------------------
// Fields
// ---------------------------------------------------------------------------

/// The fields of a text between occurrences of a separator. There is always one more field than
/// there are separators.
pub open spec fn fields(s: Seq<char>, separator: char) -> Seq<Seq<char>>
    decreases s.len(),
{
    if s.len() == 0 {
        seq![Seq::empty()]
    } else {
        let before = fields(s.drop_last(), separator);
        if s.last() == separator {
            before.push(Seq::empty())
        } else {
            before.drop_last().push(before.last().push(s.last()))
        }
    }
}

/// The contents of a vector of character vectors.
pub open spec fn inner(v: Seq<Vec<char>>) -> Seq<Seq<char>> {
    v.map_values(|chars: Vec<char>| chars@)
}

/// The fields of `chars[from..to]`.
pub fn split(chars: &Vec<char>, from: usize, to: usize, separator: char) -> (r: Vec<Vec<char>>)
    requires
        from <= to <= chars@.len(),
    ensures
        inner(r@) == fields(chars@.subrange(from as int, to as int), separator),
{
    let ghost whole = chars@.subrange(from as int, to as int);
    let mut done: Vec<Vec<char>> = Vec::new();
    let mut field: Vec<char> = Vec::new();
    let mut i: usize = from;
    assert(inner(done@).push(field@) =~= fields(whole.take(0), separator));
    while i < to
        invariant
            from <= i <= to <= chars@.len(),
            whole == chars@.subrange(from as int, to as int),
            inner(done@).push(field@) == fields(whole.take(i - from), separator),
        decreases to - i,
    {
        let c = chars[i];
        let ghost before = fields(whole.take(i - from), separator);
        assert(whole.take(i - from + 1).drop_last() =~= whole.take(i - from));
        assert(whole.take(i - from + 1).last() == c);
        assert(before.last() == field@);
        assert(before.drop_last() =~= inner(done@));
        if c == separator {
            let ghost finished = field@;
            let ghost earlier = inner(done@);
            done.push(field);
            assert(inner(done@) =~= earlier.push(finished));
            field = Vec::new();
            assert(inner(done@).push(field@) =~= before.push(Seq::empty()));
        } else {
            field.push(c);
        }
        i = i + 1;
    }
    assert(whole.take(i - from) =~= whole);
    let ghost finished = field@;
    let ghost earlier = inner(done@);
    done.push(field);
    assert(inner(done@) =~= earlier.push(finished));
    done
}

// ---------------------------------------------------------------------------
// Laws
// ---------------------------------------------------------------------------

/// Trimming takes white space off the two ends and nothing else: what is left starts and ends with
/// something else, and what was taken off is white space.
pub proof fn law_trimming_takes_white_space_off_the_ends(s: Seq<char>) -> (cut: (int, int))
    ensures
        0 <= cut.0 <= cut.1 <= s.len(),
        trimmed(s) == s.subrange(cut.0, cut.1),
        forall|i: int| 0 <= i < cut.0 || cut.1 <= i < s.len() ==> is_space(#[trigger] s[i]),
        cut.0 < cut.1 ==> !is_space(s[cut.0]) && !is_space(s[cut.1 - 1]),
    decreases s.len(),
{
    if s.len() > 0 && is_space(s[0]) {
        let t = s.subrange(1, s.len() as int);
        let (a, b) = law_trimming_takes_white_space_off_the_ends(t);
        assert(t.subrange(a, b) =~= s.subrange(a + 1, b + 1));
        assert forall|i: int| 0 <= i < a + 1 || b + 1 <= i < s.len() implies is_space(
            #[trigger] s[i],
        ) by {
            if i > 0 {
                assert(t[i - 1] == s[i]);
            }
        }
        (a + 1, b + 1)
    } else if s.len() > 0 && is_space(s.last()) {
        let t = s.subrange(0, s.len() - 1);
        let (a, b) = law_trimming_takes_white_space_off_the_ends(t);
        assert(t.subrange(a, b) =~= s.subrange(a, b));
        assert forall|i: int| 0 <= i < a || b <= i < s.len() implies is_space(#[trigger] s[i]) by {
            if i < s.len() - 1 {
                assert(t[i] == s[i]);
            }
        }
        (a, b)
    } else {
        assert(s.subrange(0, s.len() as int) =~= s);
        (0, s.len() as int)
    }
}

/// Blanks, tabs and line ends are white space, and nothing that can be seen in ASCII is.
pub proof fn law_white_space(c: char)
    ensures
        c == ' ' || c == '\t' || c == '\n' || c == '\r' ==> is_space(c),
        '!' <= c <= '~' ==> !is_space(c),
{
}

/// Lower case changes ASCII capitals, each to its own letter, and nothing else; doing it again
/// changes nothing.
pub proof fn law_lower_case_changes_only_capitals(s: Seq<char>, i: int)
    requires
        0 <= i < s.len(),
    ensures
        lowered(s).len() == s.len(),
        'A' <= s[i] <= 'Z' ==> 'a' <= lowered(s)[i] <= 'z' && lowered(s)[i] as u32 - 'a' as u32
            == s[i] as u32 - 'A' as u32,
        !('A' <= s[i] <= 'Z') ==> lowered(s)[i] == s[i],
        lowered(lowered(s)) == lowered(s),
{
    assert(lowered(lowered(s)) =~= lowered(s));
}

/// The fields with the separator between each two.
pub open spec fn joined(fields: Seq<Seq<char>>, separator: char) -> Seq<char>
    decreases fields.len(),
{
    if fields.len() == 0 {
        Seq::empty()
    } else if fields.len() == 1 {
        fields[0]
    } else {
        joined(fields.drop_last(), separator).push(separator) + fields.last()
    }
}

/// Splitting a text loses nothing: its fields with the separator between them are the text again,
/// and no field holds the separator.
pub proof fn law_fields_make_up_the_text(s: Seq<char>, separator: char)
    ensures
        fields(s, separator).len() > 0,
        joined(fields(s, separator), separator) == s,
        forall|i: int|
            0 <= i < fields(s, separator).len() ==> !(#[trigger] fields(s, separator)[i]).contains(
                separator,
            ),
    decreases s.len(),
{
    let all = fields(s, separator);
    if s.len() == 0 {
        assert(joined(all, separator) =~= s);
    } else {
        let before = fields(s.drop_last(), separator);
        law_fields_make_up_the_text(s.drop_last(), separator);
        assert(s.drop_last().push(s.last()) =~= s);
        if s.last() == separator {
            assert(all.drop_last() =~= before);
            assert(joined(all, separator) =~= s);
            assert forall|i: int| 0 <= i < all.len() implies !(#[trigger] all[i]).contains(
                separator,
            ) by {
                if i < before.len() {
                    assert(all[i] == before[i]);
                }
            }
        } else {
            assert(all.drop_last() =~= before.drop_last());
            assert(all.last() == before.last().push(s.last()));
            if before.len() == 1 {
                assert(joined(all, separator) =~= s);
            } else {
                assert(joined(all, separator) =~= joined(before, separator).push(s.last()));
            }
            assert forall|i: int| 0 <= i < all.len() implies !(#[trigger] all[i]).contains(
                separator,
            ) by {
                if i < before.len() - 1 {
                    assert(all[i] == before[i]);
                } else {
                    assert(!before[before.len() - 1].contains(separator));
                    if all[i].contains(separator) {
                        let k = choose|k: int| 0 <= k < all[i].len() && all[i][k] == separator;
                        assert(k < before.last().len());
                        assert(before.last()[k] == separator);
                    }
                }
            }
        }
    }
}

/// Fields that hold no separator come out of the text that they make up with separators between
/// them.
pub proof fn law_joined_fields_come_apart(parts: Seq<Seq<char>>, separator: char)
    requires
        parts.len() > 0,
        forall|i: int| 0 <= i < parts.len() ==> !(#[trigger] parts[i]).contains(separator),
    ensures
        fields(joined(parts, separator), separator) == parts,
    decreases parts.len(),
{
    let last = parts.last();
    assert(!parts[parts.len() - 1].contains(separator));
    if parts.len() == 1 {
        let none = Seq::<char>::empty();
        lemma_fields_of_more(none, last, separator);
        assert(none + last =~= last);
        assert(fields(none, separator) =~= seq![none]);
        assert(fields(last, separator) =~= parts);
    } else {
        let before = parts.drop_last();
        assert forall|i: int| 0 <= i < before.len() implies !(#[trigger] before[i]).contains(
            separator,
        ) by {
            assert(before[i] == parts[i]);
        }
        law_joined_fields_come_apart(before, separator);
        let head = joined(before, separator);
        let next = head.push(separator);
        assert(next.drop_last() =~= head);
        lemma_fields_of_more(next, last, separator);
        let none = Seq::<char>::empty();
        assert(none + last =~= last);
        assert(fields(next, separator) =~= before.push(none));
        assert(before.push(none).drop_last() =~= before);
        assert(fields(next + last, separator) =~= parts);
    }
}

/// What holds no separator goes on with the last field.
proof fn lemma_fields_of_more(a: Seq<char>, b: Seq<char>, separator: char)
    requires
        !b.contains(separator),
    ensures
        fields(a, separator).len() > 0,
        fields(a + b, separator) == fields(a, separator).drop_last().push(
            fields(a, separator).last() + b,
        ),
    decreases b.len(),
{
    law_fields_make_up_the_text(a, separator);
    let all = fields(a, separator);
    if b.len() == 0 {
        assert(a + b =~= a);
        assert(all.last() + b =~= all.last());
        assert(all.drop_last().push(all.last()) =~= all);
    } else {
        let c = b.drop_last();
        assert forall|i: int| 0 <= i < c.len() implies c[i] != separator by {
            assert(b[i] == c[i]);
        }
        lemma_fields_of_more(a, c, separator);
        assert((a + b).drop_last() =~= a + c);
        assert(b[b.len() - 1] != separator);
        let before = all.drop_last();
        assert(before.push(all.last() + c).drop_last() =~= before);
        assert((all.last() + c).push(b.last()) =~= all.last() + b);
    }
}

// ---------------------------------------------------------------------------
// Texts made of pieces
// ---------------------------------------------------------------------------

/// The pieces one after the other.
pub open spec fn concat(pieces: Seq<Seq<char>>) -> Seq<char>
    decreases pieces.len(),
{
    if pieces.len() == 0 {
        Seq::empty()
    } else if pieces.len() == 1 {
        pieces[0]
    } else {
        concat(pieces.drop_last()) + pieces.last()
    }
}

/// A part stands somewhere in a text.
pub open spec fn holds(text: Seq<char>, part: Seq<char>) -> bool {
    exists|before: Seq<char>, after: Seq<char>| text == #[trigger] (before + part + after)
}

/// The piece after some pieces, with those before it and those behind it.
pub proof fn lemma_piece_stands(pieces: Seq<Seq<char>>, i: int) -> (after: Seq<char>)
    requires
        0 <= i < pieces.len(),
    ensures
        concat(pieces) == concat(pieces.take(i)) + pieces[i] + after,
        i + 1 < pieces.len() ==> pieces[i + 1].is_prefix_of(after),
    decreases pieces.len(),
{
    let before = pieces.drop_last();
    if i == pieces.len() - 1 {
        assert(pieces.take(i) =~= before);
        let none = Seq::<char>::empty();
        if i == 0 {
            assert(concat(pieces) =~= concat(pieces.take(i)) + pieces[i] + none);
        } else {
            assert(concat(pieces) =~= concat(pieces.take(i)) + pieces[i] + none);
        }
        none
    } else {
        let after = lemma_piece_stands(before, i);
        assert(before.take(i) =~= pieces.take(i));
        assert(before[i] == pieces[i]);
        let more = after + pieces.last();
        assert(concat(pieces) =~= concat(pieces.take(i)) + pieces[i] + more);
        if i + 2 < pieces.len() {
            assert(before[i + 1] == pieces[i + 1]);
            assert(more.subrange(0, pieces[i + 1].len() as int) =~= pieces[i + 1]);
        } else {
            lemma_last_piece(before, i, after);
            assert(more.subrange(0, pieces[i + 1].len() as int) =~= pieces[i + 1]);
        }
        more
    }
}

proof fn lemma_last_piece(pieces: Seq<Seq<char>>, i: int, after: Seq<char>)
    requires
        i == pieces.len() - 1,
        0 <= i,
        concat(pieces) == concat(pieces.take(i)) + pieces[i] + after,
    ensures
        after.len() == 0,
{
    assert(pieces.take(i) =~= pieces.drop_last());
    let whole = concat(pieces);
    assert(whole.len() == concat(pieces.take(i)).len() + pieces[i].len() + after.len());
    if i == 0 {
        assert(concat(pieces.take(i)).len() == 0);
    }
}

/// A piece between the end of the one before it and the start of the one behind it.
pub proof fn lemma_piece_between(p: Seq<Seq<char>>, i: int, name: Seq<char>, end: Seq<char>)
    requires
        0 <= i < p.len() - 2,
        name.is_suffix_of(p[i]),
        end.is_prefix_of(p[i + 2]),
    ensures
        holds(concat(p), name + p[i + 1] + end),
{
    let after = lemma_piece_stands(p, i + 1);
    let before = concat(p.take(i + 1));
    assert(p.take(i + 1).last() == p[i]);
    assert(p.take(i + 1).drop_last() =~= p.take(i));
    let head = before.take(before.len() - name.len());
    let rest = after.skip(end.len() as int);
    assert(name.is_suffix_of(before)) by {
        assert(before.subrange(before.len() - p[i].len(), before.len() as int) =~= p[i]);
        assert(before.subrange(before.len() - name.len(), before.len() as int) =~= name);
    }
    assert(before =~= head + name);
    assert(after.subrange(0, end.len() as int) =~= p[i + 2].subrange(0, end.len() as int));
    assert(after =~= end + rest);
    assert(concat(p) =~= head + (name + p[i + 1] + end) + rest);
}


/// A part with something before it and something behind it stands in the whole.
pub proof fn lemma_holds(text: Seq<char>, before: Seq<char>, part: Seq<char>, after: Seq<char>)
    requires
        text =~= before + part + after,
    ensures
        holds(text, part),
{
}

/// What was put behind a text ends it.
pub proof fn lemma_suffix(a: Seq<char>, b: Seq<char>)
    ensures
        b.is_suffix_of(a + b),
{
    let whole = a + b;
    assert(whole.subrange(whole.len() - b.len(), whole.len() as int) =~= b);
}

/// The white space beyond ASCII: the next line, the fixed blanks, and the separators of lines and
/// paragraphs. A blank of no width is none.
pub proof fn law_white_space_beyond_ascii(c: char)
    ensures
        c > '\u{7f}' ==> is_space(c) == (c == '\u{85}' || c == '\u{a0}' || c == '\u{1680}' || (
        '\u{2000}' <= c && c <= '\u{200a}') || c == '\u{2028}' || c == '\u{2029}' || c == '\u{202f}'
            || c == '\u{205f}' || c == '\u{3000}'),
        !is_space('\u{200b}'),
        !is_space('\u{feff}'),
        c < ' ' ==> is_space(c) == ('\t' <= c <= '\r'),
{
}

} // verus!
