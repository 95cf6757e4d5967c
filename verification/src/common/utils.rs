use vstd::prelude::*;
use vstd::string::*;
use vstd::utf8::*;

verus! {

/// The text whose characters are the given bytes, one for one. It is the
/// text that ASCII bytes spell.
pub open spec fn ascii_text(bytes: Seq<u8>) -> Seq<char> {
    Seq::new(bytes.len(), |i: int| bytes[i] as char)
}

/// Whether every byte is below 128.
pub open spec fn all_ascii(bytes: Seq<u8>) -> bool {
    forall|i: int| 0 <= i < bytes.len() ==> #[trigger] bytes[i] < 128
}

/// The text that a byte sequence encodes in UTF-8, where it encodes one.
pub open spec fn text_of(bytes: Seq<u8>) -> Option<Seq<char>> {
    if valid_utf8(bytes) {
        Some(decode_utf8(bytes))
    } else {
        None
    }
}

/// ASCII bytes are valid UTF-8 and decode to themselves.
pub proof fn lemma_ascii_text(bytes: Seq<u8>)
    requires
        all_ascii(bytes),
    ensures
        valid_utf8(bytes),
        decode_utf8(bytes) == ascii_text(bytes),
        text_of(bytes) == Some(ascii_text(bytes)),
{
    let chars = ascii_text(bytes);
    assert(is_ascii_chars(chars)) by {
        assert forall|i: int| 0 <= i < chars.len() implies '\0' <= #[trigger] chars[i] <= '\u{7f}' by {
            assert(bytes[i] < 128);
        }
    }
    is_ascii_chars_encode_utf8(chars);
    assert(encode_utf8(chars) =~= bytes) by {
        assert forall|i: int| 0 <= i < bytes.len() implies (chars[i] as u8) == bytes[i] by {
            assert(bytes[i] < 128);
        }
    }
    encode_utf8_valid_utf8(chars);
    encode_utf8_decode_utf8(chars);
}

/// `String::from_utf8` of std: the bytes become a `String` exactly when they
/// are well-formed UTF-8, and the `String` then holds the text they encode.
#[verifier::external_body]
pub(crate) fn string_from_utf8(bytes: Vec<u8>) -> (r: Option<String>)
    ensures
        r is Some <==> valid_utf8(bytes@),
        r is Some ==> r->0@ == decode_utf8(bytes@),
{
    match String::from_utf8(bytes) {
        Ok(s) => Some(s),
        Err(_) => None,
    }
}

/// `String::push` of std: appends one character.
#[verifier::external_body]
pub(crate) fn push_char(s: &mut String, c: char)
    ensures
        final(s)@ == old(s)@.push(c),
{
    s.push(c)
}

/// The text that well-formed UTF-8 bytes encode.
pub fn bytes_to_string(bytes: Vec<u8>) -> (s: String)
    requires
        valid_utf8(bytes@),
    ensures
        s@ == decode_utf8(bytes@),
{
    match string_from_utf8(bytes) {
        Some(s) => s,
        None => String::new(),
    }
}

/// Whether two texts are the same.
pub fn same_text(a: &str, b: &str) -> (r: bool)
    ensures
        r == (a@ == b@),
{
    a.to_owned() == b.to_owned()
}

/// The arguments of a program: what it was started with, but for the first,
/// which names the interpreter.
pub fn get_argv(env_args: Vec<String>) -> (argv: Vec<String>)
    requires
        env_args@.len() >= 1,
    ensures
        argv@ == env_args@.drop_first(),
{
    let mut argv = env_args;
    argv.remove(0);
    proof {
        assert(argv@ =~= env_args@.drop_first());
    }
    argv
}

/// The character of a decimal digit.
pub open spec fn digit_char(d: nat) -> char
    recommends
        d < 10,
{
    (('0' as u8) + d as u8) as char
}

/// A natural number written in decimal, without sign or leading zeros.
pub open spec fn decimal_text(n: nat) -> Seq<char>
    decreases n,
{
    if n < 10 {
        seq![digit_char(n)]
    } else {
        decimal_text(n / 10).push(digit_char(n % 10))
    }
}

/// Writes an unsigned integer in decimal.
pub fn usize_to_string(n: usize) -> (s: String)
    ensures
        s@ == decimal_text(n as nat),
{
    let mut digits: Vec<u8> = Vec::new();
    let mut rest: usize = n;
    while rest >= 10
        invariant
            forall|i: int| 0 <= i < digits.len() ==> #[trigger] digits[i] < 10,
            decimal_text(n as nat) == decimal_text(rest as nat) + Seq::new(
                digits.len() as nat,
                |i: int| digit_char(digits[digits.len() - 1 - i] as nat),
            ),
        decreases rest,
    {
        let d: u8 = (rest % 10) as u8;
        let ghost before = digits@;
        digits.push(d);
        proof {
            let tail_before = Seq::new(
                before.len() as nat,
                |i: int| digit_char(before[before.len() - 1 - i] as nat),
            );
            let tail_after = Seq::new(
                digits.len() as nat,
                |i: int| digit_char(digits[digits.len() - 1 - i] as nat),
            );
            assert(tail_after =~= seq![digit_char(d as nat)] + tail_before);
            assert(decimal_text(rest as nat) == decimal_text((rest / 10) as nat).push(
                digit_char((rest % 10) as nat),
            ));
            assert(decimal_text((rest / 10) as nat).push(digit_char(d as nat)) + tail_before
                =~= decimal_text((rest / 10) as nat) + tail_after);
        }
        rest = rest / 10;
    }
    let mut s = String::new();
    push_char(&mut s, (('0' as u8) + rest as u8) as char);
    let mut k: usize = digits.len();
    while k > 0
        invariant
            k <= digits.len(),
            forall|i: int| 0 <= i < digits.len() ==> #[trigger] digits[i] < 10,
            s@ == decimal_text(rest as nat) + Seq::new(
                (digits.len() - k) as nat,
                |i: int| digit_char(digits[digits.len() - 1 - i] as nat),
            ),
        decreases k,
    {
        k = k - 1;
        let ghost before = s@;
        push_char(&mut s, (('0' as u8) + digits[k]) as char);
        proof {
            assert(s@ =~= decimal_text(rest as nat) + Seq::new(
                (digits.len() - k) as nat,
                |i: int| digit_char(digits[digits.len() - 1 - i] as nat),
            ));
        }
    }
    proof {
        assert(Seq::new(
            digits.len() as nat,
            |i: int| digit_char(digits[digits.len() - 1 - i] as nat),
        ) =~= Seq::new(
            (digits.len() - 0) as nat,
            |i: int| digit_char(digits[digits.len() - 1 - i] as nat),
        ));
    }
    s
}

/// Whether a byte offset into the UTF-8 form of a text falls between two
/// characters, or at one of its ends.
pub open spec fn on_boundary(text: Seq<char>, offset: int) -> bool {
    is_char_boundary(encode_utf8(text), offset)
}

/// The characters whose encoding starts before the byte offset.
pub open spec fn text_before(text: Seq<char>, offset: int) -> Seq<char> {
    decode_utf8(encode_utf8(text).subrange(0, offset))
}

/// The characters whose encoding starts at the byte offset or behind it.
pub open spec fn text_from(text: Seq<char>, offset: int) -> Seq<char> {
    decode_utf8(encode_utf8(text).subrange(offset, encode_utf8(text).len() as int))
}

/// `String::pop` of std: takes the last character off, if there is one.
#[verifier::external_body]
pub(crate) fn string_pop(s: &mut String) -> (r: Option<char>)
    ensures
        old(s)@.len() == 0 ==> r is None && final(s)@ == old(s)@,
        old(s)@.len() > 0 ==> r == Some(old(s)@.last()) && final(s)@ == old(s)@.drop_last(),
{
    s.pop()
}

/// `String::insert_str` of std: puts a text in at a byte offset, which has to
/// lie on a character boundary of the string.
#[verifier::external_body]
pub(crate) fn string_insert_str(s: &mut String, idx: usize, text: &str)
    requires
        on_boundary(old(s)@, idx as int),
    ensures
        final(s)@ == text_before(old(s)@, idx as int) + text@ + text_from(old(s)@, idx as int),
{
    s.insert_str(idx, text)
}

/// `String::remove` of std: takes out the character that starts at a byte
/// offset, which has to lie on a character boundary before the end.
#[verifier::external_body]
pub(crate) fn string_remove(s: &mut String, idx: usize) -> (c: char)
    requires
        idx < encode_utf8(old(s)@).len(),
        on_boundary(old(s)@, idx as int),
    ensures
        c == text_from(old(s)@, idx as int).first(),
        final(s)@ == text_before(old(s)@, idx as int) + text_from(
            old(s)@,
            idx as int,
        ).drop_first(),
{
    s.remove(idx)
}

/// Whether a character has the Unicode property White_Space, as
/// `char::is_whitespace` of std tells.
pub uninterp spec fn unicode_white_space(c: char) -> bool;

/// A text without the characters at its start that satisfy `blank`.
pub open spec fn trimmed_start(text: Seq<char>, blank: spec_fn(char) -> bool) -> Seq<char>
    decreases text.len(),
{
    if text.len() > 0 && blank(text.first()) {
        trimmed_start(text.drop_first(), blank)
    } else {
        text
    }
}

/// A text without the characters at its end that satisfy `blank`.
pub open spec fn trimmed_end(text: Seq<char>, blank: spec_fn(char) -> bool) -> Seq<char>
    decreases text.len(),
{
    if text.len() > 0 && blank(text.last()) {
        trimmed_end(text.drop_last(), blank)
    } else {
        text
    }
}

/// `str::trim` of std: the text without the white space at its two ends.
#[verifier::external_body]
pub(crate) fn str_trim(s: &str) -> (r: &str)
    ensures
        r@ == trimmed_end(
            trimmed_start(s@, |c: char| unicode_white_space(c)),
            |c: char| unicode_white_space(c),
        ),
{
    s.trim()
}

/// Whether `needle` occurs in `hay` as a run of consecutive characters.
pub open spec fn occurs_in(needle: Seq<char>, hay: Seq<char>) -> bool {
    exists|i: int|
        0 <= i && i + needle.len() <= hay.len() && #[trigger] hay.subrange(i, i + needle.len())
            == needle
}

/// `str::contains` of std, with a string as the pattern.
#[verifier::external_body]
pub(crate) fn str_contains(hay: &str, needle: &str) -> (r: bool)
    ensures
        r == occurs_in(needle@, hay@),
{
    hay.contains(needle)
}

/// A text as `Debug` of std writes it: between double quotes, with the
/// characters escaped that `Debug` escapes.
pub uninterp spec fn debug_text(text: Seq<char>) -> Seq<char>;

/// The `Debug` form of a string, as `format!("{:?}", ..)` of std gives it.
#[verifier::external_body]
pub(crate) fn debug_quote(s: &str) -> (r: String)
    ensures
        r@ == debug_text(s@),
{
    format!("{:?}", s)
}

/// Whether one byte sequence comes before another in the lexicographic
/// order, which is the order of strings.
pub open spec fn bytes_below(a: Seq<u8>, b: Seq<u8>) -> bool
    decreases a.len(),
{
    if b.len() == 0 {
        false
    } else if a.len() == 0 {
        true
    } else if a.first() != b.first() {
        a.first() < b.first()
    } else {
        bytes_below(a.drop_first(), b.drop_first())
    }
}

/// Whether one string comes before another: strings are ordered by their
/// bytes.
pub fn str_below(a: &str, b: &str) -> (r: bool)
    ensures
        r == bytes_below(encode_utf8(a@), encode_utf8(b@)),
{
    let x = a.as_bytes();
    let y = b.as_bytes();
    let mut i: usize = 0;
    proof {
        assert(x@.skip(0) =~= x@);
        assert(y@.skip(0) =~= y@);
    }
    while i < x.len() && i < y.len() && x[i] == y[i]
        invariant
            i <= x.len(),
            i <= y.len(),
            x@ == encode_utf8(a@),
            y@ == encode_utf8(b@),
            bytes_below(x@, y@) == bytes_below(x@.skip(i as int), y@.skip(i as int)),
        decreases x.len() - i,
    {
        proof {
            assert(x@.skip(i as int).drop_first() =~= x@.skip(i + 1));
            assert(y@.skip(i as int).drop_first() =~= y@.skip(i + 1));
        }
        i = i + 1;
    }
    if i >= y.len() {
        false
    } else if i >= x.len() {
        true
    } else {
        x[i] < y[i]
    }
}

/// A signed integer written in decimal, with a minus sign where it is
/// negative.
pub open spec fn signed_decimal_text(n: int) -> Seq<char> {
    if n < 0 {
        seq!['-'] + decimal_text((-n) as nat)
    } else {
        decimal_text(n as nat)
    }
}

/// Writes a signed integer in decimal.
pub fn i32_to_string(n: i32) -> (s: String)
    ensures
        s@ == signed_decimal_text(n as int),
{
    if n < 0 {
        let magnitude: usize = (-(n as i64)) as usize;
        let mut s = String::new();
        push_char(&mut s, '-');
        let digits = usize_to_string(magnitude);
        s.append(digits.as_str());
        proof {
            assert(s@ =~= seq!['-'] + decimal_text((-n) as nat));
        }
        s
    } else {
        usize_to_string(n as usize)
    }
}

} // verus!
