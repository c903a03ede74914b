//! text in and out, names as files store them and numbers as C writes them.

use vstd::prelude::*;

verus! {

/// std's String::push, which puts one character at the end.
pub assume_specification[ String::push ](string: &mut String, c: char)
    ensures
        final(string)@ == old(string)@.push(c),
;

/// std's char::from_u32, which gives the character a number stands for,
/// unless it is a surrogate or past the last one.
pub assume_specification[ char::from_u32 ](value: u32) -> (c: Option<char>)
    ensures
        c is Some <==> (value < 0xD800 || (0xE000 <= value && value < 0x11_0000)),
        c matches Some(found) ==> found == value as char,
;

/// what std's String::from_utf8_lossy makes of bytes.
pub uninterp spec fn utf8_lossy(bytes: Seq<u8>) -> Seq<char>;

/// std's String::from_utf8_lossy, which reads UTF-8 and puts a replacement
/// character for what is not. which characters that gives is only stated of
/// bytes that are UTF-8.
#[verifier::external_body]
fn from_utf8_lossy(bytes: &[u8]) -> (text: String)
    ensures
        text@ == utf8_lossy(bytes@),
        vstd::utf8::valid_utf8(bytes@) ==> text@ == vstd::utf8::decode_utf8(bytes@),
{
    String::from_utf8_lossy(bytes).into_owned()
}

/// the bytes before the first zero.
pub open spec fn until_zero(bytes: Seq<u8>) -> Seq<u8>
    decreases bytes.len(),
{
    if bytes.len() == 0 || bytes[0] == 0 {
        Seq::empty()
    } else {
        seq![bytes[0]] + until_zero(bytes.skip(1))
    }
}

/// until_zero ends at the first zero or where the bytes end.
pub proof fn law_until_zero(bytes: Seq<u8>)
    ensures
        until_zero(bytes).len() <= bytes.len(),
        until_zero(bytes) == bytes.take(until_zero(bytes).len() as int),
        forall|i: int| 0 <= i < until_zero(bytes).len() ==> bytes[i] != 0,
        until_zero(bytes).len() < bytes.len() ==> bytes[until_zero(bytes).len() as int] == 0,
    decreases bytes.len(),
{
    if bytes.len() > 0 && bytes[0] != 0 {
        law_until_zero(bytes.skip(1));
        let rest = until_zero(bytes.skip(1));
        assert(until_zero(bytes) =~= bytes.take(until_zero(bytes).len() as int));
        assert forall|i: int| 0 <= i < until_zero(bytes).len() implies bytes[i] != 0 by {
            if i > 0 {
                assert(bytes.skip(1)[i - 1] != 0);
            }
        }
    }
    assert(until_zero(bytes) =~= bytes.take(until_zero(bytes).len() as int));
}

/// the text that ends at the first zero, or where bytes end.
pub open spec fn zero_ended(bytes: Seq<u8>) -> Seq<char> {
    utf8_lossy(until_zero(bytes))
}

/// the text that ends at the first zero, or where bytes end.
pub fn ascii(bytes: &[u8]) -> (text: String)
    ensures
        text@ == zero_ended(bytes@),
        vstd::utf8::valid_utf8(until_zero(bytes@)) ==> text@ == vstd::utf8::decode_utf8(
            until_zero(bytes@),
        ),
{
    let mut end: usize = 0;
    while end < bytes.len() && bytes[end] != 0
        invariant
            end <= bytes@.len(),
            forall|i: int| 0 <= i < end ==> bytes@[i] != 0,
        decreases bytes@.len() - end,
    {
        end += 1;
    }
    proof {
        law_until_zero(bytes@);
    }
    from_utf8_lossy(vstd::slice::slice_subrange(bytes, 0, end))
}

/// the character a lone code point stands for, which may be a surrogate.
pub open spec fn character(value: u32) -> char {
    if value < 0xD800 || (0xE000 <= value < 0x11_0000) {
        value as char
    } else {
        '\u{FFFD}'
    }
}

/// units as text, with a replacement character for a surrogate without its
/// other half.
pub open spec fn utf16_text(units: Seq<u16>) -> Seq<char>
    decreases units.len(),
{
    if units.len() == 0 {
        Seq::empty()
    } else if 0xD800 <= units[0] < 0xDC00 && units.len() > 1 && 0xDC00 <= units[1] < 0xE000 {
        seq![
            character(
                (0x1_0000 + (units[0] - 0xD800) * 0x400 + (units[1] - 0xDC00)) as u32,
            ),
        ] + utf16_text(units.skip(2))
    } else {
        seq![character(units[0] as u32)] + utf16_text(units.skip(1))
    }
}

/// the 16 bit numbers in bytes, a byte left over not counting.
pub open spec fn units_of(bytes: Seq<u8>) -> Seq<u16> {
    Seq::new(bytes.len() / 2, |i: int| crate::bytes::le16(bytes, 2 * i))
}

fn character_of(value: u32) -> (c: char)
    ensures
        c == character(value),
{
    match char::from_u32(value) {
        Some(c) => c,
        None => '\u{FFFD}',
    }
}

/// UTF-16 as text, with a replacement character for what is not.
pub fn utf16(bytes: &[u8]) -> (text: String)
    ensures
        text@ == utf16_text(units_of(bytes@)),
{
    let count = bytes.len() / 2;
    let mut text = String::new();
    let mut i: usize = 0;
    let ghost units = units_of(bytes@);
    assert(units.skip(0) =~= units);
    assert(text@ + utf16_text(units) =~= utf16_text(units));
    while i < count
        invariant
            i <= count,
            count == bytes@.len() / 2,
            bytes@.len() <= usize::MAX,
            units == units_of(bytes@),
            text@ + utf16_text(units.skip(i as int)) == utf16_text(units),
        decreases count - i,
    {
        let ghost before = text@;
        let ghost left = units.skip(i as int);
        let unit = crate::bytes::u16_at(bytes, 2 * i) as u32;
        assert(left[0] == unit);
        i += 1;
        let mut value = unit;
        if 0xD800 <= unit && unit < 0xDC00 && i < count {
            let second = crate::bytes::u16_at(bytes, 2 * i) as u32;
            assert(left[1] == second);
            if 0xDC00 <= second && second < 0xE000 {
                value = 0x1_0000 + (unit - 0xD800) * 0x400 + (second - 0xDC00);
                i += 1;
            }
        }
        let c = character_of(value);
        text.push(c);
        proof {
            assert(units.skip(i as int) =~= left.skip(1) || units.skip(i as int) =~= left.skip(2));
            assert(utf16_text(left) == seq![c] + utf16_text(units.skip(i as int)));
            assert(before + (seq![c] + utf16_text(units.skip(i as int))) =~= text@ + utf16_text(
                units.skip(i as int),
            ));
        }
    }
    assert(units.skip(count as int) =~= Seq::empty());
    assert(text@ + utf16_text(units.skip(i as int)) =~= text@);
    text
}

/// the characters of text.
pub fn characters(text: &str) -> (list: Vec<char>)
    ensures
        list@ == text@,
{
    let mut list: Vec<char> = Vec::new();
    let iter = text.chars();
    for c in walk: iter
        invariant
            walk.seq() == text@,
            list@ =~= text@.take(walk.index()),
    {
        list.push(c);
    }
    assert(list@ =~= text@);
    list
}

/// c as its lower case letter, if it is an ASCII one.
pub open spec fn lower(c: char) -> char {
    if 'A' <= c && c <= 'Z' {
        ((c as u8 + 32) as u8) as char
    } else {
        c
    }
}

/// text with the case of its ASCII letters dropped.
pub open spec fn lowered(text: Seq<char>) -> Seq<char> {
    text.map_values(|c: char| lower(c))
}

pub fn to_lower(c: char) -> (l: char)
    ensures
        l == lower(c),
{
    if 'A' <= c && c <= 'Z' {
        (c as u8 + 32) as char
    } else {
        c
    }
}

/// whether two texts are the same but for the case of ASCII letters.
pub fn same_text(a: &[char], b: &[char]) -> (same: bool)
    ensures
        same == (lowered(a@) == lowered(b@)),
{
    if a.len() != b.len() {
        assert(lowered(a@).len() != lowered(b@).len());
        return false;
    }
    for i in 0..a.len()
        invariant
            a@.len() == b@.len(),
            forall|j: int| 0 <= j < i ==> lower(a@[j]) == lower(b@[j]),
    {
        if to_lower(a[i]) != to_lower(b[i]) {
            assert(lowered(a@)[i as int] != lowered(b@)[i as int]);
            return false;
        }
    }
    assert(lowered(a@) =~= lowered(b@));
    true
}

/// the parts of path between slashes, the empty ones left out, with current
/// in front of the first.
pub open spec fn parts_after(current: Seq<char>, path: Seq<char>) -> Seq<Seq<char>>
    decreases path.len(),
{
    let done = if current.len() == 0 {
        Seq::empty()
    } else {
        seq![current]
    };
    if path.len() == 0 {
        done
    } else if path[0] == '/' {
        done + parts_after(Seq::empty(), path.skip(1))
    } else {
        parts_after(current.push(path[0]), path.skip(1))
    }
}

/// the parts of path between slashes, the empty ones left out.
pub open spec fn parts_of(path: Seq<char>) -> Seq<Seq<char>> {
    parts_after(Seq::empty(), path)
}

pub open spec fn views(list: Seq<Vec<char>>) -> Seq<Seq<char>> {
    list.map_values(|part: Vec<char>| part@)
}

/// the parts of path between slashes, the empty ones left out.
pub fn split_path(path: &str) -> (parts: Vec<Vec<char>>)
    ensures
        views(parts@) == parts_of(path@),
{
    let letters = characters(path);
    let mut parts: Vec<Vec<char>> = Vec::new();
    let mut current: Vec<char> = Vec::new();
    let mut i: usize = 0;
    assert(path@.skip(0) =~= path@);
    assert(views(parts@) + parts_after(Seq::empty(), path@) =~= parts_of(path@));
    while i < letters.len()
        invariant
            i <= letters@.len(),
            letters@ == path@,
            views(parts@) + parts_after(current@, path@.skip(i as int)) == parts_of(path@),
        decreases letters@.len() - i,
    {
        let ghost before = views(parts@);
        let ghost left = path@.skip(i as int);
        assert(left.skip(1) =~= path@.skip(i + 1));
        assert(left[0] == letters@[i as int]);
        if letters[i] == '/' {
            let ghost part = current@;
            if current.len() > 0 {
                parts.push(current);
                assert(views(parts@) =~= before.push(part));
            }
            assert(views(parts@) + parts_after(Seq::empty(), left.skip(1)) =~= before
                + parts_after(part, left));
            current = Vec::new();
        } else {
            current.push(letters[i]);
        }
        i += 1;
    }
    let ghost before = views(parts@);
    let ghost part = current@;
    assert(path@.skip(i as int).len() == 0);
    if current.len() > 0 {
        parts.push(current);
        assert(views(parts@) =~= before + seq![part]);
    }
    assert(views(parts@) =~= parts_of(path@));
    parts
}

/// paths that are the same but for the case have parts that are.
pub proof fn lemma_parts_ignore_case(
    current: Seq<char>,
    other: Seq<char>,
    path: Seq<char>,
    path_other: Seq<char>,
)
    requires
        lowered(current) == lowered(other),
        lowered(path) == lowered(path_other),
    ensures
        parts_after(current, path).len() == parts_after(other, path_other).len(),
        forall|i: int|
            0 <= i < parts_after(current, path).len() ==> lowered(
                #[trigger] parts_after(current, path)[i],
            ) == lowered(parts_after(other, path_other)[i]),
    decreases path.len(),
{
    assert(current.len() == lowered(current).len() && other.len() == lowered(other).len());
    assert(path.len() == lowered(path).len() && path_other.len() == lowered(path_other).len());
    if path.len() > 0 {
        let (c, d) = (path[0], path_other[0]);
        assert(lowered(path)[0] == lower(c) && lowered(path_other)[0] == lower(d));
        let rest = path.skip(1);
        let rest_other = path_other.skip(1);
        assert(lowered(rest) =~= lowered(path).skip(1));
        assert(lowered(rest_other) =~= lowered(path_other).skip(1));
        assert(c == '/' <==> d == '/');
        if c == '/' {
            lemma_parts_ignore_case(Seq::empty(), Seq::empty(), rest, rest_other);
        } else {
            assert(lowered(current.push(c)) =~= lowered(current).push(lower(c)));
            assert(lowered(other.push(d)) =~= lowered(other).push(lower(d)));
            lemma_parts_ignore_case(current.push(c), other.push(d), rest, rest_other);
        }
    }
}

/// the digit for a number below sixteen.
pub open spec fn digit(number: nat) -> char {
    if number < 10 {
        ((48 + number) as u8) as char
    } else {
        ((55 + number) as u8) as char
    }
}

/// number written out, the highest digit first.
pub open spec fn digits(number: nat, radix: nat) -> Seq<char>
    decreases number,
{
    if number < radix || radix < 2 {
        seq![digit(number)]
    } else {
        proof {
            assert(number / radix < number) by (nonlinear_arith)
                requires
                    number >= radix,
                    radix >= 2,
            ;
        }
        digits(number / radix, radix).push(digit(number % radix))
    }
}

/// what a digit stands for.
pub open spec fn worth(c: char) -> int {
    if '0' <= c <= '9' {
        c as int - '0' as int
    } else {
        c as int - 'A' as int + 10
    }
}

/// what digits stand for, the last of them counting once.
pub open spec fn number_of(digits: Seq<char>, radix: int) -> int
    decreases digits.len(),
{
    if digits.len() == 0 {
        0
    } else {
        number_of(digits.drop_last(), radix) * radix + worth(digits.last())
    }
}

/// every place holds one of the digits of radix.
pub open spec fn all_digits(digits: Seq<char>, radix: int) -> bool {
    forall|i: int|
        0 <= i < digits.len() ==> {
            let c = #[trigger] digits[i];
            ('0' <= c <= '9' || 'A' <= c <= 'F') && 0 <= worth(c) < radix
        }
}

/// a number reads back from what was written of it, in decimal or hexadecimal,
/// with or without zeros in front. only zero starts with a zero of its own.
pub proof fn law_numbers_read_back(number: nat, radix: nat, width: nat)
    requires
        radix == 10 || radix == 16,
    ensures
        number_of(digits(number, radix), radix as int) == number,
        number_of(padded(digits(number, radix), width), radix as int) == number,
        all_digits(padded(digits(number, radix), width), radix as int),
        digits(number, radix).len() > 0,
        number > 0 ==> digits(number, radix)[0] != '0',
        padded(digits(number, radix), width).len() == if digits(number, radix).len() < width {
            width
        } else {
            digits(number, radix).len()
        },
{
    lemma_digits_read_back(number, radix);
    let all = digits(number, radix);
    let zeros = if all.len() < width {
        (width - all.len()) as nat
    } else {
        0
    };
    lemma_zeros_read_back(zeros, all, radix as int);
}

proof fn lemma_digits_read_back(number: nat, radix: nat)
    requires
        radix == 10 || radix == 16,
    ensures
        number_of(digits(number, radix), radix as int) == number,
        all_digits(digits(number, radix), radix as int),
        digits(number, radix).len() > 0,
        number > 0 ==> digits(number, radix)[0] != '0',
    decreases number,
{
    let all = digits(number, radix);
    reveal_with_fuel(number_of, 2);
    if number < radix {
        assert(all =~= seq![digit(number)]);
        assert(all.drop_last() =~= Seq::empty());
    } else {
        lemma_digits_read_back(number / radix, radix);
        assert(all.drop_last() =~= digits(number / radix, radix));
        assert(number / radix * radix + number % radix == number);
    }
}

proof fn lemma_zeros_read_back(zeros: nat, all: Seq<char>, radix: int)
    requires
        all.len() > 0,
        radix == 10 || radix == 16,
        all_digits(all, radix),
    ensures
        number_of(Seq::new(zeros, |i: int| '0') + all, radix) == number_of(all, radix),
        all_digits(Seq::new(zeros, |i: int| '0') + all, radix),
    decreases all.len(),
{
    let front = Seq::new(zeros, |i: int| '0');
    reveal_with_fuel(number_of, 2);
    assert((front + all).drop_last() =~= front + all.drop_last());
    assert((front + all).last() == all.last());
    if all.len() > 1 {
        lemma_zeros_read_back(zeros, all.drop_last(), radix);
    } else {
        assert(front + all.drop_last() =~= front);
        lemma_zeros(zeros, radix);
    }
}

proof fn lemma_zeros(zeros: nat, radix: int)
    ensures
        number_of(Seq::new(zeros, |i: int| '0'), radix) == 0,
    decreases zeros,
{
    let front = Seq::new(zeros, |i: int| '0');
    reveal_with_fuel(number_of, 2);
    if zeros > 0 {
        lemma_zeros((zeros - 1) as nat, radix);
        assert(front.drop_last() =~= Seq::new((zeros - 1) as nat, |i: int| '0'));
    }
}

/// zeros in front of digits up to width.
pub open spec fn padded(digits: Seq<char>, width: nat) -> Seq<char> {
    Seq::new(
        if digits.len() < width {
            (width - digits.len()) as nat
        } else {
            0
        },
        |i: int| '0',
    ) + digits
}

/// number in decimal.
pub open spec fn dec(number: nat) -> Seq<char> {
    digits(number, 10)
}

/// number in hexadecimal.
pub open spec fn hex(number: nat) -> Seq<char> {
    digits(number, 16)
}

/// number in hexadecimal with at least width digits.
pub open spec fn hex_wide(number: nat, width: nat) -> Seq<char> {
    padded(hex(number), width)
}

fn push_digits(out: &mut String, number: u64, radix: u64)
    requires
        2 <= radix <= 16,
    ensures
        final(out)@ == old(out)@ + digits(number as nat, radix as nat),
    decreases number,
{
    if number >= radix {
        assert(number / radix < number) by (nonlinear_arith)
            requires
                number >= radix,
                radix >= 2,
        ;
        push_digits(out, number / radix, radix);
    }
    assert(number % radix < radix) by (nonlinear_arith)
        requires
            radix >= 2,
    ;
    let last = (number % radix) as u8;
    let c = if last < 10 {
        (48 + last) as char
    } else {
        (55 + last) as char
    };
    out.push(c);
    assert(c == digit((number % radix) as nat));
    assert(number < radix ==> number % radix == number) by (nonlinear_arith);
    assert(out@ =~= old(out)@ + digits(number as nat, radix as nat));
}

/// number written out with at least width digits.
pub fn number_text(number: u64, radix: u64, width: usize) -> (text: String)
    requires
        2 <= radix <= 16,
    ensures
        text@ == padded(digits(number as nat, radix as nat), width as nat),
{
    let mut body = String::new();
    push_digits(&mut body, number, radix);
    assert(body@ =~= digits(number as nat, radix as nat));
    let count = characters(body.as_str()).len();
    let mut text = String::new();
    let mut at = count;
    while at < width
        invariant
            count <= at,
            count < width ==> at <= width,
            count >= width ==> at == count,
            text@ =~= Seq::new((at - count) as nat, |i: int| '0'),
        decreases width - at,
    {
        text.push('0');
        at += 1;
    }
    text.append(body.as_str());
    assert(text@ =~= padded(digits(number as nat, radix as nat), width as nat));
    text
}

/// number in decimal.
pub fn decimal(number: u32) -> (text: String)
    ensures
        text@ == dec(number as nat),
{
    let text = number_text(number as u64, 10, 0);
    assert(text@ =~= dec(number as nat));
    text
}

/// number in decimal.
pub fn decimal64(number: u64) -> (text: String)
    ensures
        text@ == dec(number as nat),
{
    let text = number_text(number, 10, 0);
    assert(text@ =~= dec(number as nat));
    text
}

/// number in hexadecimal.
pub fn hexadecimal(number: u32) -> (text: String)
    ensures
        text@ == hex(number as nat),
{
    let text = number_text(number as u64, 16, 0);
    assert(text@ =~= hex(number as nat));
    text
}

/// number in hexadecimal with eight digits.
pub fn word(number: u32) -> (text: String)
    ensures
        text@ == hex_wide(number as nat, 8),
{
    number_text(number as u64, 16, 8)
}

/// template with each {} in it replaced by the next of args.
#[verifier::opaque]
pub open spec fn fill(template: Seq<char>, args: Seq<Seq<char>>) -> Seq<char>
    decreases template.len(),
{
    if template.len() == 0 {
        Seq::empty()
    } else if template.len() >= 2 && template[0] == '{' && template[1] == '}' && args.len() > 0 {
        args[0] + fill(template.skip(2), args.skip(1))
    } else {
        seq![template[0]] + fill(template.skip(1), args)
    }
}

/// out with a line from template and args at the end.
pub open spec fn emitted(out: Seq<char>, template: Seq<char>, args: Seq<Seq<char>>) -> Seq<char> {
    (out + fill(template, args)).push('\n')
}

pub open spec fn texts(args: Seq<&str>) -> Seq<Seq<char>> {
    args.map_values(|arg: &str| arg@)
}

/// adds template to out with each {} in it replaced by the next of args.
fn fill_into(out: &mut String, template: &str, args: &[&str])
    ensures
        final(out)@ == old(out)@ + fill(template@, texts(args@)),
{
    reveal(fill);
    let letters = characters(template);
    let ghost list = texts(args@);
    let mut i: usize = 0;
    let mut used: usize = 0;
    assert(template@.skip(0) =~= template@);
    assert(list.skip(0) =~= list);
    while i < letters.len()
        invariant
            i <= letters@.len(),
            used <= args@.len(),
            letters@ == template@,
            list == texts(args@),
            out@ + fill(template@.skip(i as int), list.skip(used as int)) == old(out)@ + fill(
                template@,
                list,
            ),
        decreases letters@.len() - i,
    {
        reveal(fill);
        let ghost before = out@;
        let ghost left = template@.skip(i as int);
        let ghost rest = list.skip(used as int);
        assert(left[0] == letters@[i as int]);
        if letters[i] == '{' && i + 1 < letters.len() && letters[i + 1] == '}' && used < args.len() {
            assert(left[1] == letters@[i + 1]);
            assert(rest[0] == args@[used as int]@);
            out.append(args[used]);
            used += 1;
            i += 2;
            assert(template@.skip(i as int) =~= left.skip(2));
            assert(list.skip(used as int) =~= rest.skip(1));
            assert(out@ + fill(left.skip(2), rest.skip(1)) =~= before + fill(left, rest));
        } else {
            out.push(letters[i]);
            i += 1;
            assert(template@.skip(i as int) =~= left.skip(1));
            assert(i < letters@.len() ==> left[1] == letters@[i as int]);
            assert(fill(left, rest) == seq![left[0]] + fill(left.skip(1), rest));
            assert(out@ + fill(left.skip(1), rest) =~= before + fill(left, rest));
        }
    }
    assert(template@.skip(i as int).len() == 0);
    assert(out@ =~= out@ + fill(template@.skip(i as int), list.skip(used as int)));
}

/// template with its holes filled in.
pub fn form1(template: &str, a: &str) -> (text: String)
    ensures
        text@ == fill(template@, seq![a@]),
{
    let args: [&str; 1] = [a];
    let mut text = String::new();
    fill_into(&mut text, template, &args);
    assert(texts(args@) =~= seq![a@]);
    assert(text@ =~= fill(template@, seq![a@]));
    text
}

/// template with its holes filled in.
pub fn form2(template: &str, a: &str, b: &str) -> (text: String)
    ensures
        text@ == fill(template@, seq![a@, b@]),
{
    let args: [&str; 2] = [a, b];
    let mut text = String::new();
    fill_into(&mut text, template, &args);
    assert(texts(args@) =~= seq![a@, b@]);
    assert(text@ =~= fill(template@, seq![a@, b@]));
    text
}

/// template with its holes filled in.
pub fn form3(template: &str, a: &str, b: &str, c: &str) -> (text: String)
    ensures
        text@ == fill(template@, seq![a@, b@, c@]),
{
    let args: [&str; 3] = [a, b, c];
    let mut text = String::new();
    fill_into(&mut text, template, &args);
    assert(texts(args@) =~= seq![a@, b@, c@]);
    assert(text@ =~= fill(template@, seq![a@, b@, c@]));
    text
}

/// template with its holes filled in.
pub fn form4(template: &str, a: &str, b: &str, c: &str, d: &str) -> (text: String)
    ensures
        text@ == fill(template@, seq![a@, b@, c@, d@]),
{
    let args: [&str; 4] = [a, b, c, d];
    let mut text = String::new();
    fill_into(&mut text, template, &args);
    assert(texts(args@) =~= seq![a@, b@, c@, d@]);
    assert(text@ =~= fill(template@, seq![a@, b@, c@, d@]));
    text
}

/// template with its holes filled in.
pub fn form5(template: &str, a: &str, b: &str, c: &str, d: &str, e: &str) -> (text: String)
    ensures
        text@ == fill(template@, seq![a@, b@, c@, d@, e@]),
{
    let args: [&str; 5] = [a, b, c, d, e];
    let mut text = String::new();
    fill_into(&mut text, template, &args);
    assert(texts(args@) =~= seq![a@, b@, c@, d@, e@]);
    assert(text@ =~= fill(template@, seq![a@, b@, c@, d@, e@]));
    text
}

/// a line from template with its holes filled in.
pub fn emit0(out: &mut String, template: &str)
    ensures
        final(out)@ == emitted(old(out)@, template@, Seq::empty()),
{
    let args: [&str; 0] = [];
    fill_into(out, template, &args);
    assert(texts(args@) =~= Seq::empty());
    out.push('\n');
}

/// a line from template with its holes filled in.
pub fn emit1(out: &mut String, template: &str, a: &str)
    ensures
        final(out)@ == emitted(old(out)@, template@, seq![a@]),
{
    let args: [&str; 1] = [a];
    fill_into(out, template, &args);
    assert(texts(args@) =~= seq![a@]);
    out.push('\n');
}

/// a line from template with its holes filled in.
pub fn emit2(out: &mut String, template: &str, a: &str, b: &str)
    ensures
        final(out)@ == emitted(old(out)@, template@, seq![a@, b@]),
{
    let args: [&str; 2] = [a, b];
    fill_into(out, template, &args);
    assert(texts(args@) =~= seq![a@, b@]);
    out.push('\n');
}

/// a line from template with its holes filled in.
pub fn emit3(out: &mut String, template: &str, a: &str, b: &str, c: &str)
    ensures
        final(out)@ == emitted(old(out)@, template@, seq![a@, b@, c@]),
{
    let args: [&str; 3] = [a, b, c];
    fill_into(out, template, &args);
    assert(texts(args@) =~= seq![a@, b@, c@]);
    out.push('\n');
}

/// a line from template with its holes filled in.
pub fn emit4(out: &mut String, template: &str, a: &str, b: &str, c: &str, d: &str)
    ensures
        final(out)@ == emitted(old(out)@, template@, seq![a@, b@, c@, d@]),
{
    let args: [&str; 4] = [a, b, c, d];
    fill_into(out, template, &args);
    assert(texts(args@) =~= seq![a@, b@, c@, d@]);
    out.push('\n');
}

/// a line from template with its holes filled in.
pub fn emit5(out: &mut String, template: &str, a: &str, b: &str, c: &str, d: &str, e: &str)
    ensures
        final(out)@ == emitted(old(out)@, template@, seq![a@, b@, c@, d@, e@]),
{
    let args: [&str; 5] = [a, b, c, d, e];
    fill_into(out, template, &args);
    assert(texts(args@) =~= seq![a@, b@, c@, d@, e@]);
    out.push('\n');
}

/// a line from template with its holes filled in.
pub fn emit6(out: &mut String, template: &str, a: &str, b: &str, c: &str, d: &str, e: &str, f: &str)
    ensures
        final(out)@ == emitted(old(out)@, template@, seq![a@, b@, c@, d@, e@, f@]),
{
    let args: [&str; 6] = [a, b, c, d, e, f];
    fill_into(out, template, &args);
    assert(texts(args@) =~= seq![a@, b@, c@, d@, e@, f@]);
    out.push('\n');
}

/// a line from template with its holes filled in.
pub fn emit8(out: &mut String, template: &str, a: &str, b: &str, c: &str, d: &str, e: &str, f: &str, g: &str, h: &str)
    ensures
        final(out)@ == emitted(old(out)@, template@, seq![a@, b@, c@, d@, e@, f@, g@, h@]),
{
    let args: [&str; 8] = [a, b, c, d, e, f, g, h];
    fill_into(out, template, &args);
    assert(texts(args@) =~= seq![a@, b@, c@, d@, e@, f@, g@, h@]);
    out.push('\n');
}

} // verus!
