//! Text as sequences of characters: comparing, splitting, trimming and numbers.

use vstd::prelude::*;

verus! {

/// `String::push` appends one character and keeps what was there.
pub assume_specification[ std::string::String::push ](target: &mut std::string::String, c: char)
    ensures
        final(target)@ == old(target)@.push(c),
;

/// Whether `c` has the Unicode `White_Space` property.
pub open spec fn white(c: char) -> bool {
    ||| '\u{9}' <= c <= '\u{d}'
    ||| c == ' '
    ||| c == '\u{85}'
    ||| c == '\u{a0}'
    ||| c == '\u{1680}'
    ||| '\u{2000}' <= c <= '\u{200a}'
    ||| c == '\u{2028}'
    ||| c == '\u{2029}'
    ||| c == '\u{202f}'
    ||| c == '\u{205f}'
    ||| c == '\u{3000}'
}

/// Whether `c` is white space.
pub fn is_whitespace(c: char) -> (r: bool)
    ensures
        r == white(c),
{
    ('\u{9}' <= c && c <= '\u{d}') || c == ' ' || c == '\u{85}' || c == '\u{a0}' || c == '\u{1680}'
        || ('\u{2000}' <= c && c <= '\u{200a}') || c == '\u{2028}' || c == '\u{2029}' || c
        == '\u{202f}' || c == '\u{205f}' || c == '\u{3000}'
}

/// The ASCII lower-case form of `c`; any other character stands for itself.
pub open spec fn lower(c: char) -> char {
    if 'A' <= c <= 'Z' {
        ((c as u32) + 32) as char
    } else {
        c
    }
}

/// Lower-cases an ASCII letter.
pub fn ascii_lower(c: char) -> (r: char)
    ensures
        r == lower(c),
{
    if 'A' <= c && c <= 'Z' {
        let byte: u8 = c as u8;
        (byte + 32) as char
    } else {
        c
    }
}

/// Two texts hold the same characters.
pub fn text_eq(a: &str, b: &str) -> (r: bool)
    ensures
        r == (a@ == b@),
{
    a.to_owned() == b.to_owned()
}

pub fn chars_of(text: &str) -> (chars: Vec<char>)
    ensures
        chars@ == text@,
{
    let mut chars: Vec<char> = Vec::new();
    for c in iter: text.chars()
        invariant
            chars@ == text@.take(iter.index() as int),
            iter.seq() == text@,
    {
        chars.push(c);
    }
    assert(text@.take(text@.len() as int) =~= text@);
    chars
}

pub fn string_of(chars: &[char]) -> (text: String)
    ensures
        text@ == chars@,
{
    let mut text = String::new();
    for i in 0..chars.len()
        invariant
            text@ == chars@.take(i as int),
    {
        text.push(chars[i]);
        assert(chars@.take(i as int).push(chars@[i as int]) =~= chars@.take(i + 1));
    }
    assert(chars@.take(chars@.len() as int) =~= chars@);
    text
}


/// A text with nothing but white space in it.
pub open spec fn blank(text: Seq<char>) -> bool {
    forall|i: int| 0 <= i < text.len() ==> white(#[trigger] text[i])
}

/// Whether `text` holds nothing but white space.
pub fn is_blank(text: &str) -> (r: bool)
    ensures
        r == blank(text@),
{
    let chars = chars_of(text);
    for i in 0..chars.len()
        invariant
            chars@ == text@,
            forall|j: int| 0 <= j < i ==> white(#[trigger] text@[j]),
    {
        if !is_whitespace(chars[i]) {
            assert(!white(text@[i as int]));
            return false;
        }
    }
    true
}

/// `text` without its leading white space.
pub open spec fn trim_start(text: Seq<char>) -> Seq<char>
    decreases text.len(),
{
    if text.len() > 0 && white(text[0]) {
        trim_start(text.drop_first())
    } else {
        text
    }
}

/// `text` without its trailing white space.
pub open spec fn trim_end(text: Seq<char>) -> Seq<char>
    decreases text.len(),
{
    if text.len() > 0 && white(text.last()) {
        trim_end(text.drop_last())
    } else {
        text
    }
}

/// `text` without the white space at either end.
pub open spec fn trimmed(text: Seq<char>) -> Seq<char> {
    trim_end(trim_start(text))
}

/// The part of `chars` between `from` and `to`.
pub fn slice_of(chars: &[char], from: usize, to: usize) -> (part: Vec<char>)
    requires
        from <= to <= chars@.len(),
    ensures
        part@ == chars@.subrange(from as int, to as int),
{
    let mut part: Vec<char> = Vec::new();
    for i in from..to
        invariant
            from <= to <= chars@.len(),
            part@ == chars@.subrange(from as int, i as int),
    {
        part.push(chars[i]);
        assert(chars@.subrange(from as int, i as int).push(chars@[i as int]) =~= chars@.subrange(
            from as int,
            i + 1,
        ));
    }
    part
}

/// Cuts the white space off both ends.
pub fn trim(chars: &[char]) -> (part: Vec<char>)
    ensures
        part@ == trimmed(chars@),
{
    let mut from: usize = 0;
    let len: usize = chars.len();
    assert(chars@.subrange(0, len as int) =~= chars@);
    while from < len && is_whitespace(chars[from])
        invariant
            from <= len,
            len == chars@.len(),
            trim_start(chars@) == trim_start(chars@.subrange(from as int, len as int)),
        decreases len - from,
    {
        assert(chars@.subrange(from as int, len as int).drop_first() =~= chars@.subrange(
            from + 1,
            len as int,
        ));
        from = from + 1;
    }
    let mut to: usize = len;
    while from < to && is_whitespace(chars[to - 1])
        invariant
            from <= to <= len,
            len == chars@.len(),
            trim_end(chars@.subrange(from as int, len as int)) == trim_end(
                chars@.subrange(from as int, to as int),
            ),
        decreases to,
    {
        assert(chars@.subrange(from as int, to as int).drop_last() =~= chars@.subrange(
            from as int,
            to - 1,
        ));
        to = to - 1;
    }
    slice_of(chars, from, to)
}

pub proof fn lemma_trim_start_blank(text: Seq<char>)
    ensures
        blank(text) <==> trim_start(text).len() == 0,
    decreases text.len(),
{
    if text.len() > 0 && white(text[0]) {
        lemma_trim_start_blank(text.drop_first());
        assert forall|i: int| blank(text.drop_first()) && 0 <= i < text.len() implies white(
            #[trigger] text[i],
        ) by {
            if i > 0 {
                assert(text.drop_first()[i - 1] == text[i]);
            }
        }
        if blank(text) {
            assert forall|i: int| 0 <= i < text.drop_first().len() implies white(
                #[trigger] text.drop_first()[i],
            ) by {
                assert(text.drop_first()[i] == text[i + 1]);
            }
        }
    }
}

/// `text` in ASCII lower case.
pub open spec fn lowercased(text: Seq<char>) -> Seq<char> {
    text.map_values(|c: char| lower(c))
}

/// Lower-cases every ASCII letter.
pub fn lowercase(chars: &[char]) -> (r: Vec<char>)
    ensures
        r@ == lowercased(chars@),
{
    let mut r: Vec<char> = Vec::new();
    for i in 0..chars.len()
        invariant
            r@ == lowercased(chars@).take(i as int),
    {
        r.push(ascii_lower(chars[i]));
        assert(lowercased(chars@).take(i as int).push(lower(chars@[i as int])) =~= lowercased(
            chars@,
        ).take(i + 1));
    }
    assert(lowercased(chars@).take(chars@.len() as int) =~= lowercased(chars@));
    r
}

/// Two character sequences are the same.
pub fn chars_eq(a: &[char], b: &[char]) -> (r: bool)
    ensures
        r == (a@ == b@),
{
    if a.len() != b.len() {
        return false;
    }
    for i in 0..a.len()
        invariant
            a@.len() == b@.len(),
            forall|j: int| 0 <= j < i ==> a@[j] == b@[j],
    {
        if a[i] != b[i] {
            return false;
        }
    }
    assert(a@ =~= b@);
    true
}

/// A character sequence is the given text.
pub fn chars_are(a: &[char], b: &str) -> (r: bool)
    ensures
        r == (a@ == b@),
{
    let b = chars_of(b);
    chars_eq(a, &b)
}

/// The pieces of `text` between the characters for which `sep` holds, in
/// order; there is always one piece more than there are separators.
pub open spec fn split(text: Seq<char>, sep: spec_fn(char) -> bool) -> Seq<Seq<char>>
    decreases text.len(),
{
    if text.len() == 0 {
        seq![Seq::<char>::empty()]
    } else {
        let rest = split(text.drop_last(), sep);
        if sep(text.last()) {
            rest.push(Seq::<char>::empty())
        } else {
            rest.update(rest.len() - 1, rest.last().push(text.last()))
        }
    }
}

pub proof fn lemma_split_nonempty(text: Seq<char>, sep: spec_fn(char) -> bool)
    ensures
        split(text, sep).len() > 0,
    decreases text.len(),
{
    if text.len() > 0 {
        lemma_split_nonempty(text.drop_last(), sep);
    }
}

/// The characters of each piece.
pub open spec fn views(pieces: Seq<Vec<char>>) -> Seq<Seq<char>> {
    pieces.map_values(|piece: Vec<char>| piece@)
}

/// Cuts `chars` at every `first` and every `second`.
pub fn split_on(chars: &[char], first: char, second: char) -> (pieces: Vec<Vec<char>>)
    ensures
        views(pieces@) == split(chars@, |c: char| c == first || c == second),
{
    let ghost sep = |c: char| c == first || c == second;
    let mut pieces: Vec<Vec<char>> = Vec::new();
    let mut piece: Vec<char> = Vec::new();
    for i in 0..chars.len()
        invariant
            sep == (|c: char| c == first || c == second),
            views(pieces@).push(piece@) == split(chars@.take(i as int), sep),
    {
        let c = chars[i];
        let ghost before = split(chars@.take(i as int), sep);
        assert(chars@.take(i + 1).drop_last() =~= chars@.take(i as int));
        assert(chars@.take(i + 1).last() == c);
        if c == first || c == second {
            let ghost old_pieces = pieces@;
            let mut next: Vec<char> = Vec::new();
            std::mem::swap(&mut piece, &mut next);
            pieces.push(next);
            assert(views(pieces@) =~= views(old_pieces).push(next@));
            assert(views(pieces@).push(piece@) =~= before.push(Seq::<char>::empty()));
        } else {
            let ghost old_piece = piece@;
            piece.push(c);
            assert(views(pieces@).push(piece@) =~= before.update(
                before.len() - 1,
                before.last().push(c),
            ));
        }
    }
    let ghost old_pieces = pieces@;
    let ghost last = piece@;
    pieces.push(piece);
    assert(views(pieces@) =~= views(old_pieces).push(last));
    assert(chars@.take(chars@.len() as int) =~= chars@);
    pieces
}


/// A decimal digit.
pub open spec fn digit(c: char) -> bool {
    '0' <= c <= '9'
}

/// Every character is a decimal digit.
pub open spec fn all_digits(text: Seq<char>) -> bool {
    forall|i: int| 0 <= i < text.len() ==> digit(#[trigger] text[i])
}

/// The number that a sequence of digits spells, most significant digit first.
pub open spec fn digits_value(text: Seq<char>) -> nat
    decreases text.len(),
{
    if text.len() == 0 {
        0
    } else {
        digits_value(text.drop_last()) * 10 + (text.last() as nat - '0' as nat) as nat
    }
}

/// The digits of a number, without leading zeros.
pub open spec fn decimal(n: nat) -> Seq<char>
    decreases n,
{
    let digit = ('0' as nat + n % 10) as char;
    if n < 10 {
        seq![digit]
    } else {
        decimal(n / 10).push(digit)
    }
}

/// What an unsigned number text means: an optional plus sign, then at least
/// one digit, and a value of at most `max`.
pub open spec fn unsigned(text: Seq<char>, max: nat) -> Option<nat> {
    let body = if text.len() > 0 && text[0] == '+' {
        text.drop_first()
    } else {
        text
    };
    if body.len() > 0 && all_digits(body) && digits_value(body) <= max {
        Some(digits_value(body))
    } else {
        None
    }
}

/// What a signed number text means: an optional sign, then at least one
/// digit, and a value between `min` and `max`.
pub open spec fn signed(text: Seq<char>, min: int, max: int) -> Option<int> {
    let negative = text.len() > 0 && text[0] == '-';
    let body = if text.len() > 0 && (text[0] == '+' || text[0] == '-') {
        text.drop_first()
    } else {
        text
    };
    let value = if negative {
        -(digits_value(body) as int)
    } else {
        digits_value(body) as int
    };
    if body.len() > 0 && all_digits(body) && min <= value <= max {
        Some(value)
    } else {
        None
    }
}

pub proof fn lemma_digits_value_monotone(text: Seq<char>, n: int)
    requires
        0 <= n <= text.len(),
        all_digits(text),
    ensures
        digits_value(text.take(n)) <= digits_value(text),
    decreases text.len() - n,
{
    if n == text.len() {
        assert(text.take(n) =~= text);
    } else {
        lemma_digits_value_monotone(text, n + 1);
        assert(text.take(n + 1).drop_last() =~= text.take(n));
        assert(digit(text[n]));
    }
}

/// The value of `chars[from..]` when it is a digit text of at most `max`.
fn digits_from(chars: &[char], from: usize, max: u64) -> (value: Option<u64>)
    requires
        from <= chars@.len(),
    ensures
        value == ({
            let body = chars@.subrange(from as int, chars@.len() as int);
            if body.len() > 0 && all_digits(body) && digits_value(body) <= max {
                Some(digits_value(body) as u64)
            } else {
                None
            }
        }),
{
    let ghost body = chars@.subrange(from as int, chars@.len() as int);
    if from == chars.len() {
        return None;
    }
    let mut i: usize = from;
    while i < chars.len()
        invariant
            from <= i <= chars@.len(),
            body == chars@.subrange(from as int, chars@.len() as int),
            forall|j: int| 0 <= j < i - from ==> digit(#[trigger] body[j]),
        decreases chars@.len() - i,
    {
        let c = chars[i];
        assert(body[i - from] == c);
        if !('0' <= c && c <= '9') {
            assert(!digit(body[i - from]));
            return None;
        }
        i = i + 1;
    }
    assert(all_digits(body));
    let mut value: u64 = 0;
    i = from;
    while i < chars.len()
        invariant
            from <= i <= chars@.len(),
            body == chars@.subrange(from as int, chars@.len() as int),
            all_digits(body),
            body.len() > 0,
            value == digits_value(body.take(i - from)),
            value <= max,
        decreases chars@.len() - i,
    {
        let c = chars[i];
        assert(body[i - from] == c);
        assert(digit(body[i - from]));
        let d: u64 = (c as u32 - '0' as u32) as u64;
        proof {
            assert(body.take(i - from + 1).drop_last() =~= body.take(i - from));
            lemma_digits_value_monotone(body, i - from + 1);
        }
        if d > max || value > (max - d) / 10 {
            assert(value * 10 + d > max);
            return None;
        }
        value = value * 10 + d;
        i = i + 1;
    }
    assert(body.take(body.len() as int) =~= body);
    Some(value)
}

/// Reads an unsigned number of at most `max`.
pub fn parse_unsigned(chars: &[char], max: u64) -> (value: Option<u64>)
    ensures
        value is Some == (unsigned(chars@, max as nat) is Some),
        value is Some ==> value->0 == unsigned(chars@, max as nat)->0,
{
    let from: usize = if chars.len() > 0 && chars[0] == '+' { 1 } else { 0 };
    assert(chars@.subrange(0, chars@.len() as int) =~= chars@);
    assert(from == 1 ==> chars@.subrange(1, chars@.len() as int) =~= chars@.drop_first());
    digits_from(chars, from, max)
}

/// Reads an `i32`.
pub fn parse_i32(chars: &[char]) -> (value: Option<i32>)
    ensures
        value is Some == (signed(chars@, i32::MIN as int, i32::MAX as int) is Some),
        value is Some ==> value->0 == signed(chars@, i32::MIN as int, i32::MAX as int)->0,
{
    let negative = chars.len() > 0 && chars[0] == '-';
    let from: usize = if chars.len() > 0 && (chars[0] == '+' || chars[0] == '-') { 1 } else { 0 };
    assert(chars@.subrange(0, chars@.len() as int) =~= chars@);
    assert(from == 1 ==> chars@.subrange(1, chars@.len() as int) =~= chars@.drop_first());
    let max: u64 = if negative { 2147483648 } else { 2147483647 };
    match digits_from(chars, from, max) {
        None => None,
        Some(value) => {
            if negative {
                Some((0 - value as i64) as i32)
            } else {
                Some(value as i32)
            }
        },
    }
}

/// Writes a number in decimal.
pub fn u64_text(n: u64) -> (text: String)
    ensures
        text@ == decimal(n as nat),
    decreases n,
{
    let mut text = if n < 10 { String::new() } else { u64_text(n / 10) };
    let digit: u8 = (n % 10) as u8;
    text.push((48 + digit) as char);
    assert(text@ =~= decimal(n as nat));
    text
}

/// A written number reads back as itself.
pub proof fn decimal_reads_back(n: nat, max: nat)
    requires
        n <= max,
    ensures
        unsigned(decimal(n), max) == Some(n),
{
    lemma_decimal(n);
    assert(decimal(n)[0] != '+') by {
        assert(digit(decimal(n)[0]));
    }
}

pub proof fn lemma_decimal(n: nat)
    ensures
        decimal(n).len() > 0,
        all_digits(decimal(n)),
        digits_value(decimal(n)) == n,
    decreases n,
{
    let d = ('0' as nat + n % 10) as char;
    if n < 10 {
        assert(decimal(n).drop_last() =~= Seq::<char>::empty());
        assert(digits_value(Seq::<char>::empty()) == 0);
    } else {
        lemma_decimal(n / 10);
        assert(decimal(n).drop_last() =~= decimal(n / 10));
        assert forall|i: int| 0 <= i < decimal(n).len() implies digit(#[trigger] decimal(n)[i]) by {
            if i < decimal(n / 10).len() {
                assert(decimal(n)[i] == decimal(n / 10)[i]);
            }
        }
    }
}


/// `a` and `b` in a row.
pub fn join2(a: &str, b: &str) -> (text: String)
    ensures
        text@ == a@ + b@,
{
    a.to_owned().concat(b)
}

/// `a`, `b` and `c` in a row.
pub fn join3(a: &str, b: &str, c: &str) -> (text: String)
    ensures
        text@ == a@ + b@ + c@,
{
    a.to_owned().concat(b).concat(c)
}

/// A text with a number in the middle.
pub open spec fn numbered(before: Seq<char>, n: nat, after: Seq<char>) -> Seq<char> {
    before + decimal(n) + after
}

/// Writes a text with a number in the middle.
pub fn numbered_text(before: &str, n: u64, after: &str) -> (text: String)
    ensures
        text@ == numbered(before@, n as nat, after@),
{
    let number = u64_text(n);
    join3(before, number.as_str(), after)
}

/// The characters of every text.
pub open spec fn strings(values: Seq<String>) -> Seq<Seq<char>> {
    values.map_values(|v: String| v@)
}

/// The pieces in a row with `separator` between them.
pub open spec fn joined(pieces: Seq<Seq<char>>, separator: Seq<char>) -> Seq<char>
    decreases pieces.len(),
{
    if pieces.len() == 0 {
        Seq::empty()
    } else if pieces.len() == 1 {
        pieces[0]
    } else {
        joined(pieces.drop_last(), separator) + separator + pieces.last()
    }
}

/// Writes the pieces in a row with `separator` between them.
pub fn join(pieces: &Vec<String>, separator: &str) -> (text: String)
    ensures
        text@ == joined(strings(pieces@), separator@),
{
    let mut text = String::new();
    for i in 0..pieces.len()
        invariant
            text@ == joined(strings(pieces@).take(i as int), separator@),
    {
        let ghost before = strings(pieces@).take(i as int);
        let ghost after = strings(pieces@).take(i + 1);
        proof {
            assert(after.drop_last() =~= before);
            assert(after.last() == pieces@[i as int]@);
        }
        if i == 0 {
            text = pieces[i].clone();
        } else {
            text = join3(text.as_str(), separator, pieces[i].as_str());
        }
    }
    assert(strings(pieces@).take(pieces@.len() as int) =~= strings(pieces@));
    text
}

/// The value of a hexadecimal digit.
pub open spec fn hex_digit(c: char) -> Option<u8> {
    if '0' <= c <= '9' {
        Some((c as u32 - '0' as u32) as u8)
    } else if 'a' <= c <= 'f' {
        Some((c as u32 - 'a' as u32 + 10) as u8)
    } else if 'A' <= c <= 'F' {
        Some((c as u32 - 'A' as u32 + 10) as u8)
    } else {
        None
    }
}

/// The value of a hexadecimal digit.
pub fn hex_value(c: char) -> (value: Option<u8>)
    ensures
        value == hex_digit(c),
        match value {
            Some(v) => v < 16,
            None => true,
        },
{
    if '0' <= c && c <= '9' {
        Some((c as u8) - 48)
    } else if 'a' <= c && c <= 'f' {
        Some((c as u8) - 87)
    } else if 'A' <= c && c <= 'F' {
        Some((c as u8) - 55)
    } else {
        None
    }
}

/// The first place of a character.
pub open spec fn first_index(text: Seq<char>, c: char, from: int) -> Option<int>
    decreases text.len() - from,
{
    if from < 0 || from >= text.len() {
        None
    } else if text[from] == c {
        Some(from)
    } else {
        first_index(text, c, from + 1)
    }
}

/// Finds the first place of a character.
pub fn find_char(text: &[char], c: char) -> (place: Option<usize>)
    ensures
        match place {
            Some(i) => i < text@.len() && first_index(text@, c, 0) == Some(i as int),
            None => first_index(text@, c, 0) is None,
        },
{
    let mut i: usize = 0;
    while i < text.len()
        invariant
            i <= text@.len(),
            first_index(text@, c, 0) == first_index(text@, c, i as int),
        decreases text@.len() - i,
    {
        if text[i] == c {
            return Some(i);
        }
        i = i + 1;
    }
    None
}

/// A copy of an optional text.
pub fn copy_of(value: &Option<String>) -> (r: Option<String>)
    ensures
        option(r) == option(*value),
{
    match value {
        Some(text) => Some(text.clone()),
        None => None,
    }
}

/// The characters of an optional text.
pub open spec fn option(value: Option<String>) -> Option<Seq<char>> {
    match value {
        Some(text) => Some(text@),
        None => None,
    }
}

/// An optional text that is there but blank.
pub open spec fn present_but_blank(value: Option<String>) -> bool {
    match value {
        Some(text) => blank(text@),
        None => false,
    }
}

/// Whether an optional text is there but blank.
pub fn is_present_but_blank(value: &Option<String>) -> (r: bool)
    ensures
        r == present_but_blank(*value),
{
    match value {
        Some(text) => is_blank(text.as_str()),
        None => false,
    }
}

/// `text` begins with `prefix`.
pub open spec fn begins(text: Seq<char>, prefix: Seq<char>) -> bool {
    prefix.len() <= text.len() && text.subrange(0, prefix.len() as int) == prefix
}

/// `text` ends with `suffix`.
pub open spec fn ends(text: Seq<char>, suffix: Seq<char>) -> bool {
    suffix.len() <= text.len() && text.subrange(text.len() - suffix.len(), text.len() as int)
        == suffix
}

/// Whether the characters begin with `prefix`.
pub fn starts_with(chars: &[char], prefix: &str) -> (r: bool)
    ensures
        r == begins(chars@, prefix@),
{
    let prefix = chars_of(prefix);
    if prefix.len() > chars.len() {
        return false;
    }
    let head = slice_of(chars, 0, prefix.len());
    chars_eq(head.as_slice(), prefix.as_slice())
}

} // verus!
