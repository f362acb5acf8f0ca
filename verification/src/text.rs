//! Text as sequences of characters: the tests that the backend makes on
//! messages, names and configuration strings, and decimal numerals.
use vstd::prelude::*;

verus! {

/// The ASCII lower-case form of a character. Other characters stay as they are.
pub open spec fn ascii_lower_char(c: char) -> char {
    if 'A' <= c && c <= 'Z' {
        ((c as u8 + 32) as u8) as char
    } else {
        c
    }
}

/// `text` with every ASCII capital letter replaced by its small letter.
pub open spec fn ascii_lower(text: Seq<char>) -> Seq<char> {
    text.map_values(|c: char| ascii_lower_char(c))
}

/// Whether `part` stands in `text` at position `at`.
pub open spec fn occurs_at(text: Seq<char>, part: Seq<char>, at: int) -> bool {
    0 <= at && at + part.len() <= text.len() && text.subrange(at, at + part.len()) == part
}

/// Whether `part` stands somewhere in `text`.
pub open spec fn contains_text(text: Seq<char>, part: Seq<char>) -> bool {
    exists|at: int| occurs_at(text, part, at)
}

/// Whether `text` begins with `prefix`.
pub open spec fn has_prefix(text: Seq<char>, prefix: Seq<char>) -> bool {
    occurs_at(text, prefix, 0)
}

/// The apostrophe and the quotation mark.
pub open spec fn is_quote(c: char) -> bool {
    c == '\'' || c == '"'
}

/// How many characters stand before the first quote: all, where there is none.
pub open spec fn unquoted_len(text: Seq<char>) -> nat
    decreases text.len(),
{
    if text.len() == 0 || is_quote(text[0]) {
        0
    } else {
        1 + unquoted_len(text.drop_first())
    }
}

/// What stands in `text` before anything is quoted.
pub open spec fn before_quote(text: Seq<char>) -> Seq<char> {
    text.take(unquoted_len(text) as int)
}

/// The characters with the Unicode property White_Space.
pub open spec fn white_space(c: char) -> bool {
    let code = c as u32;
    ||| 0x9 <= code <= 0xd
    ||| code == 0x20
    ||| code == 0x85
    ||| code == 0xa0
    ||| code == 0x1680
    ||| 0x2000 <= code <= 0x200a
    ||| code == 0x2028
    ||| code == 0x2029
    ||| code == 0x202f
    ||| code == 0x205f
    ||| code == 0x3000
}

/// Whether nothing but white space stands in `text`.
pub open spec fn blank(text: Seq<char>) -> bool {
    forall|i: int| 0 <= i < text.len() ==> white_space(#[trigger] text[i])
}

/// The decimal digit `d`, for `d` below ten.
pub open spec fn digit_char(d: nat) -> char {
    ((48 + d) as u8) as char
}

/// The decimal numeral of `n`, without leading zeros.
pub open spec fn decimal(n: nat) -> Seq<char>
    decreases n,
{
    if n < 10 {
        seq![digit_char(n)]
    } else {
        decimal(n / 10).push(digit_char(n % 10))
    }
}

/// The decimal numeral of an integer, with `-` before a negative one.
pub open spec fn signed_decimal(n: int) -> Seq<char> {
    if n < 0 {
        seq!['-'] + decimal((-n) as nat)
    } else {
        decimal(n as nat)
    }
}

/// The characters of `text`.
pub fn chars_of(text: &str) -> (chars: Vec<char>)
    ensures
        chars@ == text@,
{
    let mut chars: Vec<char> = Vec::new();
    for c in it: text.chars()
        invariant
            it.seq() == text@,
            chars@ == text@.take(it.index()),
    {
        proof {
            assert(text@.take(it.index() + 1) =~= text@.take(it.index()).push(c));
        }
        chars.push(c);
    }
    proof {
        assert(text@.take(text@.len() as int) =~= text@);
    }
    chars
}

/// Whether two texts are the same.
pub fn same_text(a: &str, b: &str) -> (same: bool)
    ensures
        same == (a@ == b@),
{
    a.to_owned() == b.to_owned()
}

/// Small letters in place of ASCII capitals.
pub fn lower_chars(text: &str) -> (lower: Vec<char>)
    ensures
        lower@ == ascii_lower(text@),
{
    let chars = chars_of(text);
    let mut lower: Vec<char> = Vec::new();
    let mut i: usize = 0;
    while i < chars.len()
        invariant
            i <= chars.len(),
            lower@.len() == i,
            forall|j: int| 0 <= j < i ==> lower@[j] == ascii_lower_char(#[trigger] chars@[j]),
        decreases chars.len() - i,
    {
        let c: char = chars[i];
        if 'A' <= c && c <= 'Z' {
            lower.push((c as u8 + 32) as char);
        } else {
            lower.push(c);
        }
        i = i + 1;
    }
    proof {
        assert(lower@ =~= ascii_lower(text@));
    }
    lower
}

/// What stands behind `prefix` before anything is quoted, where `text` begins with
/// `prefix`.
pub fn head_after(text: &Vec<char>, prefix: &str) -> (head: Option<Vec<char>>)
    ensures
        match head {
            Some(head) => has_prefix(text@, prefix@) && head@ == before_quote(
                text@.skip(prefix@.len() as int),
            ),
            None => !has_prefix(text@, prefix@),
        },
{
    if !chars_start_with(text, prefix) {
        return None;
    }
    let start: usize = chars_of(prefix).len();
    let ghost rest = text@.skip(start as int);
    let mut head: Vec<char> = Vec::new();
    let mut i: usize = start;
    proof {
        assert(rest.skip(0) =~= rest);
    }
    while i < text.len() && text[i] != '\'' && text[i] != '"'
        invariant
            start <= i <= text@.len(),
            rest == text@.skip(start as int),
            head@ == rest.take(i - start),
            unquoted_len(rest) == i - start + unquoted_len(rest.skip(i - start)),
        decreases text@.len() - i,
    {
        proof {
            let here = rest.skip(i - start);
            assert(here[0] == text@[i as int]);
            assert(here.drop_first() =~= rest.skip(i - start + 1));
            assert(rest.take(i - start + 1) =~= rest.take(i - start).push(text@[i as int]));
        }
        head.push(text[i]);
        i = i + 1;
    }
    proof {
        let here = rest.skip(i - start);
        if i < text.len() {
            assert(here[0] == text@[i as int]);
        }
        assert(unquoted_len(here) == 0);
    }
    Some(head)
}

/// Whether `part` stands in `text` at position `at`.
fn matches_at(text: &Vec<char>, part: &Vec<char>, at: usize) -> (found: bool)
    requires
        at + part@.len() <= text@.len(),
    ensures
        found == occurs_at(text@, part@, at as int),
{
    let len: usize = text.len();
    let mut i: usize = 0;
    while i < part.len()
        invariant
            i <= part.len(),
            len == text@.len(),
            at + part@.len() <= text@.len(),
            forall|j: int| 0 <= j < i ==> text@[at + j] == #[trigger] part@[j],
        decreases part.len() - i,
    {
        if text[at + i] != part[i] {
            proof {
                assert(text@.subrange(at as int, at + part@.len())[i as int] != part@[i as int]);
            }
            return false;
        }
        i = i + 1;
    }
    proof {
        assert(text@.subrange(at as int, at + part@.len()) =~= part@);
    }
    true
}

/// Whether `part` stands somewhere in `text`.
pub fn contains_chars(text: &Vec<char>, part: &str) -> (found: bool)
    ensures
        found == contains_text(text@, part@),
{
    let wanted = chars_of(part);
    if wanted.len() > text.len() {
        return false;
    }
    let last: usize = text.len() - wanted.len();
    let mut at: usize = 0;
    loop
        invariant
            wanted@ == part@,
            at <= last,
            last == text@.len() - part@.len(),
            forall|k: int| 0 <= k < at ==> !occurs_at(text@, part@, k),
        decreases last - at,
    {
        if matches_at(text, &wanted, at) {
            return true;
        }
        if at == last {
            return false;
        }
        at = at + 1;
    }
}

/// Whether `text` begins with `prefix`.
pub fn chars_start_with(text: &Vec<char>, prefix: &str) -> (found: bool)
    ensures
        found == has_prefix(text@, prefix@),
{
    let prefix = chars_of(prefix);
    prefix.len() <= text.len() && matches_at(text, &prefix, 0)
}

/// Whether `text` begins with `prefix`.
pub fn starts_with(text: &str, prefix: &str) -> (found: bool)
    ensures
        found == has_prefix(text@, prefix@),
{
    chars_start_with(&chars_of(text), prefix)
}

/// Whether two texts differ at most in the case of ASCII letters.
pub fn same_ignoring_case(a: &str, b: &str) -> (same: bool)
    ensures
        same == (ascii_lower(a@) == ascii_lower(b@)),
{
    let a = lower_chars(a);
    let b = lower_chars(b);
    if a.len() != b.len() {
        return false;
    }
    let same = matches_at(&a, &b, 0);
    proof {
        assert(a@.subrange(0, b@.len() as int) =~= a@);
    }
    same
}

/// Whether nothing but white space stands in `text`.
pub fn is_blank(text: &str) -> (res: bool)
    ensures
        res == blank(text@),
{
    let chars = chars_of(text);
    let mut i: usize = 0;
    while i < chars.len()
        invariant
            i <= chars.len(),
            chars@ == text@,
            forall|j: int| 0 <= j < i ==> white_space(#[trigger] text@[j]),
        decreases chars.len() - i,
    {
        if !is_white_space(chars[i]) {
            return false;
        }
        i = i + 1;
    }
    true
}

/// Whether a character has the Unicode property White_Space.
fn is_white_space(c: char) -> (res: bool)
    ensures
        res == white_space(c),
{
    let code: u32 = c as u32;
    (0x9 <= code && code <= 0xd) || code == 0x20 || code == 0x85 || code == 0xa0 || code == 0x1680
        || (0x2000 <= code && code <= 0x200a) || code == 0x2028 || code == 0x2029 || code == 0x202f
        || code == 0x205f || code == 0x3000
}

/// One decimal digit as text.
fn digit_text(d: usize) -> (text: &'static str)
    requires
        d < 10,
    ensures
        text@ == seq![digit_char(d as nat)],
{
    proof {
        reveal_strlit("0123456789");
    }
    let text: &'static str = "0123456789".substring_char(d, d + 1);
    proof {
        assert(text@ =~= seq![digit_char(d as nat)]);
    }
    text
}

/// The decimal numeral of `n`.
pub fn decimal_text(n: u128) -> (text: String)
    ensures
        text@ == decimal(n as nat),
    decreases n,
{
    if n < 10 {
        digit_text(n as usize).to_owned()
    } else {
        let mut text = decimal_text(n / 10);
        text.append(digit_text((n % 10) as usize));
        proof {
            assert(text@ =~= decimal(n as nat));
        }
        text
    }
}

/// The decimal numeral of `n`, with `-` before a negative number.
pub fn signed_decimal_text(n: i64) -> (text: String)
    ensures
        text@ == signed_decimal(n as int),
{
    if n < 0 {
        let mut text = "-".to_owned();
        text.append(decimal_text((-(n as i128)) as u128).as_str());
        proof {
            reveal_strlit("-");
            assert(text@ =~= signed_decimal(n as int));
        }
        text
    } else {
        decimal_text(n as u128)
    }
}

/// Two texts, one after the other.
pub fn joined(a: &str, b: &str) -> (text: String)
    ensures
        text@ == a@ + b@,
{
    let mut text = a.to_owned();
    text.append(b);
    text
}

/// Where something is quoted behind a head without quotes, that head is what
/// stands before it.
pub proof fn lemma_before_quote(head: Seq<char>, quote: char, rest: Seq<char>)
    requires
        is_quote(quote),
        forall|i: int| 0 <= i < head.len() ==> !is_quote(#[trigger] head[i]),
    ensures
        before_quote(head + seq![quote] + rest) == head,
{
    lemma_unquoted_len(head, quote, rest);
    assert((head + seq![quote] + rest).take(head.len() as int) =~= head);
}

/// Where nothing is quoted, the whole text stands before anything quoted.
pub proof fn lemma_nothing_quoted(text: Seq<char>)
    requires
        forall|i: int| 0 <= i < text.len() ==> !is_quote(#[trigger] text[i]),
    ensures
        before_quote(text) == text,
{
    lemma_unquoted_whole(text);
    assert(text.take(text.len() as int) =~= text);
}

proof fn lemma_unquoted_whole(text: Seq<char>)
    requires
        forall|i: int| 0 <= i < text.len() ==> !is_quote(#[trigger] text[i]),
    ensures
        unquoted_len(text) == text.len(),
    decreases text.len(),
{
    if text.len() > 0 {
        let tail = text.drop_first();
        assert forall|i: int| 0 <= i < tail.len() implies !is_quote(#[trigger] tail[i]) by {
            assert(!is_quote(text[i + 1]));
        }
        lemma_unquoted_whole(tail);
    }
}

proof fn lemma_unquoted_len(head: Seq<char>, quote: char, rest: Seq<char>)
    requires
        is_quote(quote),
        forall|i: int| 0 <= i < head.len() ==> !is_quote(#[trigger] head[i]),
    ensures
        unquoted_len(head + seq![quote] + rest) == head.len(),
    decreases head.len(),
{
    let text = head + seq![quote] + rest;
    if head.len() > 0 {
        let tail = head.drop_first();
        assert(text[0] == head[0]);
        assert(text.drop_first() =~= tail + seq![quote] + rest);
        assert forall|i: int| 0 <= i < tail.len() implies !is_quote(#[trigger] tail[i]) by {
            assert(!is_quote(head[i + 1]));
        }
        lemma_unquoted_len(tail, quote, rest);
    } else {
        assert(text[0] == quote);
    }
}

/// A part in small letters that stands in a text still stands there when the
/// text is put in small letters.
pub proof fn lemma_small_letters_stay(text: Seq<char>, part: Seq<char>, at: int)
    requires
        occurs_at(text, part, at),
        ascii_lower(part) == part,
    ensures
        contains_text(ascii_lower(text), part),
{
    let lower = ascii_lower(text);
    assert forall|i: int| 0 <= i < part.len() implies lower.subrange(at, at + part.len())[i]
        == part[i] by {
        assert(text.subrange(at, at + part.len())[i] == part[i]);
        assert(ascii_lower(part)[i] == ascii_lower_char(part[i]));
    }
    assert(lower.subrange(at, at + part.len()) =~= part);
    assert(occurs_at(lower, part, at));
}

/// Small letters do not change where two texts meet.
pub proof fn lemma_lower_of_sum(a: Seq<char>, b: Seq<char>)
    ensures
        ascii_lower(a + b) == ascii_lower(a) + ascii_lower(b),
{
    assert(ascii_lower(a + b) =~= ascii_lower(a) + ascii_lower(b));
}

/// The number that a row of decimal digits stands for.
pub open spec fn numeral_value(text: Seq<char>) -> int
    decreases text.len(),
{
    if text.len() == 0 {
        0
    } else {
        10 * numeral_value(text.drop_last()) + (text.last() as int - '0' as int)
    }
}

/// The number that a numeral stands for, with `-` before a negative one.
pub open spec fn signed_value(text: Seq<char>) -> int {
    if text.len() > 0 && text[0] == '-' {
        -numeral_value(text.drop_first())
    } else {
        numeral_value(text)
    }
}

/// Whether a text is made of decimal digits and nothing else.
pub open spec fn all_digits(text: Seq<char>) -> bool {
    forall|i: int| 0 <= i < text.len() ==> '0' <= #[trigger] text[i] && text[i] <= '9'
}

/// A decimal numeral reads back as its number, and has only digits and no
/// leading zero.
pub proof fn law_decimal_reads_back(n: nat)
    ensures
        numeral_value(decimal(n)) == n,
        all_digits(decimal(n)),
        decimal(n).len() > 0,
        decimal(n)[0] == '0' ==> decimal(n).len() == 1,
    decreases n,
{
    let text = decimal(n);
    if n < 10 {
        assert(text.drop_last() =~= Seq::<char>::empty());
        assert(numeral_value(text.drop_last()) == 0);
    } else {
        let front = decimal(n / 10);
        law_decimal_reads_back(n / 10);
        assert(text.drop_last() =~= front);
        assert forall|i: int| 0 <= i < text.len() implies '0' <= #[trigger] text[i] && text[i]
            <= '9' by {
            if i < front.len() {
                assert(text[i] == front[i]);
            }
        }
        assert(text[0] == front[0]);
        if front[0] == '0' {
            assert(front.drop_last() =~= Seq::<char>::empty());
            assert(numeral_value(front) == 0) by {
                assert(numeral_value(front.drop_last()) == 0);
            }
            assert(n / 10 == 0);
        }
    }
}

/// The numeral of an integer reads back as that integer, and only a negative
/// one has a sign.
pub proof fn law_signed_decimal_reads_back(n: int)
    ensures
        signed_value(signed_decimal(n)) == n,
        n >= 0 ==> signed_decimal(n) == decimal(n as nat),
        n < 0 ==> signed_decimal(n) == seq!['-'] + decimal((-n) as nat),
{
    if n < 0 {
        law_decimal_reads_back((-n) as nat);
        assert(signed_decimal(n).drop_first() =~= decimal((-n) as nat));
    } else {
        law_decimal_reads_back(n as nat);
    }
}

/// Each capital letter of the alphabet has its small letter, and every other
/// character is left alone.
pub proof fn law_small_letters(c: char)
    ensures
        forall|i: int|
            0 <= i < 26 ==> ascii_lower_char(#[trigger] "ABCDEFGHIJKLMNOPQRSTUVWXYZ"@[i])
                == "abcdefghijklmnopqrstuvwxyz"@[i],
        !"ABCDEFGHIJKLMNOPQRSTUVWXYZ"@.contains(c) ==> ascii_lower_char(c) == c,
{
    reveal_strlit("ABCDEFGHIJKLMNOPQRSTUVWXYZ");
    reveal_strlit("abcdefghijklmnopqrstuvwxyz");
    let capitals = "ABCDEFGHIJKLMNOPQRSTUVWXYZ"@;
    assert forall|i: int| 0 <= i < 26 implies #[trigger] capitals[i] as int == 65 + i by {}
    if 'A' <= c && c <= 'Z' {
        assert(capitals[c as int - 65] == c);
    }
}

/// To put a text in small letters changes no length and no place: each character
/// becomes its own small letter.
pub proof fn law_lowered_text(text: Seq<char>)
    ensures
        ascii_lower(text).len() == text.len(),
        forall|i: int|
            0 <= i < text.len() ==> #[trigger] ascii_lower(text)[i] == ascii_lower_char(text[i]),
{
}

/// A text begins with a prefix where it is that prefix with something behind it.
pub proof fn law_prefix(text: Seq<char>, prefix: Seq<char>)
    ensures
        has_prefix(text, prefix) <==> exists|rest: Seq<char>| text == #[trigger] (prefix + rest),
{
    if has_prefix(text, prefix) {
        let rest = text.skip(prefix.len() as int);
        assert(text =~= prefix + rest) by {
            assert forall|i: int| 0 <= i < prefix.len() implies text[i] == prefix[i] by {
                assert(text.subrange(0, prefix.len() as int)[i] == prefix[i]);
            }
        }
    }
    if exists|rest: Seq<char>| text == #[trigger] (prefix + rest) {
        let rest = choose|rest: Seq<char>| text == #[trigger] (prefix + rest);
        assert(text.subrange(0, prefix.len() as int) =~= prefix);
    }
}

/// A part stands in a text where the text is that part with something before and
/// behind it.
pub proof fn law_part(text: Seq<char>, part: Seq<char>)
    ensures
        contains_text(text, part) <==> exists|before: Seq<char>, after: Seq<char>|
            text == #[trigger] (before + part + after),
{
    if contains_text(text, part) {
        let at = choose|at: int| occurs_at(text, part, at);
        let before = text.take(at);
        let after = text.skip(at + part.len());
        assert forall|i: int| 0 <= i < part.len() implies text[at + i] == part[i] by {
            assert(text.subrange(at, at + part.len())[i] == part[i]);
        }
        assert(text =~= before + part + after) by {
            assert forall|k: int| 0 <= k < text.len() implies text[k] == (before + part + after)[k] by {
                if at <= k < at + part.len() {
                    assert(text[at + (k - at)] == part[k - at]);
                }
            }
        }
    }
    if exists|before: Seq<char>, after: Seq<char>| text == #[trigger] (before + part + after) {
        let (before, after) = choose|before: Seq<char>, after: Seq<char>|
            text == #[trigger] (before + part + after);
        let at = before.len() as int;
        assert(text.subrange(at, at + part.len()) =~= part);
        assert(occurs_at(text, part, at));
    }
}

/// What stands before anything quoted holds neither an apostrophe nor a
/// quotation mark, and ends where the text ends or where one of them stands.
pub proof fn law_before_quote(text: Seq<char>)
    ensures
        has_prefix(text, before_quote(text)),
        forall|i: int|
            0 <= i < before_quote(text).len() ==> #[trigger] before_quote(text)[i] != '\''
                && before_quote(text)[i] != '"',
        before_quote(text) == text || {
            &&& before_quote(text).len() < text.len()
            &&& text[before_quote(text).len() as int] == '\'' || text[before_quote(
                text,
            ).len() as int] == '"'
        },
    decreases text.len(),
{
    lemma_unquoted_end(text);
    let n = unquoted_len(text) as int;
    assert(text.subrange(0, n) =~= before_quote(text));
    if n == text.len() {
        assert(before_quote(text) =~= text);
    }
}

proof fn lemma_unquoted_end(text: Seq<char>)
    ensures
        unquoted_len(text) <= text.len(),
        forall|i: int| 0 <= i < unquoted_len(text) ==> !is_quote(#[trigger] text[i]),
        unquoted_len(text) < text.len() ==> is_quote(text[unquoted_len(text) as int]),
    decreases text.len(),
{
    if text.len() > 0 && !is_quote(text[0]) {
        let tail = text.drop_first();
        lemma_unquoted_end(tail);
        assert forall|i: int| 0 <= i < unquoted_len(text) implies !is_quote(#[trigger] text[i]) by {
            if i > 0 {
                assert(!is_quote(tail[i - 1]));
            }
        }
    }
}

/// White space is these characters and no others.
pub proof fn law_white_space(c: char)
    ensures
        white_space(c) <==> seq![
            '\t',
            '\n',
            '\u{b}',
            '\u{c}',
            '\r',
            ' ',
            '\u{85}',
            '\u{a0}',
            '\u{1680}',
            '\u{2000}',
            '\u{2001}',
            '\u{2002}',
            '\u{2003}',
            '\u{2004}',
            '\u{2005}',
            '\u{2006}',
            '\u{2007}',
            '\u{2008}',
            '\u{2009}',
            '\u{200a}',
            '\u{2028}',
            '\u{2029}',
            '\u{202f}',
            '\u{205f}',
            '\u{3000}',
        ].contains(c),
{
    let all = seq![
        '\t',
        '\n',
        '\u{b}',
        '\u{c}',
        '\r',
        ' ',
        '\u{85}',
        '\u{a0}',
        '\u{1680}',
        '\u{2000}',
        '\u{2001}',
        '\u{2002}',
        '\u{2003}',
        '\u{2004}',
        '\u{2005}',
        '\u{2006}',
        '\u{2007}',
        '\u{2008}',
        '\u{2009}',
        '\u{200a}',
        '\u{2028}',
        '\u{2029}',
        '\u{202f}',
        '\u{205f}',
        '\u{3000}',
    ];
    let code = c as int;
    if 0x9 <= code <= 0xd {
        assert(all[code - 0x9] == c);
    } else if 0x2000 <= code <= 0x200a {
        assert(all[9 + code - 0x2000] == c);
    } else {
        assert(all[5] == ' ' && all[6] == '\u{85}' && all[7] == '\u{a0}' && all[8] == '\u{1680}');
        assert(all[20] == '\u{2028}' && all[21] == '\u{2029}' && all[22] == '\u{202f}');
        assert(all[23] == '\u{205f}' && all[24] == '\u{3000}');
    }
}

/// A text is blank unless a character that is no white space stands in it.
pub proof fn law_blank(before: Seq<char>, c: char, after: Seq<char>)
    ensures
        blank(Seq::<char>::empty()),
        blank(before + seq![c] + after) <==> blank(before) && white_space(c) && blank(after),
{
    let text = before + seq![c] + after;
    assert(text[before.len() as int] == c);
    if blank(text) {
        assert forall|i: int| 0 <= i < before.len() implies white_space(#[trigger] before[i]) by {
            assert(white_space(text[i]));
        }
        assert forall|i: int| 0 <= i < after.len() implies white_space(#[trigger] after[i]) by {
            assert(white_space(text[before.len() + 1 + i]));
        }
    }
    if blank(before) && white_space(c) && blank(after) {
        assert forall|i: int| 0 <= i < text.len() implies white_space(#[trigger] text[i]) by {
            if i < before.len() {
                assert(white_space(before[i]));
            } else if i > before.len() {
                assert(white_space(after[i - before.len() - 1]));
            }
        }
    }
}

} // verus!
