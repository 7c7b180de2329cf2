//! Text rules: white space, trimming, configuration names, decimal numbers
//! and letter case.
use vstd::prelude::*;
use vstd::string::*;
use vstd::utf8::*;

verus! {

/// The Unicode property `White_Space`.
pub open spec fn is_white_space(c: char) -> bool {
    let n = c as u32;
    ||| 0x09 <= n <= 0x0d
    ||| n == 0x20
    ||| n == 0x85
    ||| n == 0xa0
    ||| n == 0x1680
    ||| 0x2000 <= n <= 0x200a
    ||| 0x2028 <= n <= 0x2029
    ||| n == 0x202f
    ||| n == 0x205f
    ||| n == 0x3000
}

/// Whether `c` is white space.
pub fn white_space(c: char) -> (res: bool)
    ensures
        res == is_white_space(c),
{
    let n: u32 = c as u32;
    (0x09 <= n && n <= 0x0d) || n == 0x20 || n == 0x85 || n == 0xa0 || n == 0x1680 || (0x2000 <= n
        && n <= 0x200a) || (0x2028 <= n && n <= 0x2029) || n == 0x202f || n == 0x205f || n == 0x3000
}

/// `s` without the white space at its two ends.
pub open spec fn trimmed(s: Seq<char>) -> Seq<char>
    decreases s.len(),
{
    if s.len() == 0 {
        s
    } else if is_white_space(s.first()) {
        trimmed(s.drop_first())
    } else if is_white_space(s.last()) {
        trimmed(s.drop_last())
    } else {
        s
    }
}

/// Whether `s` holds nothing but white space.
pub open spec fn is_blank(s: Seq<char>) -> bool {
    forall|i: int| 0 <= i < s.len() ==> is_white_space(#[trigger] s[i])
}

/// The part between the first and the last character that is no white space
/// is what trimming leaves.
proof fn lemma_trimmed_between(s: Seq<char>, from: int, to: int)
    requires
        0 <= from < to <= s.len(),
        forall|i: int| 0 <= i < from ==> is_white_space(#[trigger] s[i]),
        forall|i: int| to <= i < s.len() ==> is_white_space(#[trigger] s[i]),
        !is_white_space(s[from]),
        !is_white_space(s[to - 1]),
    ensures
        trimmed(s) == s.subrange(from, to),
    decreases s.len(),
{
    if from > 0 {
        let r = s.drop_first();
        lemma_trimmed_between(r, from - 1, to - 1);
        assert(r.subrange(from - 1, to - 1) =~= s.subrange(from, to));
    } else if to < s.len() {
        let r = s.drop_last();
        lemma_trimmed_between(r, from, to);
        assert(r.subrange(from, to) =~= s.subrange(from, to));
    } else {
        assert(s.subrange(from, to) =~= s);
    }
}

/// Trimming a text leaves nothing exactly where the text is blank.
pub proof fn lemma_trimmed_blank(s: Seq<char>)
    ensures
        trimmed(s).len() == 0 <==> is_blank(s),
    decreases s.len(),
{
    if s.len() > 0 {
        if is_white_space(s.first()) {
            lemma_trimmed_blank(s.drop_first());
            if is_blank(s.drop_first()) {
                assert forall|i: int| 0 <= i < s.len() implies is_white_space(#[trigger] s[i]) by {
                    if i > 0 {
                        assert(s.drop_first()[i - 1] == s[i]);
                    }
                }
            }
        } else if is_white_space(s.last()) {
            lemma_trimmed_blank(s.drop_last());
            assert(!is_white_space(s[0]));
            assert(s.drop_last().len() == 0 || s.drop_last()[0] == s[0]);
        } else {
            assert(!is_white_space(s[0]));
        }
    }
}

/// The text without the white space at its two ends.
pub fn trim(s: &str) -> (res: String)
    ensures
        res@ == trimmed(s@),
{
    let mut count: usize = 0;
    let mut from: usize = 0;
    let mut to: usize = 0;
    let total: usize = s.unicode_len();
    for c in it: s.chars()
        invariant
            it.seq() == s@,
            total == s@.len(),
            count == it.index(),
            from <= to <= count,
            from < to || (from == 0 && to == 0),
            to == 0 ==> forall|i: int| 0 <= i < count ==> is_white_space(#[trigger] s@[i]),
            to > 0 ==> {
                &&& !is_white_space(s@[from as int])
                &&& !is_white_space(s@[to - 1])
                &&& forall|i: int| 0 <= i < from ==> is_white_space(#[trigger] s@[i])
                &&& forall|i: int| to <= i < count ==> is_white_space(#[trigger] s@[i])
            },
    {
        if !white_space(c) {
            if to == 0 {
                from = count;
            }
            to = count + 1;
        }
        count = count + 1;
    }
    proof {
        if to > 0 {
            lemma_trimmed_between(s@, from as int, to as int);
        } else {
            lemma_trimmed_blank(s@);
            assert(s@.subrange(0, 0) =~= trimmed(s@));
        }
    }
    s.substring_char(from, to).to_string()
}

/// Whether the text holds nothing but white space.
pub fn blank(s: &str) -> (res: bool)
    ensures
        res == is_blank(s@),
{
    for c in it: s.chars()
        invariant
            it.seq() == s@,
            forall|i: int| 0 <= i < it.index() ==> is_white_space(#[trigger] s@[i]),
    {
        if !white_space(c) {
            assert(!is_white_space(s@[it.index() as int]));
            return false;
        }
    }
    true
}

/// The characters that a configuration name is made of: ASCII letters and
/// digits, the underscore and the hyphen.
pub open spec fn is_name_char(c: char) -> bool {
    ||| 'a' <= c <= 'z'
    ||| 'A' <= c <= 'Z'
    ||| '0' <= c <= '9'
    ||| c == '_'
    ||| c == '-'
}

/// Whether every character of `s` may stand in a configuration name.
pub open spec fn all_name_chars(s: Seq<char>) -> bool {
    forall|i: int| 0 <= i < s.len() ==> is_name_char(#[trigger] s[i])
}

/// Whether `s` is a name that a configuration can be saved under.
pub open spec fn is_config_name(s: Seq<char>) -> bool {
    s.len() > 0 && all_name_chars(s)
}

/// Whether every character of the text may stand in a configuration name.
pub fn only_name_chars(s: &str) -> (res: bool)
    ensures
        res == all_name_chars(s@),
{
    for c in it: s.chars()
        invariant
            it.seq() == s@,
            forall|i: int| 0 <= i < it.index() ==> is_name_char(#[trigger] s@[i]),
    {
        let allowed = ('a' <= c && c <= 'z') || ('A' <= c && c <= 'Z') || ('0' <= c && c <= '9')
            || c == '_' || c == '-';
        if !allowed {
            assert(!is_name_char(s@[it.index() as int]));
            return false;
        }
    }
    true
}

/// A configuration name has no white space, so trimming leaves it as it is.
pub proof fn lemma_config_name_trimmed(s: Seq<char>)
    requires
        all_name_chars(s),
    ensures
        trimmed(s) == s,
{
    if s.len() > 0 {
        assert(is_name_char(s[0]));
        assert(is_name_char(s[s.len() - 1]));
    }
}

/// The character that stands for the digit `d`.
pub open spec fn digit(d: nat) -> char
    recommends
        d < 10,
{
    (48 + d) as char
}

/// `n` in decimal, without leading zeros.
pub open spec fn decimal(n: nat) -> Seq<char>
    decreases n,
{
    if n < 10 {
        seq![digit(n)]
    } else {
        decimal(n / 10).push(digit(n % 10))
    }
}

fn digit_text(d: u8) -> (res: String)
    requires
        d < 10,
    ensures
        res@ == seq![digit(d as nat)],
{
    proof {
        reveal_strlit("0");
        reveal_strlit("1");
        reveal_strlit("2");
        reveal_strlit("3");
        reveal_strlit("4");
        reveal_strlit("5");
        reveal_strlit("6");
        reveal_strlit("7");
        reveal_strlit("8");
        reveal_strlit("9");
    }
    let text = match d {
        0 => "0",
        1 => "1",
        2 => "2",
        3 => "3",
        4 => "4",
        5 => "5",
        6 => "6",
        7 => "7",
        8 => "8",
        _ => "9",
    };
    assert(text@ =~= seq![digit(d as nat)]);
    text.to_string()
}

/// The number in decimal.
pub fn decimal_text(n: u128) -> (res: String)
    ensures
        res@ == decimal(n as nat),
    decreases n,
{
    if n < 10 {
        digit_text(n as u8)
    } else {
        let last = digit_text((n % 10) as u8);
        let res = decimal_text(n / 10).concat(last.as_str());
        assert(res@ =~= decimal(n as nat));
        res
    }
}

/// Every character of a number in decimal is a digit.
pub proof fn lemma_decimal_digits(n: nat)
    ensures
        decimal(n).len() > 0,
        forall|i: int| 0 <= i < decimal(n).len() ==> '0' <= #[trigger] decimal(n)[i] <= '9',
    decreases n,
{
    if n >= 10 {
        lemma_decimal_digits(n / 10);
    }
}

/// Different numbers differ in decimal.
pub proof fn lemma_decimal_injective(a: nat, b: nat)
    requires
        decimal(a) == decimal(b),
    ensures
        a == b,
    decreases a,
{
    lemma_decimal_digits(a / 10);
    lemma_decimal_digits(b / 10);
    assert(decimal(a).last() == digit(a % 10));
    assert(decimal(b).last() == digit(b % 10));
    if a >= 10 && b >= 10 {
        assert(decimal(a).drop_last() =~= decimal(a / 10));
        assert(decimal(b).drop_last() =~= decimal(b / 10));
        lemma_decimal_injective(a / 10, b / 10);
    } else if a >= 10 {
        assert(decimal(a).len() > 1);
    } else if b >= 10 {
        assert(decimal(b).len() > 1);
    }
}

/// The text that `str::to_lowercase` makes of `s`.
pub uninterp spec fn lowercase(s: Seq<char>) -> Seq<char>;

/// The lower case of an ASCII character.
pub open spec fn ascii_lower(c: char) -> char {
    if 'A' <= c <= 'Z' {
        (c as u32 + 32) as char
    } else {
        c
    }
}

/// The lower case of an ASCII text.
pub open spec fn ascii_lowered(s: Seq<char>) -> Seq<char> {
    s.map_values(|c: char| ascii_lower(c))
}

/// Calls `str::to_lowercase`, which maps each character by the Unicode
/// lower case tables. The result depends on the text alone; a text of ASCII
/// characters only has its letters `A` to `Z` replaced by `a` to `z`.
#[verifier::external_body]
pub(crate) fn to_lowercase(s: &str) -> (res: String)
    ensures
        res@ == lowercase(s@),
        is_ascii_chars(s@) ==> res@ == ascii_lowered(s@),
{
    s.to_lowercase()
}

/// The text that `String::from_utf8_lossy` reads from `bytes`.
pub uninterp spec fn utf8_lossy(bytes: Seq<u8>) -> Seq<char>;

/// Calls `String::from_utf8_lossy`, which decodes UTF-8 and puts U+FFFD in
/// the place of what is no UTF-8. The result depends on the bytes alone;
/// bytes that are UTF-8 throughout are decoded as they stand.
#[verifier::external_body]
pub(crate) fn from_utf8_lossy(bytes: &[u8]) -> (res: String)
    ensures
        res@ == utf8_lossy(bytes@),
        valid_utf8(bytes@) ==> res@ == decode_utf8(bytes@),
{
    String::from_utf8_lossy(bytes).into_owned()
}

} // verus!
