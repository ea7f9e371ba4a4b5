//! Value kinds, typed option values and the rules that turn a raw token
//! into a value of a given kind.
use vstd::prelude::*;
use vstd::string::*;

verus! {

/// The kind of an option: what it stores and whether it consumes a token.
#[derive(Clone, Copy, Debug, PartialEq, Eq, Structural)]
pub enum ValueKind {
    /// A UTF-8 string, taken verbatim from the following token.
    Text,
    /// A signed 32-bit number, parsed in base 10 from the following token.
    Integer,
    /// A boolean switch that consumes no token and sets the field to `true`.
    Flag,
}

/// The mathematical model of an option value.
pub enum ValueModel {
    Text(Seq<char>),
    Integer(i32),
    Flag(bool),
}

impl ValueKind {
    /// Whether recognizing an option of this kind consumes the next token.
    pub open spec fn consumes_value(self) -> bool {
        self != ValueKind::Flag
    }

    /// Whether recognizing an option of this kind consumes the next token.
    pub fn takes_value(&self) -> (r: bool)
        ensures
            r == self.consumes_value(),
    {
        !matches!(self, ValueKind::Flag)
    }

    /// The value that the raw token `raw` gives an option of this kind, or
    /// `None` where it cannot be converted.
    pub open spec fn value_of(self, raw: Seq<char>) -> Option<ValueModel> {
        match self {
            ValueKind::Text => Some(ValueModel::Text(raw)),
            ValueKind::Integer => match i32_value(raw) {
                Some(n) => Some(ValueModel::Integer(n)),
                None => None,
            },
            ValueKind::Flag => Some(ValueModel::Flag(true)),
        }
    }

    /// Converts the token that follows a value-consuming option: text is
    /// stored verbatim, an integer is parsed in base 10.
    pub fn convert(&self, raw: &str) -> (r: Option<OptionValue>)
        requires
            self.consumes_value(),
        ensures
            match r {
                Some(v) => self.value_of(raw@) == Some(v@),
                None => self.value_of(raw@) is None,
            },
    {
        match self {
            ValueKind::Text => Some(OptionValue::Text(String::from_str(raw))),
            ValueKind::Integer => match parse_i32(raw) {
                Some(n) => Some(OptionValue::Integer(n)),
                None => None,
            },
            ValueKind::Flag => Some(OptionValue::Flag(true)),
        }
    }
}

impl ValueModel {
    pub open spec fn kind(self) -> ValueKind {
        match self {
            ValueModel::Text(_) => ValueKind::Text,
            ValueModel::Integer(_) => ValueKind::Integer,
            ValueModel::Flag(_) => ValueKind::Flag,
        }
    }
}

/// A typed option value.
#[derive(Clone, Debug)]
pub enum OptionValue {
    Text(String),
    Integer(i32),
    Flag(bool),
}

impl View for OptionValue {
    type V = ValueModel;

    open spec fn view(&self) -> ValueModel {
        match self {
            OptionValue::Text(s) => ValueModel::Text(s@),
            OptionValue::Integer(n) => ValueModel::Integer(*n),
            OptionValue::Flag(b) => ValueModel::Flag(*b),
        }
    }
}

impl OptionValue {
    /// A copy of this value.
    pub fn duplicate(&self) -> (r: OptionValue)
        ensures
            r@ == self@,
    {
        match self {
            OptionValue::Text(s) => OptionValue::Text(s.clone()),
            OptionValue::Integer(n) => OptionValue::Integer(*n),
            OptionValue::Flag(b) => OptionValue::Flag(*b),
        }
    }

    /// The kind of this value.
    pub fn kind(&self) -> (k: ValueKind)
        ensures
            k == self@.kind(),
    {
        match self {
            OptionValue::Text(_) => ValueKind::Text,
            OptionValue::Integer(_) => ValueKind::Integer,
            OptionValue::Flag(_) => ValueKind::Flag,
        }
    }
}

pub open spec fn is_digit(c: char) -> bool {
    '0' <= c && c <= '9'
}

pub open spec fn digit_value(c: char) -> int {
    (c as u32) - ('0' as u32)
}

pub open spec fn all_digits(s: Seq<char>) -> bool {
    forall|i: int| 0 <= i < s.len() ==> is_digit(#[trigger] s[i])
}

/// The number that a sequence of decimal digits denotes.
pub open spec fn digits_value(s: Seq<char>) -> int
    decreases s.len(),
{
    if s.len() == 0 {
        0
    } else {
        digits_value(s.drop_last()) * 10 + digit_value(s.last())
    }
}

/// The integer that `s` spells in base 10: an optional `+` or `-` sign
/// followed by one or more digits, and nothing else.
pub open spec fn decimal_value(s: Seq<char>) -> Option<int> {
    let signed = s.len() > 0 && (s[0] == '+' || s[0] == '-');
    let body = if signed { s.drop_first() } else { s };
    if body.len() > 0 && all_digits(body) {
        if signed && s[0] == '-' {
            Some(-digits_value(body))
        } else {
            Some(digits_value(body))
        }
    } else {
        None
    }
}

/// The signed 32-bit number that `s` spells, if it spells one in range.
pub open spec fn i32_value(s: Seq<char>) -> Option<i32> {
    match decimal_value(s) {
        Some(v) => if i32::MIN <= v && v <= i32::MAX {
            Some(v as i32)
        } else {
            None
        },
        None => None,
    }
}

proof fn lemma_digits_value_nonneg(s: Seq<char>)
    requires
        all_digits(s),
    ensures
        digits_value(s) >= 0,
    decreases s.len(),
{
    if s.len() > 0 {
        assert(all_digits(s.drop_last()));
        assert(is_digit(s[s.len() - 1]));
        lemma_digits_value_nonneg(s.drop_last());
    }
}

proof fn lemma_digits_value_grows(s: Seq<char>, k: int)
    requires
        all_digits(s),
        0 <= k <= s.len(),
    ensures
        digits_value(s) >= digits_value(s.subrange(0, k)),
    decreases s.len(),
{
    if k < s.len() {
        assert(all_digits(s.drop_last()));
        assert(is_digit(s[s.len() - 1]));
        lemma_digits_value_grows(s.drop_last(), k);
        assert(s.drop_last().subrange(0, k) =~= s.subrange(0, k));
        lemma_digits_value_nonneg(s.drop_last());
    } else {
        assert(s.subrange(0, k) =~= s);
    }
}

/// Parses `s` as a base-10 signed 32-bit number: an optional sign, then
/// digits only. Returns `None` on any other character, on an empty digit
/// string, and on a value out of range.
pub fn parse_i32(s: &str) -> (r: Option<i32>)
    ensures
        r == i32_value(s@),
{
    let n = s.unicode_len();
    let mut start: usize = 0;
    let mut negative = false;
    if n > 0 {
        let c0 = s.get_char(0);
        if c0 == '+' || c0 == '-' {
            start = 1;
            negative = c0 == '-';
        }
    }
    let ghost signed = s@.len() > 0 && (s@[0] == '+' || s@[0] == '-');
    let ghost body = if signed { s@.drop_first() } else { s@ };
    assert(body =~= s@.subrange(start as int, n as int));
    if start == n {
        return None;
    }
    let mut acc: i64 = 0;
    let mut i: usize = start;
    while i < n
        invariant
            start <= i <= n,
            n == s@.len(),
            body =~= s@.subrange(start as int, n as int),
            signed == (s@.len() > 0 && (s@[0] == '+' || s@[0] == '-')),
            body == (if signed { s@.drop_first() } else { s@ }),
            negative == (signed && s@[0] == '-'),
            all_digits(body.subrange(0, i - start)),
            acc == digits_value(body.subrange(0, i - start)),
            0 <= acc <= 0x8000_0000,
        decreases n - i,
    {
        let c = s.get_char(i);
        assert(body[i - start] == c);
        if !('0' <= c && c <= '9') {
            assert(!all_digits(body));
            return None;
        }
        let d = (c as u32 - '0' as u32) as i64;
        let next = acc * 10 + d;
        let ghost pre = body.subrange(0, i - start);
        let ghost post = body.subrange(0, i - start + 1);
        assert(post.drop_last() =~= pre);
        assert(post.last() == c);
        assert(all_digits(post));
        assert(digits_value(post) == next);
        if next > 0x8000_0000 {
            proof {
                if all_digits(body) {
                    lemma_digits_value_grows(body, i - start + 1);
                    assert(body.subrange(0, i - start + 1) =~= post);
                }
            }
            return None;
        }
        acc = next;
        i = i + 1;
    }
    assert(body.subrange(0, n - start) =~= body);
    if negative {
        Some((-acc) as i32)
    } else if acc <= 0x7fff_ffff {
        Some(acc as i32)
    } else {
        None
    }
}

} // verus!
