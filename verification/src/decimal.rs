use vstd::prelude::*;

verus! {

/// Whether `c` is one of the ASCII digits `0` to `9`.
pub open spec fn is_digit(c: char) -> bool {
    '0' <= c && c <= '9'
}

/// The value of a run of ASCII digits read in base ten, most significant first.
pub open spec fn digits_value(ds: Seq<char>) -> nat
    decreases ds.len(),
{
    if ds.len() == 0 {
        0
    } else {
        digits_value(ds.drop_last()) * 10 + ((ds.last() as int) - ('0' as int)) as nat
    }
}

/// The text without its leading `+`, if it has one.
pub open spec fn unsigned_part(s: Seq<char>) -> Seq<char> {
    if s.len() > 0 && s[0] == '+' {
        s.drop_first()
    } else {
        s
    }
}

/// What std's `u8::from_str` gives for a text: an optional `+` sign, then one
/// or more ASCII digits and nothing else, whose value is at most 255.
pub open spec fn spec_parse_u8(s: Seq<char>) -> Option<u8> {
    let ds = unsigned_part(s);
    if ds.len() > 0 && (forall|i: int| 0 <= i < ds.len() ==> is_digit(#[trigger] ds[i]))
        && digits_value(ds) <= 255 {
        Some(digits_value(ds) as u8)
    } else {
        None
    }
}

/// A single ASCII digit reads as its own value.
pub proof fn lemma_parse_one_digit(c: char)
    requires
        is_digit(c),
    ensures
        spec_parse_u8(seq![c]) == Some(((c as int) - ('0' as int)) as u8),
{
    let s = seq![c];
    assert(s.drop_last() =~= Seq::<char>::empty());
    assert(digits_value(Seq::<char>::empty()) == 0);
    assert(digits_value(s) == ((c as int) - ('0' as int)) as nat);
    assert(forall|i: int| 0 <= i < s.len() ==> is_digit(#[trigger] s[i]));
}

/// Any character that is not an ASCII digit, other than a leading `+`,
/// makes the text unreadable; so does an empty text or a lone `+`.
pub proof fn lemma_parse_refuses_non_digits(s: Seq<char>, i: int)
    requires
        0 <= i < s.len(),
        !('0' <= s[i] && s[i] <= '9'),
        !(i == 0 && s[i] == '+'),
    ensures
        spec_parse_u8(s) is None,
{
    let ds = unsigned_part(s);
    if s.len() > 0 && s[0] == '+' {
        assert(ds[i - 1] == s[i]);
        assert(!is_digit(ds[i - 1]));
    } else {
        assert(ds[i] == s[i]);
        assert(!is_digit(ds[i]));
    }
}

/// An empty text and a lone `+` are not numbers.
pub proof fn lemma_parse_refuses_empty()
    ensures
        spec_parse_u8(Seq::<char>::empty()) is None,
        spec_parse_u8(seq!['+']) is None,
{
    assert(seq!['+'].drop_first() =~= Seq::<char>::empty());
}

/// A leading `+` changes nothing: `+t` reads as `t` does, when `t` does not
/// itself start with `+`.
pub proof fn lemma_parse_plus_sign(t: Seq<char>)
    requires
        t.len() == 0 || t[0] != '+',
    ensures
        spec_parse_u8(seq!['+'] + t) == spec_parse_u8(t),
{
    assert((seq!['+'] + t).drop_first() =~= t);
    assert(unsigned_part(seq!['+'] + t) =~= t);
    assert(unsigned_part(t) == t);
}

/// Appending a digit multiplies by ten and adds the digit, as long as the
/// result stays at most 255; past 255 the text is refused.
pub proof fn lemma_parse_append_digit(t: Seq<char>, d: char, v: u8)
    requires
        spec_parse_u8(t) == Some(v),
        '0' <= d && d <= '9',
    ensures
        v * 10 + ((d as int) - ('0' as int)) <= 255 ==> spec_parse_u8(t.push(d)) == Some(
            (v * 10 + ((d as int) - ('0' as int))) as u8,
        ),
        v * 10 + ((d as int) - ('0' as int)) > 255 ==> spec_parse_u8(t.push(d)) is None,
{
    let ds = unsigned_part(t);
    let es = t.push(d);
    let ds2 = unsigned_part(es);
    assert(ds.len() > 0);
    assert(ds2 =~= ds.push(d));
    assert(ds2.drop_last() =~= ds);
    assert(forall|i: int| 0 <= i < ds2.len() ==> is_digit(#[trigger] ds2[i])) by {
        assert forall|i: int| 0 <= i < ds2.len() implies is_digit(#[trigger] ds2[i]) by {
            if i < ds.len() {
                assert(ds2[i] == ds[i]);
            } else {
                assert(ds2[i] == d);
            }
        }
    }
}

/// Reads `s` as a decimal byte with std's `<u8 as FromStr>::from_str`.
/// Trusted: std documents that the text must be an optional `+` sign
/// followed by only ASCII digits, that an empty text, any other character
/// or a value above 255 is an error; the contract claims exactly that.
#[verifier::external_body]
pub(crate) fn parse_u8(s: &str) -> (r: Option<u8>)
    ensures
        r == spec_parse_u8(s@),
{
    s.parse::<u8>().ok()
}

} // verus!
