//! Character-level text utilities shared by the rest of the crate: whitespace
//! and character classes, trimming, substring search, joining and splitting,
//! decimal and hexadecimal digits.
use vstd::prelude::*;

verus! {

// ---------------------------------------------------------------------------
// Strings as character sequences
// ---------------------------------------------------------------------------

/// The characters of `s`, in order.
pub fn chars_of(s: &str) -> (v: Vec<char>)
    ensures
        v@ == s@,
{
    let mut v: Vec<char> = Vec::new();
    for c in it: s.chars()
        invariant
            v@ == it.seq().take(it.index() as int),
            it.seq() == s@,
    {
        v.push(c);
    }
    v
}

/// Appends one character to a string.
///
/// Trusted: `String::push`, documented as appending the given `char` to the
/// end of the string.
#[verifier::external_body]
pub(crate) fn push_char(s: &mut String, c: char)
    ensures
        final(s)@ == old(s)@.push(c),
{
    s.push(c);
}

/// Appends the characters of `v` to `s`.
pub fn push_chars(s: &mut String, v: &[char])
    ensures
        final(s)@ == old(s)@ + v@,
{
    let ghost start = s@;
    let mut i: usize = 0;
    while i < v.len()
        invariant
            i <= v@.len(),
            s@ == start + v@.take(i as int),
        decreases v@.len() - i,
    {
        push_char(s, v[i]);
        assert(v@.take(i + 1) == v@.take(i as int).push(v@[i as int]));
        i += 1;
    }
    assert(v@.take(i as int) == v@);
}

/// A string holding the characters of `v`.
pub fn string_of(v: &[char]) -> (s: String)
    ensures
        s@ == v@,
{
    let mut s = String::new();
    push_chars(&mut s, v);
    s
}

/// A string holding the characters `v[from..to]`.
pub fn string_of_range(v: &[char], from: usize, to: usize) -> (s: String)
    requires
        from <= to <= v@.len(),
    ensures
        s@ == v@.subrange(from as int, to as int),
{
    let mut s = String::new();
    let mut i = from;
    while i < to
        invariant
            from <= i <= to <= v@.len(),
            s@ == v@.subrange(from as int, i as int),
        decreases to - i,
    {
        push_char(&mut s, v[i]);
        assert(v@.subrange(from as int, i + 1) == v@.subrange(from as int, i as int).push(
            v@[i as int],
        ));
        i += 1;
    }
    s
}

/// A copy of `s`.
pub fn copy_str(s: &str) -> (r: String)
    ensures
        r@ == s@,
{
    s.to_owned()
}

/// Whether two character slices are equal.
pub fn same_chars(a: &[char], b: &[char]) -> (r: bool)
    ensures
        r == (a@ == b@),
{
    if a.len() != b.len() {
        return false;
    }
    let mut i: usize = 0;
    while i < a.len()
        invariant
            a@.len() == b@.len(),
            i <= a@.len(),
            forall|j: int| 0 <= j < i ==> a@[j] == b@[j],
        decreases a@.len() - i,
    {
        if a[i] != b[i] {
            return false;
        }
        i += 1;
    }
    assert(a@ =~= b@);
    true
}

/// Whether two strings hold the same characters.
pub fn same_text(a: &str, b: &str) -> (r: bool)
    ensures
        r == (a@ == b@),
{
    let va = chars_of(a);
    let vb = chars_of(b);
    same_chars(va.as_slice(), vb.as_slice())
}

// ---------------------------------------------------------------------------
// Character classes
// ---------------------------------------------------------------------------

/// Rust's `char::is_whitespace`: the Unicode `White_Space` property.
pub open spec fn is_white(c: char) -> bool {
    ||| '\u{9}' <= c <= '\u{D}'
    ||| c == ' '
    ||| c == '\u{85}'
    ||| c == '\u{A0}'
    ||| c == '\u{1680}'
    ||| '\u{2000}' <= c <= '\u{200A}'
    ||| c == '\u{2028}'
    ||| c == '\u{2029}'
    ||| c == '\u{202F}'
    ||| c == '\u{205F}'
    ||| c == '\u{3000}'
}

pub fn is_whitespace(c: char) -> (r: bool)
    ensures
        r == is_white(c),
{
    ('\u{9}' <= c && c <= '\u{D}') || c == ' ' || c == '\u{85}' || c == '\u{A0}' || c
        == '\u{1680}' || ('\u{2000}' <= c && c <= '\u{200A}') || c == '\u{2028}' || c
        == '\u{2029}' || c == '\u{202F}' || c == '\u{205F}' || c == '\u{3000}'
}

/// A character of one of the Unicode general categories of punctuation
/// (Pc, Pd, Pe, Pf, Pi, Po, Ps) or of symbols (Sc, Sk, Sm, So). The
/// categories are listed as ranges of code points, by area of the code space.
pub open spec fn is_punct_or_symbol(c: char) -> bool {
    if c <= '\u{7FF}' {
        punct_or_symbol_0000_07ff(c)
    } else if c <= '\u{1FFF}' {
        punct_or_symbol_0800_1fff(c)
    } else if c <= '\u{2DFF}' {
        punct_or_symbol_2000_2dff(c)
    } else if c <= '\u{9FFF}' {
        punct_or_symbol_2e00_9fff(c)
    } else if c <= '\u{FFFF}' {
        punct_or_symbol_a000_ffff(c)
    } else if c <= '\u{1EFFF}' {
        punct_or_symbol_10000_1efff(c)
    } else {
        punct_or_symbol_1f000_10ffff(c)
    }
}

/// [`is_punct_or_symbol`] on the code points U+0000 to U+07FF.
pub open spec fn punct_or_symbol_0000_07ff(c: char) -> bool {
    ||| '\u{21}' <= c <= '\u{2F}'
    ||| '\u{3A}' <= c <= '\u{40}'
    ||| '\u{5B}' <= c <= '\u{60}'
    ||| '\u{7B}' <= c <= '\u{7E}'
    ||| '\u{A1}' <= c <= '\u{A9}'
    ||| '\u{AB}' <= c <= '\u{AC}'
    ||| '\u{AE}' <= c <= '\u{B1}'
    ||| c == '\u{B4}'
    ||| '\u{B6}' <= c <= '\u{B8}'
    ||| c == '\u{BB}'
    ||| c == '\u{BF}'
    ||| c == '\u{D7}'
    ||| c == '\u{F7}'
    ||| '\u{2C2}' <= c <= '\u{2C5}'
    ||| '\u{2D2}' <= c <= '\u{2DF}'
    ||| '\u{2E5}' <= c <= '\u{2EB}'
    ||| c == '\u{2ED}'
    ||| '\u{2EF}' <= c <= '\u{2FF}'
    ||| c == '\u{375}'
    ||| c == '\u{37E}'
    ||| '\u{384}' <= c <= '\u{385}'
    ||| c == '\u{387}'
    ||| c == '\u{3F6}'
    ||| c == '\u{482}'
    ||| '\u{55A}' <= c <= '\u{55F}'
    ||| '\u{589}' <= c <= '\u{58A}'
    ||| '\u{58D}' <= c <= '\u{58F}'
    ||| c == '\u{5BE}'
    ||| c == '\u{5C0}'
    ||| c == '\u{5C3}'
    ||| c == '\u{5C6}'
    ||| '\u{5F3}' <= c <= '\u{5F4}'
    ||| '\u{606}' <= c <= '\u{60F}'
    ||| c == '\u{61B}'
    ||| '\u{61D}' <= c <= '\u{61F}'
    ||| '\u{66A}' <= c <= '\u{66D}'
    ||| c == '\u{6D4}'
    ||| c == '\u{6DE}'
    ||| c == '\u{6E9}'
    ||| '\u{6FD}' <= c <= '\u{6FE}'
    ||| '\u{700}' <= c <= '\u{70D}'
    ||| '\u{7F6}' <= c <= '\u{7F9}'
    ||| '\u{7FE}' <= c <= '\u{7FF}'
}

/// [`is_punct_or_symbol`] on the code points U+0800 to U+1FFF.
pub open spec fn punct_or_symbol_0800_1fff(c: char) -> bool {
    ||| '\u{830}' <= c <= '\u{83E}'
    ||| c == '\u{85E}'
    ||| c == '\u{888}'
    ||| '\u{964}' <= c <= '\u{965}'
    ||| c == '\u{970}'
    ||| '\u{9F2}' <= c <= '\u{9F3}'
    ||| '\u{9FA}' <= c <= '\u{9FB}'
    ||| c == '\u{9FD}'
    ||| c == '\u{A76}'
    ||| '\u{AF0}' <= c <= '\u{AF1}'
    ||| c == '\u{B70}'
    ||| '\u{BF3}' <= c <= '\u{BFA}'
    ||| c == '\u{C77}'
    ||| c == '\u{C7F}'
    ||| c == '\u{C84}'
    ||| c == '\u{D4F}'
    ||| c == '\u{D79}'
    ||| c == '\u{DF4}'
    ||| c == '\u{E3F}'
    ||| c == '\u{E4F}'
    ||| '\u{E5A}' <= c <= '\u{E5B}'
    ||| '\u{F01}' <= c <= '\u{F17}'
    ||| '\u{F1A}' <= c <= '\u{F1F}'
    ||| c == '\u{F34}'
    ||| c == '\u{F36}'
    ||| c == '\u{F38}'
    ||| '\u{F3A}' <= c <= '\u{F3D}'
    ||| c == '\u{F85}'
    ||| '\u{FBE}' <= c <= '\u{FC5}'
    ||| '\u{FC7}' <= c <= '\u{FCC}'
    ||| '\u{FCE}' <= c <= '\u{FDA}'
    ||| '\u{104A}' <= c <= '\u{104F}'
    ||| '\u{109E}' <= c <= '\u{109F}'
    ||| c == '\u{10FB}'
    ||| '\u{1360}' <= c <= '\u{1368}'
    ||| '\u{1390}' <= c <= '\u{1399}'
    ||| c == '\u{1400}'
    ||| '\u{166D}' <= c <= '\u{166E}'
    ||| '\u{169B}' <= c <= '\u{169C}'
    ||| '\u{16EB}' <= c <= '\u{16ED}'
    ||| '\u{1735}' <= c <= '\u{1736}'
    ||| '\u{17D4}' <= c <= '\u{17D6}'
    ||| '\u{17D8}' <= c <= '\u{17DB}'
    ||| '\u{1800}' <= c <= '\u{180A}'
    ||| c == '\u{1940}'
    ||| '\u{1944}' <= c <= '\u{1945}'
    ||| '\u{19DE}' <= c <= '\u{19FF}'
    ||| '\u{1A1E}' <= c <= '\u{1A1F}'
    ||| '\u{1AA0}' <= c <= '\u{1AA6}'
    ||| '\u{1AA8}' <= c <= '\u{1AAD}'
    ||| '\u{1B5A}' <= c <= '\u{1B6A}'
    ||| '\u{1B74}' <= c <= '\u{1B7E}'
    ||| '\u{1BFC}' <= c <= '\u{1BFF}'
    ||| '\u{1C3B}' <= c <= '\u{1C3F}'
    ||| '\u{1C7E}' <= c <= '\u{1C7F}'
    ||| '\u{1CC0}' <= c <= '\u{1CC7}'
    ||| c == '\u{1CD3}'
    ||| c == '\u{1FBD}'
    ||| '\u{1FBF}' <= c <= '\u{1FC1}'
    ||| '\u{1FCD}' <= c <= '\u{1FCF}'
    ||| '\u{1FDD}' <= c <= '\u{1FDF}'
    ||| '\u{1FED}' <= c <= '\u{1FEF}'
    ||| '\u{1FFD}' <= c <= '\u{1FFE}'
}

/// [`is_punct_or_symbol`] on the code points U+2000 to U+2DFF.
pub open spec fn punct_or_symbol_2000_2dff(c: char) -> bool {
    ||| '\u{2010}' <= c <= '\u{2027}'
    ||| '\u{2030}' <= c <= '\u{205E}'
    ||| '\u{207A}' <= c <= '\u{207E}'
    ||| '\u{208A}' <= c <= '\u{208E}'
    ||| '\u{20A0}' <= c <= '\u{20C0}'
    ||| '\u{2100}' <= c <= '\u{2101}'
    ||| '\u{2103}' <= c <= '\u{2106}'
    ||| '\u{2108}' <= c <= '\u{2109}'
    ||| c == '\u{2114}'
    ||| '\u{2116}' <= c <= '\u{2118}'
    ||| '\u{211E}' <= c <= '\u{2123}'
    ||| c == '\u{2125}'
    ||| c == '\u{2127}'
    ||| c == '\u{2129}'
    ||| c == '\u{212E}'
    ||| '\u{213A}' <= c <= '\u{213B}'
    ||| '\u{2140}' <= c <= '\u{2144}'
    ||| '\u{214A}' <= c <= '\u{214D}'
    ||| c == '\u{214F}'
    ||| '\u{218A}' <= c <= '\u{218B}'
    ||| '\u{2190}' <= c <= '\u{2426}'
    ||| '\u{2440}' <= c <= '\u{244A}'
    ||| '\u{249C}' <= c <= '\u{24E9}'
    ||| '\u{2500}' <= c <= '\u{2775}'
    ||| '\u{2794}' <= c <= '\u{2B73}'
    ||| '\u{2B76}' <= c <= '\u{2B95}'
    ||| '\u{2B97}' <= c <= '\u{2BFF}'
    ||| '\u{2CE5}' <= c <= '\u{2CEA}'
    ||| '\u{2CF9}' <= c <= '\u{2CFC}'
    ||| '\u{2CFE}' <= c <= '\u{2CFF}'
    ||| c == '\u{2D70}'
}

/// [`is_punct_or_symbol`] on the code points U+2E00 to U+9FFF.
pub open spec fn punct_or_symbol_2e00_9fff(c: char) -> bool {
    ||| '\u{2E00}' <= c <= '\u{2E2E}'
    ||| '\u{2E30}' <= c <= '\u{2E5D}'
    ||| '\u{2E80}' <= c <= '\u{2E99}'
    ||| '\u{2E9B}' <= c <= '\u{2EF3}'
    ||| '\u{2F00}' <= c <= '\u{2FD5}'
    ||| '\u{2FF0}' <= c <= '\u{2FFB}'
    ||| '\u{3001}' <= c <= '\u{3004}'
    ||| '\u{3008}' <= c <= '\u{3020}'
    ||| c == '\u{3030}'
    ||| '\u{3036}' <= c <= '\u{3037}'
    ||| '\u{303D}' <= c <= '\u{303F}'
    ||| '\u{309B}' <= c <= '\u{309C}'
    ||| c == '\u{30A0}'
    ||| c == '\u{30FB}'
    ||| '\u{3190}' <= c <= '\u{3191}'
    ||| '\u{3196}' <= c <= '\u{319F}'
    ||| '\u{31C0}' <= c <= '\u{31E3}'
    ||| '\u{3200}' <= c <= '\u{321E}'
    ||| '\u{322A}' <= c <= '\u{3247}'
    ||| c == '\u{3250}'
    ||| '\u{3260}' <= c <= '\u{327F}'
    ||| '\u{328A}' <= c <= '\u{32B0}'
    ||| '\u{32C0}' <= c <= '\u{33FF}'
    ||| '\u{4DC0}' <= c <= '\u{4DFF}'
}

/// [`is_punct_or_symbol`] on the code points U+A000 to U+FFFF.
pub open spec fn punct_or_symbol_a000_ffff(c: char) -> bool {
    ||| '\u{A490}' <= c <= '\u{A4C6}'
    ||| '\u{A4FE}' <= c <= '\u{A4FF}'
    ||| '\u{A60D}' <= c <= '\u{A60F}'
    ||| c == '\u{A673}'
    ||| c == '\u{A67E}'
    ||| '\u{A6F2}' <= c <= '\u{A6F7}'
    ||| '\u{A700}' <= c <= '\u{A716}'
    ||| '\u{A720}' <= c <= '\u{A721}'
    ||| '\u{A789}' <= c <= '\u{A78A}'
    ||| '\u{A828}' <= c <= '\u{A82B}'
    ||| '\u{A836}' <= c <= '\u{A839}'
    ||| '\u{A874}' <= c <= '\u{A877}'
    ||| '\u{A8CE}' <= c <= '\u{A8CF}'
    ||| '\u{A8F8}' <= c <= '\u{A8FA}'
    ||| c == '\u{A8FC}'
    ||| '\u{A92E}' <= c <= '\u{A92F}'
    ||| c == '\u{A95F}'
    ||| '\u{A9C1}' <= c <= '\u{A9CD}'
    ||| '\u{A9DE}' <= c <= '\u{A9DF}'
    ||| '\u{AA5C}' <= c <= '\u{AA5F}'
    ||| '\u{AA77}' <= c <= '\u{AA79}'
    ||| '\u{AADE}' <= c <= '\u{AADF}'
    ||| '\u{AAF0}' <= c <= '\u{AAF1}'
    ||| c == '\u{AB5B}'
    ||| '\u{AB6A}' <= c <= '\u{AB6B}'
    ||| c == '\u{ABEB}'
    ||| c == '\u{FB29}'
    ||| '\u{FBB2}' <= c <= '\u{FBC2}'
    ||| '\u{FD3E}' <= c <= '\u{FD4F}'
    ||| c == '\u{FDCF}'
    ||| '\u{FDFC}' <= c <= '\u{FDFF}'
    ||| '\u{FE10}' <= c <= '\u{FE19}'
    ||| '\u{FE30}' <= c <= '\u{FE52}'
    ||| '\u{FE54}' <= c <= '\u{FE66}'
    ||| '\u{FE68}' <= c <= '\u{FE6B}'
    ||| '\u{FF01}' <= c <= '\u{FF0F}'
    ||| '\u{FF1A}' <= c <= '\u{FF20}'
    ||| '\u{FF3B}' <= c <= '\u{FF40}'
    ||| '\u{FF5B}' <= c <= '\u{FF65}'
    ||| '\u{FFE0}' <= c <= '\u{FFE6}'
    ||| '\u{FFE8}' <= c <= '\u{FFEE}'
    ||| '\u{FFFC}' <= c <= '\u{FFFD}'
}

/// [`is_punct_or_symbol`] on the code points U+10000 to U+1EFFF.
pub open spec fn punct_or_symbol_10000_1efff(c: char) -> bool {
    ||| '\u{10100}' <= c <= '\u{10102}'
    ||| '\u{10137}' <= c <= '\u{1013F}'
    ||| '\u{10179}' <= c <= '\u{10189}'
    ||| '\u{1018C}' <= c <= '\u{1018E}'
    ||| '\u{10190}' <= c <= '\u{1019C}'
    ||| c == '\u{101A0}'
    ||| '\u{101D0}' <= c <= '\u{101FC}'
    ||| c == '\u{1039F}'
    ||| c == '\u{103D0}'
    ||| c == '\u{1056F}'
    ||| c == '\u{10857}'
    ||| '\u{10877}' <= c <= '\u{10878}'
    ||| c == '\u{1091F}'
    ||| c == '\u{1093F}'
    ||| '\u{10A50}' <= c <= '\u{10A58}'
    ||| c == '\u{10A7F}'
    ||| c == '\u{10AC8}'
    ||| '\u{10AF0}' <= c <= '\u{10AF6}'
    ||| '\u{10B39}' <= c <= '\u{10B3F}'
    ||| '\u{10B99}' <= c <= '\u{10B9C}'
    ||| c == '\u{10EAD}'
    ||| '\u{10F55}' <= c <= '\u{10F59}'
    ||| '\u{10F86}' <= c <= '\u{10F89}'
    ||| '\u{11047}' <= c <= '\u{1104D}'
    ||| '\u{110BB}' <= c <= '\u{110BC}'
    ||| '\u{110BE}' <= c <= '\u{110C1}'
    ||| '\u{11140}' <= c <= '\u{11143}'
    ||| '\u{11174}' <= c <= '\u{11175}'
    ||| '\u{111C5}' <= c <= '\u{111C8}'
    ||| c == '\u{111CD}'
    ||| c == '\u{111DB}'
    ||| '\u{111DD}' <= c <= '\u{111DF}'
    ||| '\u{11238}' <= c <= '\u{1123D}'
    ||| c == '\u{112A9}'
    ||| '\u{1144B}' <= c <= '\u{1144F}'
    ||| '\u{1145A}' <= c <= '\u{1145B}'
    ||| c == '\u{1145D}'
    ||| c == '\u{114C6}'
    ||| '\u{115C1}' <= c <= '\u{115D7}'
    ||| '\u{11641}' <= c <= '\u{11643}'
    ||| '\u{11660}' <= c <= '\u{1166C}'
    ||| c == '\u{116B9}'
    ||| '\u{1173C}' <= c <= '\u{1173F}'
    ||| c == '\u{1183B}'
    ||| '\u{11944}' <= c <= '\u{11946}'
    ||| c == '\u{119E2}'
    ||| '\u{11A3F}' <= c <= '\u{11A46}'
    ||| '\u{11A9A}' <= c <= '\u{11A9C}'
    ||| '\u{11A9E}' <= c <= '\u{11AA2}'
    ||| '\u{11C41}' <= c <= '\u{11C45}'
    ||| '\u{11C70}' <= c <= '\u{11C71}'
    ||| '\u{11EF7}' <= c <= '\u{11EF8}'
    ||| '\u{11FD5}' <= c <= '\u{11FF1}'
    ||| c == '\u{11FFF}'
    ||| '\u{12470}' <= c <= '\u{12474}'
    ||| '\u{12FF1}' <= c <= '\u{12FF2}'
    ||| '\u{16A6E}' <= c <= '\u{16A6F}'
    ||| c == '\u{16AF5}'
    ||| '\u{16B37}' <= c <= '\u{16B3F}'
    ||| '\u{16B44}' <= c <= '\u{16B45}'
    ||| '\u{16E97}' <= c <= '\u{16E9A}'
    ||| c == '\u{16FE2}'
    ||| c == '\u{1BC9C}'
    ||| c == '\u{1BC9F}'
    ||| '\u{1CF50}' <= c <= '\u{1CFC3}'
    ||| '\u{1D000}' <= c <= '\u{1D0F5}'
    ||| '\u{1D100}' <= c <= '\u{1D126}'
    ||| '\u{1D129}' <= c <= '\u{1D164}'
    ||| '\u{1D16A}' <= c <= '\u{1D16C}'
    ||| '\u{1D183}' <= c <= '\u{1D184}'
    ||| '\u{1D18C}' <= c <= '\u{1D1A9}'
    ||| '\u{1D1AE}' <= c <= '\u{1D1EA}'
    ||| '\u{1D200}' <= c <= '\u{1D241}'
    ||| c == '\u{1D245}'
    ||| '\u{1D300}' <= c <= '\u{1D356}'
    ||| c == '\u{1D6C1}'
    ||| c == '\u{1D6DB}'
    ||| c == '\u{1D6FB}'
    ||| c == '\u{1D715}'
    ||| c == '\u{1D735}'
    ||| c == '\u{1D74F}'
    ||| c == '\u{1D76F}'
    ||| c == '\u{1D789}'
    ||| c == '\u{1D7A9}'
    ||| c == '\u{1D7C3}'
    ||| '\u{1D800}' <= c <= '\u{1D9FF}'
    ||| '\u{1DA37}' <= c <= '\u{1DA3A}'
    ||| '\u{1DA6D}' <= c <= '\u{1DA74}'
    ||| '\u{1DA76}' <= c <= '\u{1DA83}'
    ||| '\u{1DA85}' <= c <= '\u{1DA8B}'
    ||| c == '\u{1E14F}'
    ||| c == '\u{1E2FF}'
    ||| '\u{1E95E}' <= c <= '\u{1E95F}'
    ||| c == '\u{1ECAC}'
    ||| c == '\u{1ECB0}'
    ||| c == '\u{1ED2E}'
    ||| '\u{1EEF0}' <= c <= '\u{1EEF1}'
}

/// [`is_punct_or_symbol`] on the code points U+1F000 to U+10FFFF.
pub open spec fn punct_or_symbol_1f000_10ffff(c: char) -> bool {
    ||| '\u{1F000}' <= c <= '\u{1F02B}'
    ||| '\u{1F030}' <= c <= '\u{1F093}'
    ||| '\u{1F0A0}' <= c <= '\u{1F0AE}'
    ||| '\u{1F0B1}' <= c <= '\u{1F0BF}'
    ||| '\u{1F0C1}' <= c <= '\u{1F0CF}'
    ||| '\u{1F0D1}' <= c <= '\u{1F0F5}'
    ||| '\u{1F10D}' <= c <= '\u{1F1AD}'
    ||| '\u{1F1E6}' <= c <= '\u{1F202}'
    ||| '\u{1F210}' <= c <= '\u{1F23B}'
    ||| '\u{1F240}' <= c <= '\u{1F248}'
    ||| '\u{1F250}' <= c <= '\u{1F251}'
    ||| '\u{1F260}' <= c <= '\u{1F265}'
    ||| '\u{1F300}' <= c <= '\u{1F6D7}'
    ||| '\u{1F6DD}' <= c <= '\u{1F6EC}'
    ||| '\u{1F6F0}' <= c <= '\u{1F6FC}'
    ||| '\u{1F700}' <= c <= '\u{1F773}'
    ||| '\u{1F780}' <= c <= '\u{1F7D8}'
    ||| '\u{1F7E0}' <= c <= '\u{1F7EB}'
    ||| c == '\u{1F7F0}'
    ||| '\u{1F800}' <= c <= '\u{1F80B}'
    ||| '\u{1F810}' <= c <= '\u{1F847}'
    ||| '\u{1F850}' <= c <= '\u{1F859}'
    ||| '\u{1F860}' <= c <= '\u{1F887}'
    ||| '\u{1F890}' <= c <= '\u{1F8AD}'
    ||| '\u{1F8B0}' <= c <= '\u{1F8B1}'
    ||| '\u{1F900}' <= c <= '\u{1FA53}'
    ||| '\u{1FA60}' <= c <= '\u{1FA6D}'
    ||| '\u{1FA70}' <= c <= '\u{1FA74}'
    ||| '\u{1FA78}' <= c <= '\u{1FA7C}'
    ||| '\u{1FA80}' <= c <= '\u{1FA86}'
    ||| '\u{1FA90}' <= c <= '\u{1FAAC}'
    ||| '\u{1FAB0}' <= c <= '\u{1FABA}'
    ||| '\u{1FAC0}' <= c <= '\u{1FAC5}'
    ||| '\u{1FAD0}' <= c <= '\u{1FAD9}'
    ||| '\u{1FAE0}' <= c <= '\u{1FAE7}'
    ||| '\u{1FAF0}' <= c <= '\u{1FAF6}'
    ||| '\u{1FB00}' <= c <= '\u{1FB92}'
    ||| '\u{1FB94}' <= c <= '\u{1FBCA}'
}

/// Whether `c` is punctuation or a symbol (see [`is_punct_or_symbol`]).
pub fn punct_or_symbol(c: char) -> (r: bool)
    ensures
        r == is_punct_or_symbol(c),
{
    if c <= '\u{7FF}' {
        in_punct_or_symbol_0000_07ff(c)
    } else if c <= '\u{1FFF}' {
        in_punct_or_symbol_0800_1fff(c)
    } else if c <= '\u{2DFF}' {
        in_punct_or_symbol_2000_2dff(c)
    } else if c <= '\u{9FFF}' {
        in_punct_or_symbol_2e00_9fff(c)
    } else if c <= '\u{FFFF}' {
        in_punct_or_symbol_a000_ffff(c)
    } else if c <= '\u{1EFFF}' {
        in_punct_or_symbol_10000_1efff(c)
    } else {
        in_punct_or_symbol_1f000_10ffff(c)
    }
}

fn in_punct_or_symbol_0000_07ff(c: char) -> (r: bool)
    ensures
        r == punct_or_symbol_0000_07ff(c),
{
    ('\u{21}' <= c && c <= '\u{2F}')
        || ('\u{3A}' <= c && c <= '\u{40}')
        || ('\u{5B}' <= c && c <= '\u{60}')
        || ('\u{7B}' <= c && c <= '\u{7E}')
        || ('\u{A1}' <= c && c <= '\u{A9}')
        || ('\u{AB}' <= c && c <= '\u{AC}')
        || ('\u{AE}' <= c && c <= '\u{B1}')
        || c == '\u{B4}'
        || ('\u{B6}' <= c && c <= '\u{B8}')
        || c == '\u{BB}'
        || c == '\u{BF}'
        || c == '\u{D7}'
        || c == '\u{F7}'
        || ('\u{2C2}' <= c && c <= '\u{2C5}')
        || ('\u{2D2}' <= c && c <= '\u{2DF}')
        || ('\u{2E5}' <= c && c <= '\u{2EB}')
        || c == '\u{2ED}'
        || ('\u{2EF}' <= c && c <= '\u{2FF}')
        || c == '\u{375}'
        || c == '\u{37E}'
        || ('\u{384}' <= c && c <= '\u{385}')
        || c == '\u{387}'
        || c == '\u{3F6}'
        || c == '\u{482}'
        || ('\u{55A}' <= c && c <= '\u{55F}')
        || ('\u{589}' <= c && c <= '\u{58A}')
        || ('\u{58D}' <= c && c <= '\u{58F}')
        || c == '\u{5BE}'
        || c == '\u{5C0}'
        || c == '\u{5C3}'
        || c == '\u{5C6}'
        || ('\u{5F3}' <= c && c <= '\u{5F4}')
        || ('\u{606}' <= c && c <= '\u{60F}')
        || c == '\u{61B}'
        || ('\u{61D}' <= c && c <= '\u{61F}')
        || ('\u{66A}' <= c && c <= '\u{66D}')
        || c == '\u{6D4}'
        || c == '\u{6DE}'
        || c == '\u{6E9}'
        || ('\u{6FD}' <= c && c <= '\u{6FE}')
        || ('\u{700}' <= c && c <= '\u{70D}')
        || ('\u{7F6}' <= c && c <= '\u{7F9}')
        || ('\u{7FE}' <= c && c <= '\u{7FF}')
}

fn in_punct_or_symbol_0800_1fff(c: char) -> (r: bool)
    ensures
        r == punct_or_symbol_0800_1fff(c),
{
    ('\u{830}' <= c && c <= '\u{83E}')
        || c == '\u{85E}'
        || c == '\u{888}'
        || ('\u{964}' <= c && c <= '\u{965}')
        || c == '\u{970}'
        || ('\u{9F2}' <= c && c <= '\u{9F3}')
        || ('\u{9FA}' <= c && c <= '\u{9FB}')
        || c == '\u{9FD}'
        || c == '\u{A76}'
        || ('\u{AF0}' <= c && c <= '\u{AF1}')
        || c == '\u{B70}'
        || ('\u{BF3}' <= c && c <= '\u{BFA}')
        || c == '\u{C77}'
        || c == '\u{C7F}'
        || c == '\u{C84}'
        || c == '\u{D4F}'
        || c == '\u{D79}'
        || c == '\u{DF4}'
        || c == '\u{E3F}'
        || c == '\u{E4F}'
        || ('\u{E5A}' <= c && c <= '\u{E5B}')
        || ('\u{F01}' <= c && c <= '\u{F17}')
        || ('\u{F1A}' <= c && c <= '\u{F1F}')
        || c == '\u{F34}'
        || c == '\u{F36}'
        || c == '\u{F38}'
        || ('\u{F3A}' <= c && c <= '\u{F3D}')
        || c == '\u{F85}'
        || ('\u{FBE}' <= c && c <= '\u{FC5}')
        || ('\u{FC7}' <= c && c <= '\u{FCC}')
        || ('\u{FCE}' <= c && c <= '\u{FDA}')
        || ('\u{104A}' <= c && c <= '\u{104F}')
        || ('\u{109E}' <= c && c <= '\u{109F}')
        || c == '\u{10FB}'
        || ('\u{1360}' <= c && c <= '\u{1368}')
        || ('\u{1390}' <= c && c <= '\u{1399}')
        || c == '\u{1400}'
        || ('\u{166D}' <= c && c <= '\u{166E}')
        || ('\u{169B}' <= c && c <= '\u{169C}')
        || ('\u{16EB}' <= c && c <= '\u{16ED}')
        || ('\u{1735}' <= c && c <= '\u{1736}')
        || ('\u{17D4}' <= c && c <= '\u{17D6}')
        || ('\u{17D8}' <= c && c <= '\u{17DB}')
        || ('\u{1800}' <= c && c <= '\u{180A}')
        || c == '\u{1940}'
        || ('\u{1944}' <= c && c <= '\u{1945}')
        || ('\u{19DE}' <= c && c <= '\u{19FF}')
        || ('\u{1A1E}' <= c && c <= '\u{1A1F}')
        || ('\u{1AA0}' <= c && c <= '\u{1AA6}')
        || ('\u{1AA8}' <= c && c <= '\u{1AAD}')
        || ('\u{1B5A}' <= c && c <= '\u{1B6A}')
        || ('\u{1B74}' <= c && c <= '\u{1B7E}')
        || ('\u{1BFC}' <= c && c <= '\u{1BFF}')
        || ('\u{1C3B}' <= c && c <= '\u{1C3F}')
        || ('\u{1C7E}' <= c && c <= '\u{1C7F}')
        || ('\u{1CC0}' <= c && c <= '\u{1CC7}')
        || c == '\u{1CD3}'
        || c == '\u{1FBD}'
        || ('\u{1FBF}' <= c && c <= '\u{1FC1}')
        || ('\u{1FCD}' <= c && c <= '\u{1FCF}')
        || ('\u{1FDD}' <= c && c <= '\u{1FDF}')
        || ('\u{1FED}' <= c && c <= '\u{1FEF}')
        || ('\u{1FFD}' <= c && c <= '\u{1FFE}')
}

fn in_punct_or_symbol_2000_2dff(c: char) -> (r: bool)
    ensures
        r == punct_or_symbol_2000_2dff(c),
{
    ('\u{2010}' <= c && c <= '\u{2027}')
        || ('\u{2030}' <= c && c <= '\u{205E}')
        || ('\u{207A}' <= c && c <= '\u{207E}')
        || ('\u{208A}' <= c && c <= '\u{208E}')
        || ('\u{20A0}' <= c && c <= '\u{20C0}')
        || ('\u{2100}' <= c && c <= '\u{2101}')
        || ('\u{2103}' <= c && c <= '\u{2106}')
        || ('\u{2108}' <= c && c <= '\u{2109}')
        || c == '\u{2114}'
        || ('\u{2116}' <= c && c <= '\u{2118}')
        || ('\u{211E}' <= c && c <= '\u{2123}')
        || c == '\u{2125}'
        || c == '\u{2127}'
        || c == '\u{2129}'
        || c == '\u{212E}'
        || ('\u{213A}' <= c && c <= '\u{213B}')
        || ('\u{2140}' <= c && c <= '\u{2144}')
        || ('\u{214A}' <= c && c <= '\u{214D}')
        || c == '\u{214F}'
        || ('\u{218A}' <= c && c <= '\u{218B}')
        || ('\u{2190}' <= c && c <= '\u{2426}')
        || ('\u{2440}' <= c && c <= '\u{244A}')
        || ('\u{249C}' <= c && c <= '\u{24E9}')
        || ('\u{2500}' <= c && c <= '\u{2775}')
        || ('\u{2794}' <= c && c <= '\u{2B73}')
        || ('\u{2B76}' <= c && c <= '\u{2B95}')
        || ('\u{2B97}' <= c && c <= '\u{2BFF}')
        || ('\u{2CE5}' <= c && c <= '\u{2CEA}')
        || ('\u{2CF9}' <= c && c <= '\u{2CFC}')
        || ('\u{2CFE}' <= c && c <= '\u{2CFF}')
        || c == '\u{2D70}'
}

fn in_punct_or_symbol_2e00_9fff(c: char) -> (r: bool)
    ensures
        r == punct_or_symbol_2e00_9fff(c),
{
    ('\u{2E00}' <= c && c <= '\u{2E2E}')
        || ('\u{2E30}' <= c && c <= '\u{2E5D}')
        || ('\u{2E80}' <= c && c <= '\u{2E99}')
        || ('\u{2E9B}' <= c && c <= '\u{2EF3}')
        || ('\u{2F00}' <= c && c <= '\u{2FD5}')
        || ('\u{2FF0}' <= c && c <= '\u{2FFB}')
        || ('\u{3001}' <= c && c <= '\u{3004}')
        || ('\u{3008}' <= c && c <= '\u{3020}')
        || c == '\u{3030}'
        || ('\u{3036}' <= c && c <= '\u{3037}')
        || ('\u{303D}' <= c && c <= '\u{303F}')
        || ('\u{309B}' <= c && c <= '\u{309C}')
        || c == '\u{30A0}'
        || c == '\u{30FB}'
        || ('\u{3190}' <= c && c <= '\u{3191}')
        || ('\u{3196}' <= c && c <= '\u{319F}')
        || ('\u{31C0}' <= c && c <= '\u{31E3}')
        || ('\u{3200}' <= c && c <= '\u{321E}')
        || ('\u{322A}' <= c && c <= '\u{3247}')
        || c == '\u{3250}'
        || ('\u{3260}' <= c && c <= '\u{327F}')
        || ('\u{328A}' <= c && c <= '\u{32B0}')
        || ('\u{32C0}' <= c && c <= '\u{33FF}')
        || ('\u{4DC0}' <= c && c <= '\u{4DFF}')
}

fn in_punct_or_symbol_a000_ffff(c: char) -> (r: bool)
    ensures
        r == punct_or_symbol_a000_ffff(c),
{
    ('\u{A490}' <= c && c <= '\u{A4C6}')
        || ('\u{A4FE}' <= c && c <= '\u{A4FF}')
        || ('\u{A60D}' <= c && c <= '\u{A60F}')
        || c == '\u{A673}'
        || c == '\u{A67E}'
        || ('\u{A6F2}' <= c && c <= '\u{A6F7}')
        || ('\u{A700}' <= c && c <= '\u{A716}')
        || ('\u{A720}' <= c && c <= '\u{A721}')
        || ('\u{A789}' <= c && c <= '\u{A78A}')
        || ('\u{A828}' <= c && c <= '\u{A82B}')
        || ('\u{A836}' <= c && c <= '\u{A839}')
        || ('\u{A874}' <= c && c <= '\u{A877}')
        || ('\u{A8CE}' <= c && c <= '\u{A8CF}')
        || ('\u{A8F8}' <= c && c <= '\u{A8FA}')
        || c == '\u{A8FC}'
        || ('\u{A92E}' <= c && c <= '\u{A92F}')
        || c == '\u{A95F}'
        || ('\u{A9C1}' <= c && c <= '\u{A9CD}')
        || ('\u{A9DE}' <= c && c <= '\u{A9DF}')
        || ('\u{AA5C}' <= c && c <= '\u{AA5F}')
        || ('\u{AA77}' <= c && c <= '\u{AA79}')
        || ('\u{AADE}' <= c && c <= '\u{AADF}')
        || ('\u{AAF0}' <= c && c <= '\u{AAF1}')
        || c == '\u{AB5B}'
        || ('\u{AB6A}' <= c && c <= '\u{AB6B}')
        || c == '\u{ABEB}'
        || c == '\u{FB29}'
        || ('\u{FBB2}' <= c && c <= '\u{FBC2}')
        || ('\u{FD3E}' <= c && c <= '\u{FD4F}')
        || c == '\u{FDCF}'
        || ('\u{FDFC}' <= c && c <= '\u{FDFF}')
        || ('\u{FE10}' <= c && c <= '\u{FE19}')
        || ('\u{FE30}' <= c && c <= '\u{FE52}')
        || ('\u{FE54}' <= c && c <= '\u{FE66}')
        || ('\u{FE68}' <= c && c <= '\u{FE6B}')
        || ('\u{FF01}' <= c && c <= '\u{FF0F}')
        || ('\u{FF1A}' <= c && c <= '\u{FF20}')
        || ('\u{FF3B}' <= c && c <= '\u{FF40}')
        || ('\u{FF5B}' <= c && c <= '\u{FF65}')
        || ('\u{FFE0}' <= c && c <= '\u{FFE6}')
        || ('\u{FFE8}' <= c && c <= '\u{FFEE}')
        || ('\u{FFFC}' <= c && c <= '\u{FFFD}')
}

fn in_punct_or_symbol_10000_1efff(c: char) -> (r: bool)
    ensures
        r == punct_or_symbol_10000_1efff(c),
{
    ('\u{10100}' <= c && c <= '\u{10102}')
        || ('\u{10137}' <= c && c <= '\u{1013F}')
        || ('\u{10179}' <= c && c <= '\u{10189}')
        || ('\u{1018C}' <= c && c <= '\u{1018E}')
        || ('\u{10190}' <= c && c <= '\u{1019C}')
        || c == '\u{101A0}'
        || ('\u{101D0}' <= c && c <= '\u{101FC}')
        || c == '\u{1039F}'
        || c == '\u{103D0}'
        || c == '\u{1056F}'
        || c == '\u{10857}'
        || ('\u{10877}' <= c && c <= '\u{10878}')
        || c == '\u{1091F}'
        || c == '\u{1093F}'
        || ('\u{10A50}' <= c && c <= '\u{10A58}')
        || c == '\u{10A7F}'
        || c == '\u{10AC8}'
        || ('\u{10AF0}' <= c && c <= '\u{10AF6}')
        || ('\u{10B39}' <= c && c <= '\u{10B3F}')
        || ('\u{10B99}' <= c && c <= '\u{10B9C}')
        || c == '\u{10EAD}'
        || ('\u{10F55}' <= c && c <= '\u{10F59}')
        || ('\u{10F86}' <= c && c <= '\u{10F89}')
        || ('\u{11047}' <= c && c <= '\u{1104D}')
        || ('\u{110BB}' <= c && c <= '\u{110BC}')
        || ('\u{110BE}' <= c && c <= '\u{110C1}')
        || ('\u{11140}' <= c && c <= '\u{11143}')
        || ('\u{11174}' <= c && c <= '\u{11175}')
        || ('\u{111C5}' <= c && c <= '\u{111C8}')
        || c == '\u{111CD}'
        || c == '\u{111DB}'
        || ('\u{111DD}' <= c && c <= '\u{111DF}')
        || ('\u{11238}' <= c && c <= '\u{1123D}')
        || c == '\u{112A9}'
        || ('\u{1144B}' <= c && c <= '\u{1144F}')
        || ('\u{1145A}' <= c && c <= '\u{1145B}')
        || c == '\u{1145D}'
        || c == '\u{114C6}'
        || ('\u{115C1}' <= c && c <= '\u{115D7}')
        || ('\u{11641}' <= c && c <= '\u{11643}')
        || ('\u{11660}' <= c && c <= '\u{1166C}')
        || c == '\u{116B9}'
        || ('\u{1173C}' <= c && c <= '\u{1173F}')
        || c == '\u{1183B}'
        || ('\u{11944}' <= c && c <= '\u{11946}')
        || c == '\u{119E2}'
        || ('\u{11A3F}' <= c && c <= '\u{11A46}')
        || ('\u{11A9A}' <= c && c <= '\u{11A9C}')
        || ('\u{11A9E}' <= c && c <= '\u{11AA2}')
        || ('\u{11C41}' <= c && c <= '\u{11C45}')
        || ('\u{11C70}' <= c && c <= '\u{11C71}')
        || ('\u{11EF7}' <= c && c <= '\u{11EF8}')
        || ('\u{11FD5}' <= c && c <= '\u{11FF1}')
        || c == '\u{11FFF}'
        || ('\u{12470}' <= c && c <= '\u{12474}')
        || ('\u{12FF1}' <= c && c <= '\u{12FF2}')
        || ('\u{16A6E}' <= c && c <= '\u{16A6F}')
        || c == '\u{16AF5}'
        || ('\u{16B37}' <= c && c <= '\u{16B3F}')
        || ('\u{16B44}' <= c && c <= '\u{16B45}')
        || ('\u{16E97}' <= c && c <= '\u{16E9A}')
        || c == '\u{16FE2}'
        || c == '\u{1BC9C}'
        || c == '\u{1BC9F}'
        || ('\u{1CF50}' <= c && c <= '\u{1CFC3}')
        || ('\u{1D000}' <= c && c <= '\u{1D0F5}')
        || ('\u{1D100}' <= c && c <= '\u{1D126}')
        || ('\u{1D129}' <= c && c <= '\u{1D164}')
        || ('\u{1D16A}' <= c && c <= '\u{1D16C}')
        || ('\u{1D183}' <= c && c <= '\u{1D184}')
        || ('\u{1D18C}' <= c && c <= '\u{1D1A9}')
        || ('\u{1D1AE}' <= c && c <= '\u{1D1EA}')
        || ('\u{1D200}' <= c && c <= '\u{1D241}')
        || c == '\u{1D245}'
        || ('\u{1D300}' <= c && c <= '\u{1D356}')
        || c == '\u{1D6C1}'
        || c == '\u{1D6DB}'
        || c == '\u{1D6FB}'
        || c == '\u{1D715}'
        || c == '\u{1D735}'
        || c == '\u{1D74F}'
        || c == '\u{1D76F}'
        || c == '\u{1D789}'
        || c == '\u{1D7A9}'
        || c == '\u{1D7C3}'
        || ('\u{1D800}' <= c && c <= '\u{1D9FF}')
        || ('\u{1DA37}' <= c && c <= '\u{1DA3A}')
        || ('\u{1DA6D}' <= c && c <= '\u{1DA74}')
        || ('\u{1DA76}' <= c && c <= '\u{1DA83}')
        || ('\u{1DA85}' <= c && c <= '\u{1DA8B}')
        || c == '\u{1E14F}'
        || c == '\u{1E2FF}'
        || ('\u{1E95E}' <= c && c <= '\u{1E95F}')
        || c == '\u{1ECAC}'
        || c == '\u{1ECB0}'
        || c == '\u{1ED2E}'
        || ('\u{1EEF0}' <= c && c <= '\u{1EEF1}')
}

fn in_punct_or_symbol_1f000_10ffff(c: char) -> (r: bool)
    ensures
        r == punct_or_symbol_1f000_10ffff(c),
{
    ('\u{1F000}' <= c && c <= '\u{1F02B}')
        || ('\u{1F030}' <= c && c <= '\u{1F093}')
        || ('\u{1F0A0}' <= c && c <= '\u{1F0AE}')
        || ('\u{1F0B1}' <= c && c <= '\u{1F0BF}')
        || ('\u{1F0C1}' <= c && c <= '\u{1F0CF}')
        || ('\u{1F0D1}' <= c && c <= '\u{1F0F5}')
        || ('\u{1F10D}' <= c && c <= '\u{1F1AD}')
        || ('\u{1F1E6}' <= c && c <= '\u{1F202}')
        || ('\u{1F210}' <= c && c <= '\u{1F23B}')
        || ('\u{1F240}' <= c && c <= '\u{1F248}')
        || ('\u{1F250}' <= c && c <= '\u{1F251}')
        || ('\u{1F260}' <= c && c <= '\u{1F265}')
        || ('\u{1F300}' <= c && c <= '\u{1F6D7}')
        || ('\u{1F6DD}' <= c && c <= '\u{1F6EC}')
        || ('\u{1F6F0}' <= c && c <= '\u{1F6FC}')
        || ('\u{1F700}' <= c && c <= '\u{1F773}')
        || ('\u{1F780}' <= c && c <= '\u{1F7D8}')
        || ('\u{1F7E0}' <= c && c <= '\u{1F7EB}')
        || c == '\u{1F7F0}'
        || ('\u{1F800}' <= c && c <= '\u{1F80B}')
        || ('\u{1F810}' <= c && c <= '\u{1F847}')
        || ('\u{1F850}' <= c && c <= '\u{1F859}')
        || ('\u{1F860}' <= c && c <= '\u{1F887}')
        || ('\u{1F890}' <= c && c <= '\u{1F8AD}')
        || ('\u{1F8B0}' <= c && c <= '\u{1F8B1}')
        || ('\u{1F900}' <= c && c <= '\u{1FA53}')
        || ('\u{1FA60}' <= c && c <= '\u{1FA6D}')
        || ('\u{1FA70}' <= c && c <= '\u{1FA74}')
        || ('\u{1FA78}' <= c && c <= '\u{1FA7C}')
        || ('\u{1FA80}' <= c && c <= '\u{1FA86}')
        || ('\u{1FA90}' <= c && c <= '\u{1FAAC}')
        || ('\u{1FAB0}' <= c && c <= '\u{1FABA}')
        || ('\u{1FAC0}' <= c && c <= '\u{1FAC5}')
        || ('\u{1FAD0}' <= c && c <= '\u{1FAD9}')
        || ('\u{1FAE0}' <= c && c <= '\u{1FAE7}')
        || ('\u{1FAF0}' <= c && c <= '\u{1FAF6}')
        || ('\u{1FB00}' <= c && c <= '\u{1FB92}')
        || ('\u{1FB94}' <= c && c <= '\u{1FBCA}')
}

/// The classes of characters that are trimmed from the ends of a text.
#[derive(Clone, Copy, Debug, PartialEq, Eq)]
pub enum CharClass {
    /// `char::is_whitespace`.
    Whitespace,
    /// Punctuation, symbols and whitespace.
    EdgeJunk,
    /// The character `'#'`.
    Hash,
}

pub open spec fn in_class(k: CharClass, c: char) -> bool {
    match k {
        CharClass::Whitespace => is_white(c),
        CharClass::EdgeJunk => is_punct_or_symbol(c) || is_white(c),
        CharClass::Hash => c == '#',
    }
}

pub fn class_contains(k: CharClass, c: char) -> (r: bool)
    ensures
        r == in_class(k, c),
{
    match k {
        CharClass::Whitespace => is_whitespace(c),
        CharClass::EdgeJunk => punct_or_symbol(c) || is_whitespace(c),
        CharClass::Hash => c == '#',
    }
}

/// `s` without its leading characters of class `k`.
pub open spec fn skip_leading(s: Seq<char>, k: CharClass) -> Seq<char>
    decreases s.len(),
{
    if s.len() > 0 && in_class(k, s[0]) {
        skip_leading(s.drop_first(), k)
    } else {
        s
    }
}

/// `s` without its trailing characters of class `k`.
pub open spec fn skip_trailing(s: Seq<char>, k: CharClass) -> Seq<char>
    decreases s.len(),
{
    if s.len() > 0 && in_class(k, s.last()) {
        skip_trailing(s.drop_last(), k)
    } else {
        s
    }
}

/// `s` without the characters of class `k` at either end.
pub open spec fn trim_class(s: Seq<char>, k: CharClass) -> Seq<char> {
    skip_trailing(skip_leading(s, k), k)
}

/// `str::trim`.
pub open spec fn trim_ws(s: Seq<char>) -> Seq<char> {
    trim_class(s, CharClass::Whitespace)
}

pub proof fn lemma_skip_leading(s: Seq<char>, k: CharClass, n: int)
    requires
        0 <= n <= s.len(),
        forall|i: int| 0 <= i < n ==> in_class(k, #[trigger] s[i]),
        n == s.len() || !in_class(k, s[n]),
    ensures
        skip_leading(s, k) == s.subrange(n, s.len() as int),
    decreases n,
{
    if n > 0 {
        let t = s.drop_first();
        assert forall|i: int| 0 <= i < n - 1 implies in_class(k, #[trigger] t[i]) by {
            assert(t[i] == s[i + 1]);
        }
        lemma_skip_leading(t, k, n - 1);
        assert(t.subrange(n - 1, t.len() as int) == s.subrange(n, s.len() as int));
    } else {
        assert(s.subrange(0, s.len() as int) == s);
    }
}

pub proof fn lemma_skip_trailing(s: Seq<char>, k: CharClass, n: int)
    requires
        0 <= n <= s.len(),
        forall|i: int| n <= i < s.len() ==> in_class(k, #[trigger] s[i]),
        n == 0 || !in_class(k, s[n - 1]),
    ensures
        skip_trailing(s, k) == s.subrange(0, n),
    decreases s.len() - n,
{
    if n < s.len() {
        let t = s.drop_last();
        assert forall|i: int| n <= i < t.len() implies in_class(k, #[trigger] t[i]) by {
            assert(t[i] == s[i]);
        }
        lemma_skip_trailing(t, k, n);
        assert(t.subrange(0, n) == s.subrange(0, n));
    } else {
        assert(s.subrange(0, n) == s);
    }
}

/// The bounds `(a, b)` with `v[a..b]` equal to `v` trimmed of class `k`.
pub fn trim_bounds(v: &[char], k: CharClass) -> (r: (usize, usize))
    ensures
        r.0 <= r.1 <= v@.len(),
        v@.subrange(r.0 as int, r.1 as int) == trim_class(v@, k),
{
    let mut a: usize = 0;
    while a < v.len() && class_contains(k, v[a])
        invariant
            a <= v@.len(),
            forall|i: int| 0 <= i < a ==> in_class(k, #[trigger] v@[i]),
        decreases v@.len() - a,
    {
        a += 1;
    }
    proof {
        lemma_skip_leading(v@, k, a as int);
    }
    let ghost lead = v@.subrange(a as int, v@.len() as int);
    let mut b: usize = v.len();
    while b > a && class_contains(k, v[b - 1])
        invariant
            a <= b <= v@.len(),
            forall|i: int| b <= i < v@.len() ==> in_class(k, #[trigger] v@[i]),
        decreases b,
    {
        b -= 1;
    }
    proof {
        let m = (b - a) as int;
        assert forall|i: int| m <= i < lead.len() implies in_class(k, #[trigger] lead[i]) by {
            assert(lead[i] == v@[a + i]);
        }
        if m > 0 {
            assert(lead[m - 1] == v@[b - 1]);
        }
        lemma_skip_trailing(lead, k, m);
        assert(lead.subrange(0, m) == v@.subrange(a as int, b as int));
    }
    (a, b)
}

/// `str::trim`: the text without leading and trailing whitespace.
pub fn trim_text(s: &str) -> (r: String)
    ensures
        r@ == trim_ws(s@),
{
    let v = chars_of(s);
    let (a, b) = trim_bounds(v.as_slice(), CharClass::Whitespace);
    string_of_range(v.as_slice(), a, b)
}

// ---------------------------------------------------------------------------
// Substrings
// ---------------------------------------------------------------------------

/// `pat` occurs in `s` starting at index `i`.
pub open spec fn occurs_at(s: Seq<char>, pat: Seq<char>, i: int) -> bool {
    0 <= i && i + pat.len() <= s.len() && s.subrange(i, i + pat.len()) == pat
}

/// `pat` occurs somewhere in `s`.
pub open spec fn contains_seq(s: Seq<char>, pat: Seq<char>) -> bool {
    exists|i: int| occurs_at(s, pat, i)
}

pub open spec fn starts_with(s: Seq<char>, pat: Seq<char>) -> bool {
    occurs_at(s, pat, 0)
}

pub open spec fn ends_with(s: Seq<char>, pat: Seq<char>) -> bool {
    occurs_at(s, pat, s.len() - pat.len())
}

/// Whether `pat` occurs in `s` at index `i`.
pub fn matches_at(s: &[char], pat: &[char], i: usize) -> (r: bool)
    ensures
        r == occurs_at(s@, pat@, i as int),
{
    if i > s.len() || pat.len() > s.len() - i {
        return false;
    }
    let mut j: usize = 0;
    while j < pat.len()
        invariant
            i + pat.len() <= s.len(),
            j <= pat@.len(),
            forall|t: int| 0 <= t < j ==> s@[i + t] == pat@[t],
        decreases pat@.len() - j,
    {
        if s[i + j] != pat[j] {
            assert(s@.subrange(i as int, i + pat@.len())[j as int] != pat@[j as int]);
            return false;
        }
        j += 1;
    }
    assert(s@.subrange(i as int, i + pat@.len()) =~= pat@);
    true
}

/// The first index at or after `from` where `pat` occurs in `s`.
pub fn find_from(s: &[char], pat: &[char], from: usize) -> (r: Option<usize>)
    ensures
        match r {
            Some(i) => from <= i && occurs_at(s@, pat@, i as int) && forall|j: int|
                from <= j < i ==> !occurs_at(s@, pat@, j),
            None => forall|j: int| from <= j ==> !occurs_at(s@, pat@, j),
        },
{
    let mut i = from;
    while i <= s.len()
        invariant
            from <= i,
            forall|j: int| from <= j < i ==> !occurs_at(s@, pat@, j),
        decreases s@.len() + 1 - i,
    {
        if matches_at(s, pat, i) {
            return Some(i);
        }
        if i == s.len() {
            assert forall|j: int| from <= j implies !occurs_at(s@, pat@, j) by {
                if j > i {
                }
            }
            return None;
        }
        i += 1;
    }
    None
}

/// Whether `pat` occurs in `s`.
pub fn contains_chars(s: &[char], pat: &[char]) -> (r: bool)
    ensures
        r == contains_seq(s@, pat@),
{
    match find_from(s, pat, 0) {
        Some(_) => true,
        None => {
            assert forall|j: int| !occurs_at(s@, pat@, j) by {
                if j < 0 {
                }
            }
            false
        },
    }
}

/// `str::contains` with a string pattern.
pub fn contains_text(s: &str, pat: &str) -> (r: bool)
    ensures
        r == contains_seq(s@, pat@),
{
    let vs = chars_of(s);
    let vp = chars_of(pat);
    contains_chars(vs.as_slice(), vp.as_slice())
}

/// `str::starts_with` with a string pattern.
pub fn starts_with_text(s: &[char], pat: &str) -> (r: bool)
    ensures
        r == starts_with(s@, pat@),
{
    let vp = chars_of(pat);
    matches_at(s, vp.as_slice(), 0)
}

/// `str::ends_with` with a string pattern.
pub fn ends_with_text(s: &[char], pat: &str) -> (r: bool)
    ensures
        r == ends_with(s@, pat@),
{
    let vp = chars_of(pat);
    if vp.len() > s.len() {
        return false;
    }
    matches_at(s, vp.as_slice(), s.len() - vp.len())
}

/// Whether the character `c` occurs in `s`.
pub fn has_char(s: &[char], c: char) -> (r: bool)
    ensures
        r == s@.contains(c),
{
    let mut i: usize = 0;
    while i < s.len()
        invariant
            i <= s@.len(),
            forall|j: int| 0 <= j < i ==> s@[j] != c,
        decreases s@.len() - i,
    {
        if s[i] == c {
            return true;
        }
        i += 1;
    }
    false
}

// ---------------------------------------------------------------------------
// Joining and splitting
// ---------------------------------------------------------------------------

/// The parts, separated by `sep` (`[T]::join`).
pub open spec fn join(parts: Seq<Seq<char>>, sep: Seq<char>) -> Seq<char>
    decreases parts.len(),
{
    if parts.len() == 0 {
        Seq::empty()
    } else if parts.len() == 1 {
        parts[0]
    } else {
        join(parts.drop_last(), sep) + sep + parts.last()
    }
}

/// The views of a sequence of strings.
pub open spec fn views(v: Seq<String>) -> Seq<Seq<char>> {
    v.map_values(|s: String| s@)
}

/// The parts joined with `sep`.
pub fn join_strings(parts: &[String], sep: &str) -> (r: String)
    ensures
        r@ == join(views(parts@), sep@),
{
    let mut r = String::new();
    let ghost all = views(parts@);
    let mut i: usize = 0;
    while i < parts.len()
        invariant
            i <= parts@.len(),
            all == views(parts@),
            r@ == join(all.take(i as int), sep@),
        decreases parts@.len() - i,
    {
        assert(all.take(i + 1).drop_last() == all.take(i as int));
        if i > 0 {
            r.append(sep);
        }
        r.append(parts[i].as_str());
        i += 1;
    }
    assert(all.take(i as int) == all);
    r
}

/// The segment of `s` before the first occurrence of `c`, or all of `s`.
pub open spec fn before_char(s: Seq<char>, c: char) -> Seq<char>
    decreases s.len(),
{
    if s.len() == 0 {
        s
    } else if s[0] == c {
        Seq::empty()
    } else {
        seq![s[0]] + before_char(s.drop_first(), c)
    }
}

/// The segment of `s` after the last occurrence of `c`, or all of `s`.
pub open spec fn after_last_char(s: Seq<char>, c: char) -> Seq<char>
    decreases s.len(),
{
    if s.len() == 0 {
        s
    } else if s.last() == c {
        Seq::empty()
    } else {
        after_last_char(s.drop_last(), c).push(s.last())
    }
}

/// Index of the first `c` in `s` (or its length) together with the prefix before it.
pub fn index_of_char(s: &[char], c: char) -> (r: usize)
    ensures
        r <= s@.len(),
        s@.subrange(0, r as int) == before_char(s@, c),
        r < s@.len() ==> s@[r as int] == c,
        forall|j: int| 0 <= j < r ==> s@[j] != c,
{
    let mut i: usize = 0;
    while i < s.len() && s[i] != c
        invariant
            i <= s@.len(),
            forall|j: int| 0 <= j < i ==> s@[j] != c,
        decreases s@.len() - i,
    {
        i += 1;
    }
    proof {
        lemma_before_char(s@, c, i as int);
    }
    i
}

pub proof fn lemma_before_char(s: Seq<char>, c: char, n: int)
    requires
        0 <= n <= s.len(),
        forall|j: int| 0 <= j < n ==> s[j] != c,
        n == s.len() || s[n] == c,
    ensures
        before_char(s, c) == s.subrange(0, n),
    decreases n,
{
    if n > 0 {
        lemma_before_char(s.drop_first(), c, n - 1);
        assert(s.subrange(0, n) == seq![s[0]] + s.drop_first().subrange(0, n - 1));
    } else if s.len() == 0 {
        assert(s.subrange(0, 0) == s);
    }
}

/// Index just after the last `c` in `s` (0 when there is none).
pub fn index_after_last_char(s: &[char], c: char) -> (r: usize)
    ensures
        r <= s@.len(),
        s@.subrange(r as int, s@.len() as int) == after_last_char(s@, c),
{
    let mut i: usize = s.len();
    while i > 0 && s[i - 1] != c
        invariant
            i <= s@.len(),
            forall|j: int| i <= j < s@.len() ==> s@[j] != c,
        decreases i,
    {
        i -= 1;
    }
    proof {
        lemma_after_last_char(s@, c, i as int);
    }
    i
}

pub proof fn lemma_after_last_char(s: Seq<char>, c: char, n: int)
    requires
        0 <= n <= s.len(),
        forall|j: int| n <= j < s.len() ==> s[j] != c,
        n == 0 || s[n - 1] == c,
    ensures
        after_last_char(s, c) == s.subrange(n, s.len() as int),
    decreases s.len() - n,
{
    if n < s.len() {
        lemma_after_last_char(s.drop_last(), c, n);
        assert(s.subrange(n, s.len() as int) == s.drop_last().subrange(
            n,
            s.len() - 1,
        ).push(s.last()));
    } else {
        assert(s.subrange(n, n) =~= Seq::<char>::empty());
        if s.len() > 0 {
            assert(s.last() == c);
        }
    }
}

/// `str::lines`: the lines of `s`, split at `'\n'`; a `'\r'` before the
/// `'\n'` is dropped, and a final line ending opens no further line.
pub open spec fn lines_of(s: Seq<char>) -> Seq<Seq<char>>
    decreases s.len(),
{
    if s.len() == 0 {
        Seq::empty()
    } else {
        let line = before_char(s, '\n');
        proof {
            lemma_before_char_len(s, '\n');
        }
        if line.len() == s.len() {
            seq![line]
        } else {
            let line = if line.len() > 0 && line.last() == '\r' {
                line.drop_last()
            } else {
                line
            };
            seq![line] + lines_of(s.subrange(before_char(s, '\n').len() + 1 as int, s.len() as int))
        }
    }
}

pub proof fn lemma_before_char_len(s: Seq<char>, c: char)
    ensures
        before_char(s, c).len() <= s.len(),
        before_char(s, c) == s.subrange(0, before_char(s, c).len() as int),
        before_char(s, c).len() < s.len() ==> s[before_char(s, c).len() as int] == c,
        forall|j: int| 0 <= j < before_char(s, c).len() ==> s[j] != c,
    decreases s.len(),
{
    if s.len() > 0 && s[0] != c {
        lemma_before_char_len(s.drop_first(), c);
        let t = s.drop_first();
        assert forall|j: int| 0 <= j < before_char(s, c).len() implies s[j] != c by {
            if j > 0 {
                assert(s[j] == t[j - 1]);
            }
        }
        assert(before_char(s, c) == s.subrange(0, before_char(s, c).len() as int));
    } else if s.len() > 0 {
        assert(before_char(s, c) == s.subrange(0, 0));
    } else {
        assert(before_char(s, c) == s.subrange(0, 0));
    }
}

/// `str::split_whitespace`: the maximal runs of non-whitespace characters.
pub open spec fn words(s: Seq<char>) -> Seq<Seq<char>>
    decreases s.len(),
{
    if s.len() == 0 {
        Seq::empty()
    } else if is_white(s.last()) {
        words(s.drop_last())
    } else if s.len() == 1 || is_white(s[s.len() - 2]) {
        words(s.drop_last()).push(seq![s.last()])
    } else {
        let w = words(s.drop_last());
        w.update(w.len() - 1, w.last().push(s.last()))
    }
}

pub proof fn lemma_words_nonempty(s: Seq<char>)
    requires
        s.len() > 0,
        !is_white(s.last()),
    ensures
        words(s).len() > 0,
        words(s).last().len() > 0,
    decreases s.len(),
{
    if s.len() > 1 && !is_white(s[s.len() - 2]) {
        lemma_words_nonempty(s.drop_last());
    }
}

/// The views of a sequence of character vectors.
pub open spec fn char_views(v: Seq<Vec<char>>) -> Seq<Seq<char>> {
    v.map_values(|w: Vec<char>| w@)
}

/// `str::split_whitespace` on a character slice.
pub fn words_of(s: &[char]) -> (r: Vec<Vec<char>>)
    ensures
        char_views(r@) == words(s@),
{
    let mut r: Vec<Vec<char>> = Vec::new();
    let mut i: usize = 0;
    while i < s.len()
        invariant
            i <= s@.len(),
            char_views(r@) == words(s@.take(i as int)),
        decreases s@.len() - i,
    {
        let c = s[i];
        let ghost t = s@.take(i as int);
        let ghost t1 = s@.take(i + 1);
        assert(t1.drop_last() == t);
        assert(t1.last() == c);
        if is_whitespace(c) {
        } else if i == 0 || is_whitespace(s[i - 1]) {
            assert(t1.len() == 1 || t1[t1.len() - 2] == s@[i - 1]);
            let mut w: Vec<char> = Vec::new();
            w.push(c);
            r.push(w);
            assert(char_views(r@) == words(t).push(seq![c]));
        } else {
            assert(t1[t1.len() - 2] == s@[i - 1]);
            proof {
                lemma_words_nonempty(t);
            }
            assert(t.last() == s@[i - 1]);
            let mut w = r.pop().unwrap();
            w.push(c);
            r.push(w);
            proof {
                let old_w = words(t);
                assert(char_views(r@) =~= old_w.update(old_w.len() - 1, old_w.last().push(c)));
            }
        }
        i += 1;
    }
    assert(s@.take(i as int) == s@);
    r
}

/// The parts joined with `sep`.
pub fn join_chars(parts: &[Vec<char>], sep: &[char]) -> (r: Vec<char>)
    ensures
        r@ == join(char_views(parts@), sep@),
{
    let mut r: Vec<char> = Vec::new();
    let ghost all = char_views(parts@);
    let mut i: usize = 0;
    while i < parts.len()
        invariant
            i <= parts@.len(),
            all == char_views(parts@),
            r@ == join(all.take(i as int), sep@),
        decreases parts@.len() - i,
    {
        assert(all.take(i + 1).drop_last() == all.take(i as int));
        if i > 0 {
            r.extend_from_slice(sep);
        }
        r.extend_from_slice(parts[i].as_slice());
        assert(all[i as int] == parts@[i as int]@);
        i += 1;
    }
    assert(all.take(i as int) == all);
    r
}

/// The whitespace-separated words of `s`, joined by single spaces.
pub fn collapse_whitespace(s: &[char]) -> (r: Vec<char>)
    ensures
        r@ == join(words(s@), seq![' ']),
{
    let ws = words_of(s);
    let sep = vec![' '];
    assert(sep@ == seq![' ']);
    join_chars(ws.as_slice(), sep.as_slice())
}

} // verus!

verus! {

/// The characters `v[from..to]`.
pub fn chars_range(v: &[char], from: usize, to: usize) -> (r: Vec<char>)
    requires
        from <= to <= v@.len(),
    ensures
        r@ == v@.subrange(from as int, to as int),
{
    let mut r: Vec<char> = Vec::new();
    let mut i = from;
    while i < to
        invariant
            from <= i <= to <= v@.len(),
            r@ == v@.subrange(from as int, i as int),
        decreases to - i,
    {
        r.push(v[i]);
        assert(v@.subrange(from as int, i + 1) == v@.subrange(from as int, i as int).push(
            v@[i as int],
        ));
        i += 1;
    }
    r
}

/// `str::lines` on a character slice.
pub fn lines(v: &[char]) -> (r: Vec<Vec<char>>)
    ensures
        char_views(r@) == lines_of(v@),
{
    let mut out: Vec<Vec<char>> = Vec::new();
    let mut start: usize = 0;
    assert(v@.subrange(0, v@.len() as int) == v@);
    while start < v.len()
        invariant
            start <= v@.len(),
            char_views(out@) + lines_of(v@.subrange(start as int, v@.len() as int)) == lines_of(
                v@,
            ),
        decreases v@.len() - start,
    {
        let ghost rest = v@.subrange(start as int, v@.len() as int);
        let ghost prev = char_views(out@);
        let mut j = start;
        while j < v.len() && v[j] != '\n'
            invariant
                start <= j <= v@.len(),
                forall|t: int| start <= t < j ==> v@[t] != '\n',
            decreases v@.len() - j,
        {
            j += 1;
        }
        proof {
            assert forall|t: int| 0 <= t < j - start implies rest[t] != '\n' by {
                assert(rest[t] == v@[start + t]);
            }
            if j < v.len() {
                assert(rest[j - start] == v@[j as int]);
            }
            lemma_before_char(rest, '\n', j - start);
            assert(rest.subrange(0, j - start) == v@.subrange(start as int, j as int));
        }
        let end = if j < v.len() && j > start && v[j - 1] == '\r' {
            j - 1
        } else {
            j
        };
        let line = chars_range(v, start, end);
        out.push(line);
        let next = if j < v.len() {
            j + 1
        } else {
            j
        };
        proof {
            let l = before_char(rest, '\n');
            let lv = v@.subrange(start as int, end as int);
            assert(char_views(out@) == prev.push(lv));
            if j == v@.len() {
                assert(l == rest);
                assert(lines_of(rest) == seq![lv]);
                assert(v@.subrange(next as int, v@.len() as int) =~= Seq::<char>::empty());
            } else {
                assert(l == v@.subrange(start as int, j as int));
                if j > start && v@[j - 1] == '\r' {
                    assert(l.drop_last() == lv);
                }
                assert(rest.subrange(l.len() + 1 as int, rest.len() as int) == v@.subrange(
                    j + 1,
                    v@.len() as int,
                ));
                assert(lines_of(rest) == seq![lv] + lines_of(
                    v@.subrange(next as int, v@.len() as int),
                ));
            }
            assert(prev.push(lv) + lines_of(v@.subrange(next as int, v@.len() as int)) =~= prev + (
            seq![lv] + lines_of(v@.subrange(next as int, v@.len() as int))));
        }
        start = next;
    }
    assert(v@.subrange(start as int, v@.len() as int) =~= Seq::<char>::empty());
    assert(char_views(out@) + Seq::<Seq<char>>::empty() == char_views(out@));
    out
}

} // verus!

verus! {

// ---------------------------------------------------------------------------
// Numbers
// ---------------------------------------------------------------------------

/// The decimal digit for `d < 10`.
pub open spec fn digit_char(d: nat) -> char {
    if d == 0 {
        '0'
    } else if d == 1 {
        '1'
    } else if d == 2 {
        '2'
    } else if d == 3 {
        '3'
    } else if d == 4 {
        '4'
    } else if d == 5 {
        '5'
    } else if d == 6 {
        '6'
    } else if d == 7 {
        '7'
    } else if d == 8 {
        '8'
    } else {
        '9'
    }
}

/// The decimal notation of `n`, without leading zeros.
pub open spec fn decimal(n: nat) -> Seq<char>
    decreases n,
{
    if n < 10 {
        seq![digit_char(n)]
    } else {
        decimal(n / 10).push(digit_char(n % 10))
    }
}

fn digit(d: u64) -> (c: char)
    requires
        d < 10,
    ensures
        c == digit_char(d as nat),
{
    match d {
        0 => '0',
        1 => '1',
        2 => '2',
        3 => '3',
        4 => '4',
        5 => '5',
        6 => '6',
        7 => '7',
        8 => '8',
        _ => '9',
    }
}

/// The decimal notation of `n` (`u64::to_string`).
pub fn decimal_chars(n: u64) -> (r: Vec<char>)
    ensures
        r@ == decimal(n as nat),
    decreases n,
{
    if n < 10 {
        let mut v = Vec::new();
        v.push(digit(n));
        assert(v@ == seq![digit_char(n as nat)]);
        v
    } else {
        let mut v = decimal_chars(n / 10);
        v.push(digit(n % 10));
        v
    }
}

/// Appends the decimal notation of `n` to `s`.
pub fn push_decimal(s: &mut String, n: u64)
    ensures
        final(s)@ == old(s)@ + decimal(n as nat),
{
    let v = decimal_chars(n);
    push_chars(s, v.as_slice());
}

/// The value of a run of decimal digits.
pub open spec fn digits_value(s: Seq<char>) -> nat
    decreases s.len(),
{
    if s.len() == 0 {
        0
    } else {
        digits_value(s.drop_last()) * 10 + ((s.last() as u32 - '0' as u32) as nat)
    }
}

pub open spec fn is_ascii_digit(c: char) -> bool {
    '0' <= c <= '9'
}

/// The digits of an unsigned number as `str::parse` reads them: an optional
/// leading `+` is dropped.
pub open spec fn unsigned_digits(s: Seq<char>) -> Seq<char> {
    if s.len() > 0 && s[0] == '+' {
        s.drop_first()
    } else {
        s
    }
}

/// What `str::parse` yields for an unsigned integer type whose largest
/// value is `max`: one or more ASCII digits after an optional `+`, with a
/// value of at most `max`.
pub open spec fn parsed_unsigned(s: Seq<char>, max: nat) -> Option<nat> {
    let d = unsigned_digits(s);
    if d.len() > 0 && (forall|i: int| 0 <= i < d.len() ==> is_ascii_digit(#[trigger] d[i]))
        && digits_value(d) <= max {
        Some(digits_value(d))
    } else {
        None
    }
}

/// `str::parse` for an unsigned integer type whose largest value is `max`.
pub fn parse_unsigned(s: &[char], max: u64) -> (r: Option<u64>)
    ensures
        r matches Some(v) ==> parsed_unsigned(s@, max as nat) == Some(v as nat),
        r is None ==> parsed_unsigned(s@, max as nat) is None,
{
    let start: usize = if s.len() > 0 && s[0] == '+' {
        1
    } else {
        0
    };
    let ghost d = unsigned_digits(s@);
    assert(d == s@.subrange(start as int, s@.len() as int));
    if start >= s.len() {
        return None;
    }
    let mut value: u64 = 0;
    let mut i = start;
    while i < s.len()
        invariant
            start <= i <= s@.len(),
            start < s@.len(),
            d == unsigned_digits(s@),
            d == s@.subrange(start as int, s@.len() as int),
            forall|j: int| 0 <= j < i - start ==> is_ascii_digit(#[trigger] d[j]),
            value as nat == digits_value(d.take(i - start)),
            value <= max,
        decreases s@.len() - i,
    {
        let c = s[i];
        assert(d.take(i + 1 - start).drop_last() == d.take(i - start));
        assert(d[i - start] == c);
        if !('0' <= c && c <= '9') {
            proof {
                lemma_parsed_bad_digit(s@, max as nat, i - start);
            }
            return None;
        }
        let dv = (c as u32 - '0' as u32) as u64;
        let next: u128 = value as u128 * 10 + dv as u128;
        assert(next == digits_value(d.take(i + 1 - start)));
        if next > max as u128 {
            proof {
                if forall|j: int| 0 <= j < d.len() ==> is_ascii_digit(#[trigger] d[j]) {
                    lemma_digits_value_grows(d, i + 1 - start);
                }
                lemma_parsed_too_large(s@, max as nat, i + 1 - start);
            }
            return None;
        }
        value = next as u64;
        i += 1;
    }
    assert(d.take(i - start) == d);
    Some(value)
}

pub proof fn lemma_parsed_bad_digit(s: Seq<char>, max: nat, k: int)
    requires
        0 <= k < unsigned_digits(s).len(),
        !is_ascii_digit(unsigned_digits(s)[k]),
    ensures
        parsed_unsigned(s, max) is None,
{
}

pub proof fn lemma_parsed_too_large(s: Seq<char>, max: nat, n: int)
    requires
        0 <= n <= unsigned_digits(s).len(),
        (forall|j: int|
            0 <= j < unsigned_digits(s).len() ==> is_ascii_digit(#[trigger] unsigned_digits(s)[j]))
            ==> digits_value(unsigned_digits(s).take(n)) <= digits_value(unsigned_digits(s)),
        digits_value(unsigned_digits(s).take(n)) > max,
    ensures
        parsed_unsigned(s, max) is None,
{
}

pub proof fn lemma_digits_value_grows(d: Seq<char>, n: int)
    requires
        0 <= n <= d.len(),
        forall|j: int| 0 <= j < d.len() ==> is_ascii_digit(#[trigger] d[j]),
    ensures
        digits_value(d.take(n)) <= digits_value(d),
    decreases d.len() - n,
{
    if n < d.len() {
        lemma_digits_value_grows(d, n + 1);
        assert(d.take(n + 1).drop_last() == d.take(n));
    } else {
        assert(d.take(n) == d);
    }
}

// ---------------------------------------------------------------------------
// Splitting at a separator
// ---------------------------------------------------------------------------

/// The position of the first occurrence of `pat` in `s`.
pub open spec fn first_occurrence(s: Seq<char>, pat: Seq<char>) -> Option<int> {
    if exists|i: int| occurs_at(s, pat, i) {
        Some(
            choose|i: int|
                occurs_at(s, pat, i) && forall|j: int| 0 <= j < i ==> !occurs_at(s, pat, j),
        )
    } else {
        None
    }
}

/// `str::split` with a non-empty string separator: the pieces between
/// successive non-overlapping occurrences of `pat`.
#[verifier::opaque]
pub open spec fn split_on(s: Seq<char>, pat: Seq<char>) -> Seq<Seq<char>>
    decreases s.len(),
{
    if pat.len() == 0 {
        seq![s]
    } else {
        match first_occurrence(s, pat) {
            Some(i) => if 0 <= i && i + pat.len() <= s.len() {
                seq![s.subrange(0, i)] + split_on(s.subrange(i + pat.len(), s.len() as int), pat)
            } else {
                seq![s]
            },
            None => seq![s],
        }
    }
}

pub proof fn lemma_first_occurrence(s: Seq<char>, pat: Seq<char>, i: int)
    requires
        occurs_at(s, pat, i),
        forall|j: int| 0 <= j < i ==> !occurs_at(s, pat, j),
    ensures
        first_occurrence(s, pat) == Some(i),
{
    let k = choose|k: int|
        occurs_at(s, pat, k) && forall|j: int| 0 <= j < k ==> !occurs_at(s, pat, j);
    assert(occurs_at(s, pat, i) && forall|j: int| 0 <= j < i ==> !occurs_at(s, pat, j));
    if k < i {
    } else if k > i {
    }
}

pub proof fn lemma_first_occurrence_shift(s: Seq<char>, pat: Seq<char>, from: int)
    requires
        0 <= from <= s.len(),
    ensures
        forall|j: int|
            0 <= j ==> (occurs_at(s.subrange(from, s.len() as int), pat, j) <==> occurs_at(
                s,
                pat,
                j + from,
            )),
{
    let t = s.subrange(from, s.len() as int);
    assert forall|j: int| 0 <= j implies (occurs_at(t, pat, j) <==> occurs_at(s, pat, j + from)) by {
        if 0 <= j && j + pat.len() <= t.len() {
            assert(t.subrange(j, j + pat.len()) == s.subrange(j + from, j + from + pat.len()));
        }
    }
}

#[verifier::rlimit(60)]
pub proof fn lemma_split_step(s: Seq<char>, pat: Seq<char>, start: int, i: int)
    requires
        pat.len() > 0,
        0 <= start <= i,
        occurs_at(s, pat, i),
        forall|j: int| start <= j < i ==> !occurs_at(s, pat, j),
    ensures
        split_on(s.subrange(start, s.len() as int), pat) == seq![s.subrange(start, i)] + split_on(
            s.subrange(i + pat.len(), s.len() as int),
            pat,
        ),
{
    reveal(split_on);
    let rest = s.subrange(start, s.len() as int);
    lemma_first_occurrence_shift(s, pat, start);
    assert(occurs_at(rest, pat, i - start));
    assert forall|j: int| 0 <= j < i - start implies !occurs_at(rest, pat, j) by {
        assert(!occurs_at(s, pat, j + start));
    }
    lemma_first_occurrence(rest, pat, i - start);
    assert(rest.subrange(0, i - start) == s.subrange(start, i));
    assert(rest.subrange(i - start + pat.len(), rest.len() as int) == s.subrange(
        i + pat.len(),
        s.len() as int,
    ));
}

pub proof fn lemma_split_last(s: Seq<char>, pat: Seq<char>, start: int)
    requires
        pat.len() > 0,
        0 <= start <= s.len(),
        forall|j: int| start <= j ==> !occurs_at(s, pat, j),
    ensures
        split_on(s.subrange(start, s.len() as int), pat) == seq![s.subrange(start, s.len() as int)],
{
    reveal(split_on);
    let rest = s.subrange(start, s.len() as int);
    lemma_first_occurrence_shift(s, pat, start);
    assert forall|j: int| !occurs_at(rest, pat, j) by {
        if j >= 0 {
            assert(!occurs_at(s, pat, j + start));
        }
    }
}

/// `str::split` with a non-empty separator.
pub fn split_chars(s: &[char], pat: &[char]) -> (r: Vec<Vec<char>>)
    requires
        pat@.len() > 0,
    ensures
        char_views(r@) == split_on(s@, pat@),
{
    let mut out: Vec<Vec<char>> = Vec::new();
    let mut start: usize = 0;
    assert(s@.subrange(0, s@.len() as int) == s@);
    loop
        invariant
            start <= s@.len(),
            pat@.len() > 0,
            char_views(out@) + split_on(s@.subrange(start as int, s@.len() as int), pat@)
                == split_on(s@, pat@),
        decreases s@.len() - start,
    {
        let ghost prev = char_views(out@);
        match find_from(s, pat, start) {
            Some(i) => {
                proof {
                    lemma_split_step(s@, pat@, start as int, i as int);
                }
                let piece = chars_range(s, start, i);
                out.push(piece);
                proof {
                    let tail = split_on(s@.subrange(i + pat@.len(), s@.len() as int), pat@);
                    let p = s@.subrange(start as int, i as int);
                    assert(char_views(out@) == prev.push(p));
                    assert(prev.push(p) + tail =~= prev + (seq![p] + tail));
                }
                assert(occurs_at(s@, pat@, i as int));
                let n = s.len();
                let m = pat.len();
                assert(i + m <= n);
                start = i + m;
            },
            None => {
                proof {
                    lemma_split_last(s@, pat@, start as int);
                }
                let piece = chars_range(s, start, s.len());
                out.push(piece);
                proof {
                    let rest = s@.subrange(start as int, s@.len() as int);
                    assert(char_views(out@) == prev.push(rest));
                    assert(prev + seq![rest] =~= prev.push(rest));
                }
                return out;
            },
        }
    }
}

/// The text of `s` in lower case (`str::to_lowercase`).
pub uninterp spec fn lowercased(s: Seq<char>) -> Seq<char>;

/// Trusted: `str::to_lowercase`, a function of its argument alone.
#[verifier::external_body]
pub(crate) fn lowercase(s: &str) -> (r: String)
    ensures
        r@ == lowercased(s@),
{
    s.to_lowercase()
}

} // verus!
